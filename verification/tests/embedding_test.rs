//! Tests for the embedding client: batching, index reordering, and the
//! single-query convenience.

use agentic_optio_rs::{
    batch_embeddings, first_embedding, sort_by_index, EmbeddingData, EmbeddingResponse,
    ModelError, OllamaEmbedding, DEFAULT_DIMENSION,
};

#[test]
fn test_embedding_builder_defaults() {
    let embedder = OllamaEmbedding::new("nomic-embed-text".to_string());
    assert_eq!(embedder.model, "nomic-embed-text");
    assert_eq!(embedder.host, "http://localhost:11434");
    assert_eq!(embedder.timeout_ms, 60000);
    assert_eq!(embedder.max_retries, 2);
    assert_eq!(embedder.batch_size, 100);
}

#[test]
fn test_embedding_builder_settings() {
    let embedder = OllamaEmbedding::builder("nomic-embed-text".to_string())
        .host("http://example.com".to_string())
        .timeout(5000)
        .max_retries(0)
        .batch_size(16)
        .build();
    assert_eq!(embedder.host, "http://example.com");
    assert_eq!(embedder.timeout_ms, 5000);
    assert_eq!(embedder.max_retries, 0);
    assert_eq!(embedder.batch_size, 16);
}

#[test]
fn test_embeddings_url_trims_trailing_slash() {
    let embedder = OllamaEmbedding::builder("nomic-embed-text".to_string())
        .host("http://localhost:11434/".to_string())
        .build();
    assert_eq!(embedder.embeddings_url(), "http://localhost:11434/v1/embeddings");
}

#[test]
fn test_batch_requests_sizes_two_and_one() {
    let embedder =
        OllamaEmbedding::builder("nomic-embed-text".to_string()).batch_size(2).build();
    let texts = vec!["t0".to_string(), "t1".to_string(), "t2".to_string()];
    let requests = embedder.batch_requests(&texts);
    assert_eq!(requests.len(), 2);
    assert_eq!(requests[0].model, "nomic-embed-text");
    assert_eq!(requests[0].input, vec!["t0".to_string(), "t1".to_string()]);
    assert_eq!(requests[1].input, vec!["t2".to_string()]);
}

#[test]
fn test_batch_requests_empty_input() {
    let embedder = OllamaEmbedding::new("nomic-embed-text".to_string());
    let requests = embedder.batch_requests(&[]);
    assert!(requests.is_empty());
}

#[test]
fn test_batch_requests_exact_multiple() {
    let embedder =
        OllamaEmbedding::builder("nomic-embed-text".to_string()).batch_size(2).build();
    let texts = vec![
        "a".to_string(),
        "b".to_string(),
        "c".to_string(),
        "d".to_string(),
    ];
    let requests = embedder.batch_requests(&texts);
    assert_eq!(requests.len(), 2);
    assert_eq!(requests[0].input.len(), 2);
    assert_eq!(requests[1].input.len(), 2);
}

#[test]
fn test_out_of_order_indexes_are_reordered() {
    let e0 = vec![0.0f32, 0.1];
    let e1 = vec![1.0f32, 1.1];
    let e2 = vec![2.0f32, 2.1];
    let response = EmbeddingResponse {
        data: vec![
            EmbeddingData { embedding: e2.clone(), index: 2 },
            EmbeddingData { embedding: e0.clone(), index: 0 },
            EmbeddingData { embedding: e1.clone(), index: 1 },
        ],
    };
    let ordered = batch_embeddings(response);
    assert_eq!(ordered, vec![e0, e1, e2]);
}

#[test]
fn test_sort_by_index_sorts_entries() {
    let data = vec![
        EmbeddingData { embedding: "b".to_string(), index: 1 },
        EmbeddingData { embedding: "a".to_string(), index: 0 },
    ];
    let sorted = sort_by_index(data);
    assert_eq!(sorted[0].index, 0);
    assert_eq!(sorted[0].embedding, "a");
    assert_eq!(sorted[1].index, 1);
    assert_eq!(sorted[1].embedding, "b");
}

#[test]
fn test_first_embedding_returns_sole_result() {
    let embedding = vec![0.5f32; DEFAULT_DIMENSION];
    let r = first_embedding(vec![embedding.clone()]).unwrap();
    assert_eq!(r.len(), DEFAULT_DIMENSION);
    assert_eq!(r, embedding);
}

#[test]
fn test_first_embedding_empty_is_invalid() {
    let r: Result<Vec<f32>, ModelError> = first_embedding(Vec::<Vec<f32>>::new());
    match r {
        Err(ModelError::InvalidResponse(s)) => assert_eq!(s, "No embedding returned"),
        _ => panic!("expected InvalidResponse"),
    }
}

#[test]
fn test_batched_embed_three_texts_in_order() {
    let embedder =
        OllamaEmbedding::builder("nomic-embed-text".to_string()).batch_size(2).build();
    let texts = vec!["t0".to_string(), "t1".to_string(), "t2".to_string()];
    let requests = embedder.batch_requests(&texts);
    assert_eq!(requests.len(), 2);

    // Simulate the server answering each request, out of order for the first.
    let mut all: Vec<Vec<f32>> = Vec::new();
    let first = EmbeddingResponse {
        data: vec![
            EmbeddingData { embedding: vec![1.0f32], index: 1 },
            EmbeddingData { embedding: vec![0.0f32], index: 0 },
        ],
    };
    let second = EmbeddingResponse {
        data: vec![EmbeddingData { embedding: vec![2.0f32], index: 0 }],
    };
    all.extend(batch_embeddings(first));
    all.extend(batch_embeddings(second));
    assert_eq!(all, vec![vec![0.0f32], vec![1.0f32], vec![2.0f32]]);
}
