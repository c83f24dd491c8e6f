//! Client-side logic for an OpenAI-compatible chat and embedding server.
//!
//! The library models conversation messages, builds the wire records and
//! request bodies that the server expects, decodes single and streamed chat
//! responses, and orders batched embedding results. All request construction
//! and decoding logic carries contracts; the HTTP transport itself lives
//! outside the library and hands it plain values.

pub mod base;
pub mod json;
pub mod messages;
pub mod ollama;
pub mod sse;

pub use base::{first_embedding, ModelError, ModelResult, DEFAULT_DIMENSION};
pub use messages::{
    messages_to_dict, AIMessage, BaseMessage, HumanMessage, Message, SystemMessage, ToolCall,
    ToolMessage, WireRecord, WireToolCall,
};
pub use ollama::{
    batch_embeddings, check_status, sort_by_index, ChatRequest, ChatResponse, Choice,
    EmbeddingData, EmbeddingRequest, EmbeddingResponse, FunctionCall, OllamaChat,
    OllamaChatBuilder, OllamaEmbedding, OllamaEmbeddingBuilder, ResponseMessage, ResponseToolCall,
};
