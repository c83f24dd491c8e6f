//! Error taxonomy shared by the chat and embedding clients.

use vstd::prelude::*;

verus! {

/// Error type for model operations.
///
/// Every fallible client operation reports one of these kinds:
/// - `HttpError`: the transport failed (connection, send, or read);
/// - `JsonError`: a request or response body could not be encoded or decoded;
/// - `ApiError`: the server answered with a non-success HTTP status, kept
///   here together with the response body;
/// - `InvalidResponse`: the body was well-formed but missed a required part,
///   such as a completion with no choices.
#[derive(Debug, PartialEq, Eq)]
pub enum ModelError {
    HttpError(String),
    JsonError(String),
    ApiError { status: u16, body: String },
    InvalidResponse(String),
}

pub type ModelResult<T> = Result<T, ModelError>;

/// Nominal embedding width reported when a model does not say otherwise.
/// Returned embedding vectors are passed through as the server sent them;
/// their lengths are not checked against this value.
pub const DEFAULT_DIMENSION: usize = 1536;

/// Extracts the sole embedding of a single-text query from the list a batch
/// call returned: the first entry, or `InvalidResponse` when the server sent
/// none back.
pub fn first_embedding<E>(embeddings: Vec<E>) -> (r: ModelResult<E>)
    ensures
        r is Ok <==> embeddings@.len() > 0,
        r matches Ok(e) ==> e == embeddings@[0],
        r matches Err(err) ==> err matches ModelError::InvalidResponse(m)
            && m@ == "No embedding returned"@,
{
    let mut embeddings = embeddings;
    if embeddings.len() == 0 {
        Err(ModelError::InvalidResponse("No embedding returned".to_owned()))
    } else {
        Ok(embeddings.remove(0))
    }
}

} // verus!
