//! Chat and embedding clients for a local OpenAI-compatible server.
//!
//! A client handle is an immutable configuration snapshot built once through
//! a builder. The handle's logic — building request records, classifying the
//! HTTP status, parsing responses, decoding streamed chunks, batching and
//! reordering embeddings — lives here; the transport performing the calls
//! stands outside the library and exchanges plain values with it.

use vstd::prelude::*;

use crate::base::{ModelError, ModelResult};
use crate::json::json_roundtrips;
use crate::messages::{
    decode_tool_call, messages_to_dict, tool_call_args_ok, AIMessage, Message, ToolCall,
    WireRecord,
};
use crate::sse::{chunk_fragment, decode_chunk_fragment};
use vstd::string::StrSliceExecFns;

verus! {

/// The host used when none is configured.
pub open spec fn default_host() -> Seq<char> {
    "http://localhost:11434"@
}

/// The host with every trailing slash removed.
pub open spec fn spec_trim_end_slashes(host: Seq<char>) -> Seq<char>
    decreases host.len(),
{
    if host.len() > 0 && host[host.len() - 1] == '/' {
        spec_trim_end_slashes(host.drop_last())
    } else {
        host
    }
}

/// The chat-completions endpoint under a host.
pub open spec fn chat_completions_url_of(host: Seq<char>) -> Seq<char> {
    spec_trim_end_slashes(host) + "/v1/chat/completions"@
}

/// The embeddings endpoint under a host.
pub open spec fn embeddings_url_of(host: Seq<char>) -> Seq<char> {
    spec_trim_end_slashes(host) + "/v1/embeddings"@
}

/// Relies on `String::push_str`: appends the text's characters in place.
#[verifier::external_body]
fn append_str(s: &mut String, t: &str)
    ensures
        final(s)@ == old(s)@ + t@,
{
    s.push_str(t);
}

/// The host with every trailing slash removed, as an owned text.
fn trim_end_slashes(s: &str) -> (r: String)
    ensures
        r@ == spec_trim_end_slashes(s@),
{
    let n = s.unicode_len();
    let mut end = n;
    proof {
        assert(s@.take(n as int) =~= s@);
    }
    while end > 0 && s.get_char(end - 1) == '/'
        invariant
            end <= n,
            n == s@.len(),
            spec_trim_end_slashes(s@) == spec_trim_end_slashes(s@.take(end as int)),
        decreases end,
    {
        proof {
            assert(s@.take(end as int).len() == end as int);
            assert(s@.take(end as int)[end as int - 1] == '/');
            assert(s@.take(end as int).drop_last() =~= s@.take(end as int - 1));
        }
        end = end - 1;
    }
    proof {
        assert(spec_trim_end_slashes(s@.take(end as int)) == s@.take(end as int));
    }
    s.substring_char(0, end).to_owned()
}

/// OpenAI-compatible chat completion request. `tool` declarations are never
/// sent; `stream` is present only for a streamed call.
pub struct ChatRequest {
    pub model: String,
    pub messages: Vec<WireRecord>,
    /// Sampling temperature, carried as the bit pattern of a 32-bit float.
    pub temperature_bits: u32,
    pub max_tokens: Option<u32>,
    pub tools: Option<Vec<serde_json::Value>>,
    pub stream: Option<bool>,
}

/// OpenAI-compatible chat completion response.
pub struct ChatResponse {
    pub choices: Vec<Choice>,
}

pub struct Choice {
    pub message: ResponseMessage,
}

pub struct ResponseMessage {
    pub content: Option<String>,
    pub tool_calls: Vec<ResponseToolCall>,
}

pub struct ResponseToolCall {
    pub id: String,
    pub function: FunctionCall,
}

pub struct FunctionCall {
    pub name: String,
    /// The argument payload, JSON-encoded as a text.
    pub arguments: String,
}

/// Classifies an HTTP reply: a success status passes the body through, any
/// other status becomes an API error carrying the status and the body.
pub fn check_status(status: u16, body: String) -> (r: ModelResult<String>)
    ensures
        r is Ok <==> 200 <= status < 300,
        r matches Ok(b) ==> b == body,
        r matches Err(e) ==> e matches ModelError::ApiError { status: s, body: b } && s == status
            && b == body,
{
    if 200 <= status && status < 300 {
        Ok(body)
    } else {
        Err(ModelError::ApiError { status, body })
    }
}

/// Ollama chat model: configuration for single-shot and streamed chat
/// completion calls.
#[derive(Debug, Clone)]
pub struct OllamaChat {
    pub model: String,
    pub host: String,
    /// Sampling temperature as the bit pattern of a 32-bit float; the bit
    /// pattern of zero stands for the default temperature of zero.
    pub temperature_bits: u32,
    pub max_tokens: Option<u32>,
    /// Per-connection timeout in milliseconds.
    pub timeout_ms: u64,
    /// Accepted and stored, but no retry loop is performed: calls are issued
    /// exactly once.
    pub max_retries: u32,
}

impl OllamaChat {
    /// Create a new Ollama chat model with default settings.
    pub fn new(model: String) -> (r: Self)
        ensures
            r.model == model,
            r.host@ == default_host(),
            r.temperature_bits == 0,
            r.max_tokens is None,
            r.timeout_ms == 60000,
            r.max_retries == 2,
    {
        Self::builder(model).build()
    }

    /// Create a builder for configuring the model.
    pub fn builder(model: String) -> (r: OllamaChatBuilder)
        ensures
            r.model == model,
            r.host@ == default_host(),
            r.temperature_bits == 0,
            r.max_tokens is None,
            r.timeout_ms == 60000,
            r.max_retries == 2,
    {
        OllamaChatBuilder::new(model)
    }

    /// Builds the chat completion request for a message sequence: the
    /// configured model and parameters, the wire record of each message in
    /// order, no tool declarations, and the streaming flag only when asked
    /// for.
    pub fn build_request(&self, messages: &[Message], stream: bool) -> (r: ChatRequest)
        ensures
            r.model@ == self.model@,
            r.messages@.len() == messages@.len(),
            forall|i: int|
                0 <= i < messages@.len() ==> (#[trigger] r.messages@[i])@
                    == messages@[i].spec_wire(),
            r.temperature_bits == self.temperature_bits,
            r.max_tokens == self.max_tokens,
            r.tools is None,
            r.stream == if stream {
                Some(true)
            } else {
                None::<bool>
            },
    {
        ChatRequest {
            model: self.model.clone(),
            messages: messages_to_dict(messages),
            temperature_bits: self.temperature_bits,
            max_tokens: self.max_tokens,
            tools: None,
            stream: if stream {
                Some(true)
            } else {
                None
            },
        }
    }

    /// Parses a chat completion response into an assistant message: the
    /// first choice's content (empty when absent) and its tool calls, each
    /// argument text decoded as JSON with the documented soft fail. A
    /// response with no choices is invalid. Every produced argument value
    /// comes from the parser (or is the null fallback), so re-encoding it
    /// round-trips.
    pub fn parse_response(response: ChatResponse) -> (r: ModelResult<AIMessage>)
        ensures
            r is Ok <==> response.choices@.len() > 0,
            r matches Err(e) ==> e matches ModelError::InvalidResponse(s) && s@
                == "No choices in response"@,
            r matches Ok(m) ==> {
                let msg = response.choices@[0].message;
                &&& (msg.content matches Some(c) ==> m.content@ == c@)
                &&& (msg.content is None ==> m.content@ == Seq::<char>::empty())
                &&& m.tool_calls@.len() == msg.tool_calls@.len()
                &&& forall|i: int|
                    0 <= i < msg.tool_calls@.len() ==> {
                        &&& (#[trigger] m.tool_calls@[i]).id@ == msg.tool_calls@[i].id@
                        &&& m.tool_calls@[i].name@ == msg.tool_calls@[i].function.name@
                        &&& tool_call_args_ok(
                            msg.tool_calls@[i].function.arguments@,
                            m.tool_calls@[i].args,
                        )
                        &&& json_roundtrips(m.tool_calls@[i].args)
                    }
            },
    {
        let mut choices = response.choices;
        if choices.len() == 0 {
            return Err(ModelError::InvalidResponse("No choices in response".to_owned()));
        }
        let choice = choices.remove(0);
        let ResponseMessage { content, tool_calls } = choice.message;
        let content = match content {
            Some(c) => c,
            None => String::new(),
        };
        let mut out: Vec<ToolCall> = Vec::new();
        let n = tool_calls.len();
        for i in 0..n
            invariant
                n == tool_calls@.len(),
                out@.len() == i,
                tool_calls@ == response.choices@[0].message.tool_calls@,
                forall|j: int|
                    0 <= j < i ==> {
                        &&& (#[trigger] out@[j]).id@ == tool_calls@[j].id@
                        &&& out@[j].name@ == tool_calls@[j].function.name@
                        &&& tool_call_args_ok(tool_calls@[j].function.arguments@, out@[j].args)
                        &&& json_roundtrips(out@[j].args)
                    },
        {
            let rtc = &tool_calls[i];
            let tc = decode_tool_call(
                rtc.id.clone(),
                rtc.function.name.clone(),
                rtc.function.arguments.as_str(),
            );
            out.push(tc);
        }
        Ok(AIMessage::with_tool_calls(content, out))
    }

    /// The chat-completions endpoint for the configured host, trailing
    /// slashes trimmed.
    pub fn completions_url(&self) -> (r: String)
        ensures
            r@ == chat_completions_url_of(self.host@),
    {
        let mut url = trim_end_slashes(self.host.as_str());
        append_str(&mut url, "/v1/chat/completions");
        url
    }

    /// Decodes one byte chunk of a streamed response into a partial
    /// assistant message; a chunk with no decodable content delta yields an
    /// empty fragment, which callers filter.
    pub fn decode_stream_chunk(chunk: &[u8]) -> (r: AIMessage)
        ensures
            r.content@ == chunk_fragment(chunk@),
            r.tool_calls@ == Seq::<ToolCall>::empty(),
    {
        AIMessage::new(decode_chunk_fragment(chunk))
    }
}

/// Builder for `OllamaChat`.
pub struct OllamaChatBuilder {
    pub model: String,
    pub host: String,
    pub temperature_bits: u32,
    pub max_tokens: Option<u32>,
    pub timeout_ms: u64,
    pub max_retries: u32,
}

impl OllamaChatBuilder {
    pub fn new(model: String) -> (r: Self)
        ensures
            r.model == model,
            r.host@ == default_host(),
            r.temperature_bits == 0,
            r.max_tokens is None,
            r.timeout_ms == 60000,
            r.max_retries == 2,
    {
        Self {
            model,
            host: "http://localhost:11434".to_owned(),
            temperature_bits: 0,
            max_tokens: None,
            timeout_ms: 60000,
            max_retries: 2,
        }
    }

    pub fn host(self, host: String) -> (r: Self)
        ensures
            r == (Self { host, ..self }),
    {
        Self { host, ..self }
    }

    /// Sampling temperature, given as the bit pattern of a 32-bit float.
    pub fn temperature_bits(self, temperature_bits: u32) -> (r: Self)
        ensures
            r == (Self { temperature_bits, ..self }),
    {
        Self { temperature_bits, ..self }
    }

    pub fn max_tokens(self, max_tokens: u32) -> (r: Self)
        ensures
            r == (Self { max_tokens: Some(max_tokens), ..self }),
    {
        Self { max_tokens: Some(max_tokens), ..self }
    }

    /// Per-connection timeout, in milliseconds.
    pub fn timeout(self, timeout_ms: u64) -> (r: Self)
        ensures
            r == (Self { timeout_ms, ..self }),
    {
        Self { timeout_ms, ..self }
    }

    pub fn max_retries(self, max_retries: u32) -> (r: Self)
        ensures
            r == (Self { max_retries, ..self }),
    {
        Self { max_retries, ..self }
    }

    pub fn build(self) -> (r: OllamaChat)
        ensures
            r.model == self.model,
            r.host == self.host,
            r.temperature_bits == self.temperature_bits,
            r.max_tokens == self.max_tokens,
            r.timeout_ms == self.timeout_ms,
            r.max_retries == self.max_retries,
    {
        OllamaChat {
            model: self.model,
            host: self.host,
            temperature_bits: self.temperature_bits,
            max_tokens: self.max_tokens,
            timeout_ms: self.timeout_ms,
            max_retries: self.max_retries,
        }
    }
}

/// Embedding request: the model id and one batch of input texts.
pub struct EmbeddingRequest {
    pub model: String,
    pub input: Vec<String>,
}

/// One embedding of an embedding response, tagged with the server-assigned
/// position of its input text within the batch.
pub struct EmbeddingData<E> {
    pub embedding: E,
    pub index: usize,
}

/// Embedding response: the embeddings of one batch, in whatever order the
/// server chose.
pub struct EmbeddingResponse<E> {
    pub data: Vec<EmbeddingData<E>>,
}

/// Whether the entries are ordered by their server-assigned index.
pub open spec fn sorted_by_index<E>(s: Seq<EmbeddingData<E>>) -> bool {
    forall|i: int, j: int| 0 <= i < j < s.len() ==> s[i].index <= s[j].index
}

/// Whether the server-assigned indexes are exactly the batch positions: all
/// distinct and all within the batch. This is the well-formed case; the
/// client sorts whatever came back either way.
pub open spec fn indexes_complete<E>(s: Seq<EmbeddingData<E>>) -> bool {
    &&& forall|i: int, j: int|
        0 <= i < j < s.len() ==> (#[trigger] s[i]).index != (#[trigger] s[j]).index
    &&& forall|i: int| 0 <= i < s.len() ==> (#[trigger] s[i]).index < s.len()
}

proof fn lemma_strict_index_lower_bound<E>(s: Seq<EmbeddingData<E>>, i: int)
    requires
        sorted_by_index(s),
        forall|a: int, b: int|
            0 <= a < b < s.len() ==> (#[trigger] s[a]).index != (#[trigger] s[b]).index,
        0 <= i < s.len(),
    ensures
        s[i].index >= i,
    decreases i,
{
    if i > 0 {
        lemma_strict_index_lower_bound(s, i - 1);
        assert(s[i - 1].index <= s[i].index);
        assert(s[i - 1].index != s[i].index);
    }
}

proof fn lemma_strict_index_upper_bound<E>(s: Seq<EmbeddingData<E>>, i: int)
    requires
        sorted_by_index(s),
        forall|a: int, b: int|
            0 <= a < b < s.len() ==> (#[trigger] s[a]).index != (#[trigger] s[b]).index,
        forall|a: int| 0 <= a < s.len() ==> (#[trigger] s[a]).index < s.len(),
        0 <= i < s.len(),
    ensures
        s[i].index <= i,
    decreases s.len() - i,
{
    if i < s.len() - 1 {
        lemma_strict_index_upper_bound(s, i + 1);
        assert(s[i].index <= s[i + 1].index);
        assert(s[i].index != s[i + 1].index);
    }
}

/// With complete indexes, an index-sorted rearrangement puts the entry the
/// server tagged `i` at position `i`.
proof fn lemma_complete_sort_identity<E>(data: Seq<EmbeddingData<E>>, r: Seq<EmbeddingData<E>>)
    requires
        r.to_multiset() == data.to_multiset(),
        sorted_by_index(r),
        indexes_complete(data),
    ensures
        r.len() == data.len(),
        forall|i: int|
            0 <= i < r.len() ==> (#[trigger] r[i]).index == i && data.contains(r[i]),
{
    broadcast use vstd::seq_lib::group_to_multiset_ensures;

    assert(r.len() == data.len()) by {
        vstd::seq_lib::to_multiset_len(r);
        vstd::seq_lib::to_multiset_len(data);
    }
    assert(data.no_duplicates()) by {
        assert forall|i: int, j: int|
            0 <= i < data.len() && 0 <= j < data.len() && i != j implies data[i]
            != data[j] by {
            if i < j {
                assert(data[i].index != data[j].index);
            } else {
                assert(data[j].index != data[i].index);
            }
        }
    }
    data.lemma_multiset_has_no_duplicates();
    r.lemma_multiset_has_no_duplicates_conv();
    assert forall|i: int| 0 <= i < r.len() implies data.contains(#[trigger] r[i]) by {
        assert(r.contains(r[i]));
        vstd::seq_lib::to_multiset_contains(r, r[i]);
        vstd::seq_lib::to_multiset_contains(data, r[i]);
    }
    assert forall|a: int, b: int|
        0 <= a < b < r.len() implies (#[trigger] r[a]).index != (#[trigger] r[b]).index by {
        assert(r[a] != r[b]);
        assert(data.contains(r[a]));
        assert(data.contains(r[b]));
        let x = choose|x: int| 0 <= x < data.len() && data[x] == r[a];
        let y = choose|y: int| 0 <= y < data.len() && data[y] == r[b];
        assert(x != y);
        if x < y {
            assert(data[x].index != data[y].index);
        } else {
            assert(data[y].index != data[x].index);
        }
    }
    assert forall|a: int| 0 <= a < r.len() implies (#[trigger] r[a]).index < r.len() by {
        assert(data.contains(r[a]));
        let x = choose|x: int| 0 <= x < data.len() && data[x] == r[a];
        assert(data[x].index < data.len());
    }
    assert forall|i: int| 0 <= i < r.len() implies (#[trigger] r[i]).index == i by {
        lemma_strict_index_lower_bound(r, i);
        lemma_strict_index_upper_bound(r, i);
    }
}

/// Reorders one batch's embeddings by their server-assigned index, so that
/// output order matches input order even when the server answered out of
/// order. The result holds exactly the entries that came in; with complete
/// indexes the entry tagged `i` ends at position `i`.
pub fn sort_by_index<E>(data: Vec<EmbeddingData<E>>) -> (r: Vec<EmbeddingData<E>>)
    ensures
        r@.len() == data@.len(),
        sorted_by_index(r@),
        r@.to_multiset() == data@.to_multiset(),
        indexes_complete(data@) ==> forall|i: int|
            0 <= i < r@.len() ==> (#[trigger] r@[i]).index == i && data@.contains(r@[i]),
{
    broadcast use vstd::seq_lib::group_to_multiset_ensures;

    let mut rest = data;
    let mut out: Vec<EmbeddingData<E>> = Vec::new();
    proof {
        assert(out@ + rest@ =~= data@);
    }
    while rest.len() > 0
        invariant
            (out@ + rest@).to_multiset() == data@.to_multiset(),
            sorted_by_index(out@),
            forall|a: int, b: int|
                0 <= a < out@.len() && 0 <= b < rest@.len() ==> (#[trigger] out@[a]).index
                    <= (#[trigger] rest@[b]).index,
        decreases rest@.len(),
    {
        let mut k: usize = 0;
        let mut m: usize = 1;
        while m < rest.len()
            invariant
                0 < rest@.len(),
                0 <= k < m <= rest@.len(),
                forall|t: int| 0 <= t < m ==> rest@[k as int].index <= (#[trigger] rest@[t]).index,
            decreases rest@.len() - m,
        {
            if rest[m].index < rest[k].index {
                k = m;
            }
            m = m + 1;
        }
        let ghost old_out = out@;
        let ghost old_rest = rest@;
        let x = rest.remove(k);
        out.push(x);
        proof {
            broadcast use vstd::multiset::group_multiset_axioms;

            assert(rest@ == old_rest.remove(k as int));
            vstd::seq_lib::to_multiset_remove(old_rest, k as int);
            assert(out@ == old_out.push(x));
            vstd::seq_lib::to_multiset_build(old_out, x);
            vstd::seq_lib::lemma_multiset_commutative(old_out, old_rest);
            vstd::seq_lib::lemma_multiset_commutative(out@, rest@);
            assert(old_rest.contains(old_rest[k as int]));
            vstd::seq_lib::to_multiset_contains(old_rest, old_rest[k as int]);
            assert((out@ + rest@).to_multiset() =~= (old_out + old_rest).to_multiset());
            assert forall|a: int, b: int|
                0 <= a < out@.len() && 0 <= b < rest@.len() implies (#[trigger] out@[a]).index
                <= (#[trigger] rest@[b]).index by {
                assert(rest@[b] == if b < k as int {
                    old_rest[b]
                } else {
                    old_rest[b + 1]
                });
                if a < out@.len() - 1 {
                    assert(out@[a] == old_out[a]);
                } else {
                    assert(out@[a] == x);
                }
            }
            assert(sorted_by_index(out@)) by {
                assert forall|a: int, b: int| 0 <= a < b < out@.len() implies out@[a].index
                    <= out@[b].index by {
                    if b < out@.len() - 1 {
                        assert(out@[a] == old_out[a] && out@[b] == old_out[b]);
                    } else {
                        assert(out@[b] == x);
                        assert(out@[a] == old_out[a]);
                        assert(old_rest[k as int] == x);
                    }
                }
            }
        }
    }
    proof {
        assert(out@ + rest@ =~= out@);
        assert(out@.to_multiset() == data@.to_multiset());
        vstd::seq_lib::to_multiset_len(out@);
        vstd::seq_lib::to_multiset_len(data@);
        if indexes_complete(data@) {
            lemma_complete_sort_identity(data@, out@);
        }
    }
    out
}

/// The embeddings of the entries, tags stripped, order kept.
pub open spec fn embeddings_view<E>(s: Seq<EmbeddingData<E>>) -> Seq<E> {
    s.map_values(|d: EmbeddingData<E>| d.embedding)
}

/// Whether some entry carries the server-assigned index `i` and the
/// embedding `e`.
pub open spec fn has_tagged<E>(data: Seq<EmbeddingData<E>>, i: int, e: E) -> bool {
    exists|j: int|
        0 <= j < data.len() && (#[trigger] data[j]).index == i && e == data[j].embedding
}

/// Whether `r` lists, at each position `i`, the embedding the server tagged
/// with index `i`: output order matches input order.
pub open spec fn ordered_by_input<E>(data: Seq<EmbeddingData<E>>, r: Seq<E>) -> bool {
    forall|i: int| #![trigger r[i]] 0 <= i < r.len() ==> has_tagged(data, i, r[i])
}

/// The embeddings of one batch response, in input order: the entries sorted
/// by their server-assigned index, then stripped of the tags.
pub fn batch_embeddings<E>(response: EmbeddingResponse<E>) -> (r: Vec<E>)
    ensures
        r@.len() == response.data@.len(),
        exists|s: Seq<EmbeddingData<E>>|
            #![trigger embeddings_view(s)]
            s.to_multiset() == response.data@.to_multiset() && sorted_by_index(s) && r@
                == embeddings_view(s),
        indexes_complete(response.data@) ==> ordered_by_input(response.data@, r@),
{
    let mut sorted = sort_by_index(response.data);
    let ghost s0 = sorted@;
    let mut r: Vec<E> = Vec::new();
    proof {
        assert(s0.skip(0) =~= s0);
    }
    while sorted.len() > 0
        invariant
            r@.len() + sorted@.len() == s0.len(),
            sorted@ == s0.skip(r@.len() as int),
            forall|j: int| 0 <= j < r@.len() ==> #[trigger] r@[j] == s0[j].embedding,
        decreases sorted@.len(),
    {
        let ghost old_sorted = sorted@;
        let d = sorted.remove(0);
        r.push(d.embedding);
        proof {
            assert(d == s0[r@.len() - 1]);
            assert(sorted@ =~= s0.skip(r@.len() as int));
        }
    }
    proof {
        assert(r@ =~= embeddings_view(s0));
        assert(s0.to_multiset() == response.data@.to_multiset() && sorted_by_index(s0) && r@
            == embeddings_view(s0));
        if indexes_complete(response.data@) {
            assert forall|i: int| #![trigger r@[i]] 0 <= i < r@.len() implies has_tagged(
                response.data@,
                i,
                r@[i],
            ) by {
                assert(s0[i].index == i && response.data@.contains(s0[i]));
                let j = choose|j: int|
                    0 <= j < response.data@.len() && response.data@[j] == s0[i];
                assert(response.data@[j].index == i && r@[i] == response.data@[j].embedding);
            }
            assert(ordered_by_input(response.data@, r@));
        }
    }
    r
}

/// Ollama embedding model: configuration for batch text embedding calls.
#[derive(Debug, Clone)]
pub struct OllamaEmbedding {
    pub model: String,
    pub host: String,
    /// Per-connection timeout in milliseconds.
    pub timeout_ms: u64,
    /// Accepted and stored, but no retry loop is performed: calls are issued
    /// exactly once.
    pub max_retries: u32,
    pub batch_size: usize,
}

impl OllamaEmbedding {
    /// Create a new Ollama embedding model with default settings.
    pub fn new(model: String) -> (r: Self)
        ensures
            r.model == model,
            r.host@ == default_host(),
            r.timeout_ms == 60000,
            r.max_retries == 2,
            r.batch_size == 100,
    {
        Self::builder(model).build()
    }

    /// Create a builder for configuring the model.
    pub fn builder(model: String) -> (r: OllamaEmbeddingBuilder)
        ensures
            r.model == model,
            r.host@ == default_host(),
            r.timeout_ms == 60000,
            r.max_retries == 2,
            r.batch_size == 100,
    {
        OllamaEmbeddingBuilder::new(model)
    }

    /// The embeddings endpoint for the configured host, trailing slashes
    /// trimmed.
    pub fn embeddings_url(&self) -> (r: String)
        ensures
            r@ == embeddings_url_of(self.host@),
    {
        let mut url = trim_end_slashes(self.host.as_str());
        append_str(&mut url, "/v1/embeddings");
        url
    }

    /// Partitions the input texts into the embedding requests to issue: one
    /// request per consecutive batch of at most `batch_size` texts, every
    /// batch full except possibly the last, none empty, and together
    /// carrying exactly the input texts in order.
    pub fn batch_requests(&self, texts: &[String]) -> (r: Vec<EmbeddingRequest>)
        requires
            self.batch_size >= 1,
        ensures
            r@.len() == 0 <==> texts@.len() == 0,
            forall|i: int| 0 <= i < r@.len() ==> (#[trigger] r@[i]).model@ == self.model@,
            forall|i: int|
                0 <= i < r@.len() ==> 1 <= (#[trigger] r@[i]).input@.len() <= self.batch_size,
            forall|i: int|
                0 <= i < r@.len() - 1 ==> (#[trigger] r@[i]).input@.len() == self.batch_size,
            r@.map_values(|b: EmbeddingRequest| b.input@).flatten() == texts@,
    {
        broadcast use vstd::seq_lib::group_seq_properties;

        let mut r: Vec<EmbeddingRequest> = Vec::new();
        let mut start: usize = 0;
        proof {
            assert(r@.map_values(|b: EmbeddingRequest| b.input@).flatten() =~= texts@.take(0));
        }
        while start < texts.len()
            invariant
                self.batch_size >= 1,
                start <= texts@.len(),
                start == texts@.len() || start == r@.len() * self.batch_size,
                r@.len() == 0 ==> start == 0,
                forall|i: int| 0 <= i < r@.len() ==> (#[trigger] r@[i]).model@ == self.model@,
                forall|i: int|
                    0 <= i < r@.len() ==> 1 <= (#[trigger] r@[i]).input@.len() <= self.batch_size,
                forall|i: int|
                    0 <= i < r@.len() - 1 ==> (#[trigger] r@[i]).input@.len() == self.batch_size,
                start < texts@.len() && r@.len() > 0 ==> r@[r@.len() - 1].input@.len()
                    == self.batch_size,
                r@.map_values(|b: EmbeddingRequest| b.input@).flatten() == texts@.take(start as int),
            decreases texts@.len() - start,
        {
            let end = if texts.len() - start < self.batch_size {
                texts.len()
            } else {
                start + self.batch_size
            };
            let mut input: Vec<String> = Vec::new();
            for j in start..end
                invariant
                    start <= j <= end <= texts@.len(),
                    input@.len() == j - start,
                    forall|t: int| 0 <= t < input@.len() ==> input@[t]@ == texts@[start + t]@,
                    input@ == texts@.subrange(start as int, j as int),
            {
                input.push(texts[j].clone());
                proof {
                    assert(input@ =~= texts@.subrange(start as int, j as int + 1));
                }
            }
            let ghost old_r = r@;
            r.push(EmbeddingRequest { model: self.model.clone(), input });
            proof {
                assert((old_r.len() + 1) * (self.batch_size as int) == old_r.len() * (
                self.batch_size as int) + self.batch_size as int) by (nonlinear_arith);
                let f = |b: EmbeddingRequest| b.input@;
                assert(r@.map_values(f) =~= old_r.map_values(f).push(
                    texts@.subrange(start as int, end as int),
                ));
                old_r.map_values(f).lemma_flatten_push(texts@.subrange(start as int, end as int));
                assert(texts@.take(start as int) + texts@.subrange(start as int, end as int)
                    =~= texts@.take(end as int));
            }
            start = end;
        }
        proof {
            assert(texts@.take(start as int) =~= texts@);
        }
        r
    }
}

/// Builder for `OllamaEmbedding`.
pub struct OllamaEmbeddingBuilder {
    pub model: String,
    pub host: String,
    pub timeout_ms: u64,
    pub max_retries: u32,
    pub batch_size: usize,
}

impl OllamaEmbeddingBuilder {
    pub fn new(model: String) -> (r: Self)
        ensures
            r.model == model,
            r.host@ == default_host(),
            r.timeout_ms == 60000,
            r.max_retries == 2,
            r.batch_size == 100,
    {
        Self {
            model,
            host: "http://localhost:11434".to_owned(),
            timeout_ms: 60000,
            max_retries: 2,
            batch_size: 100,
        }
    }

    pub fn host(self, host: String) -> (r: Self)
        ensures
            r == (Self { host, ..self }),
    {
        Self { host, ..self }
    }

    /// Per-connection timeout, in milliseconds.
    pub fn timeout(self, timeout_ms: u64) -> (r: Self)
        ensures
            r == (Self { timeout_ms, ..self }),
    {
        Self { timeout_ms, ..self }
    }

    pub fn max_retries(self, max_retries: u32) -> (r: Self)
        ensures
            r == (Self { max_retries, ..self }),
    {
        Self { max_retries, ..self }
    }

    pub fn batch_size(self, batch_size: usize) -> (r: Self)
        ensures
            r == (Self { batch_size, ..self }),
    {
        Self { batch_size, ..self }
    }

    pub fn build(self) -> (r: OllamaEmbedding)
        ensures
            r.model == self.model,
            r.host == self.host,
            r.timeout_ms == self.timeout_ms,
            r.max_retries == self.max_retries,
            r.batch_size == self.batch_size,
    {
        OllamaEmbedding {
            model: self.model,
            host: self.host,
            timeout_ms: self.timeout_ms,
            max_retries: self.max_retries,
            batch_size: self.batch_size,
        }
    }
}

} // verus!
