//! Decoding of server-sent-event byte chunks into streamed reply fragments.
//!
//! A streamed chat completion arrives as byte chunks. Each chunk is split
//! into lines; a line carrying the `data: ` prefix holds an event payload.
//! The literal payload `[DONE]` closes the stream and is never forwarded as
//! content. Any other payload is decoded as UTF-8 text and parsed as JSON;
//! the first payload in the chunk that holds a content delta yields that
//! fragment. A chunk with no decodable delta yields an empty fragment rather
//! than ending the stream: callers filter empty fragments.

use vstd::prelude::*;

use crate::json::{
    json_as_str, json_from_text, json_parsed, json_pointed, json_pointer, json_str_of,
    lossy_text_of, utf8_lossy,
};

verus! {

/// The bytes of the event prefix `data: `.
pub open spec fn data_prefix() -> Seq<u8> {
    seq![100u8, 97u8, 116u8, 97u8, 58u8, 32u8]
}

/// The bytes of the closing payload `[DONE]`.
pub open spec fn done_payload() -> Seq<u8> {
    seq![91u8, 68u8, 79u8, 78u8, 69u8, 93u8]
}

/// A line without its trailing carriage return, if it has one.
pub open spec fn strip_cr(line: Seq<u8>) -> Seq<u8> {
    if line.len() > 0 && line[line.len() - 1] == 13u8 {
        line.drop_last()
    } else {
        line
    }
}

/// The lines of a byte chunk, accumulator form: `cur` holds the bytes of the
/// line begun so far. A newline ends a line; a final line without a newline
/// still counts; each line loses a trailing carriage return.
pub open spec fn split_lines_from(b: Seq<u8>, cur: Seq<u8>) -> Seq<Seq<u8>>
    decreases b.len(),
{
    if b.len() == 0 {
        if cur.len() == 0 {
            Seq::empty()
        } else {
            seq![strip_cr(cur)]
        }
    } else if b[0] == 10u8 {
        seq![strip_cr(cur)] + split_lines_from(b.drop_first(), Seq::empty())
    } else {
        split_lines_from(b.drop_first(), cur.push(b[0]))
    }
}

/// The lines of a byte chunk, with newline and carriage-return handling as in
/// `str::lines`.
pub open spec fn split_lines(b: Seq<u8>) -> Seq<Seq<u8>> {
    split_lines_from(b, Seq::empty())
}

/// The event payload a line carries: the rest of the line after the `data: `
/// prefix, or nothing for a line without the prefix.
pub open spec fn line_payload(line: Seq<u8>) -> Option<Seq<u8>> {
    if line.len() >= 6 && line.take(6) == data_prefix() {
        Some(line.skip(6))
    } else {
        None
    }
}

/// The content fragment an event payload yields: none for the closing
/// payload, for text that is not valid JSON, for an event without a content
/// delta, and for a delta that is not a JSON string.
pub open spec fn payload_fragment(p: Seq<u8>) -> Option<Seq<char>> {
    if p == done_payload() {
        None
    } else {
        match json_parsed(lossy_text_of(p)) {
            Some(v) => match json_pointed(v, "/choices/0/delta/content"@) {
                Some(node) => json_str_of(node),
                None => None,
            },
            None => None,
        }
    }
}

/// The content fragment a whole line yields.
pub open spec fn line_fragment(line: Seq<u8>) -> Option<Seq<char>> {
    match line_payload(line) {
        Some(p) => payload_fragment(p),
        None => None,
    }
}

/// The first fragment among the lines, or the empty text where no line
/// yields one.
pub open spec fn first_fragment(lines: Seq<Seq<u8>>) -> Seq<char>
    decreases lines.len(),
{
    if lines.len() == 0 {
        Seq::empty()
    } else {
        match line_fragment(lines[0]) {
            Some(c) => c,
            None => first_fragment(lines.drop_first()),
        }
    }
}

/// The content fragment one byte chunk yields.
pub open spec fn chunk_fragment(b: Seq<u8>) -> Seq<char> {
    first_fragment(split_lines(b))
}

proof fn lemma_first_fragment_skip(lines: Seq<Seq<u8>>, k: int)
    requires
        0 <= k <= lines.len(),
        forall|j: int| 0 <= j < k ==> line_fragment(#[trigger] lines[j]) is None,
    ensures
        first_fragment(lines) == first_fragment(lines.skip(k)),
    decreases k,
{
    if k > 0 {
        assert(lines.skip(1) =~= lines.drop_first());
        lemma_first_fragment_skip(lines.drop_first(), k - 1);
        assert(lines.drop_first().skip(k - 1) =~= lines.skip(k));
    } else {
        assert(lines.skip(0) =~= lines);
    }
}

fn strip_cr_vec(line: Vec<u8>) -> (r: Vec<u8>)
    ensures
        r@ == strip_cr(line@),
{
    let mut line = line;
    if line.len() > 0 && line[line.len() - 1] == 13u8 {
        line.pop();
    }
    line
}

/// Splits a byte chunk into its lines.
fn split_into_lines(chunk: &[u8]) -> (r: Vec<Vec<u8>>)
    ensures
        r@.map_values(|l: Vec<u8>| l@) == split_lines(chunk@),
{
    let mut lines: Vec<Vec<u8>> = Vec::new();
    let mut cur: Vec<u8> = Vec::new();
    let n = chunk.len();
    proof {
        assert(chunk@.skip(0) =~= chunk@);
        assert(lines@.map_values(|l: Vec<u8>| l@) =~= Seq::<Seq<u8>>::empty());
    }
    for pos in 0..n
        invariant
            n == chunk@.len(),
            split_lines(chunk@) =~= lines@.map_values(|l: Vec<u8>| l@) + split_lines_from(
                chunk@.skip(pos as int),
                cur@,
            ),
    {
        let byte = chunk[pos];
        proof {
            assert(chunk@.skip(pos as int).drop_first() =~= chunk@.skip(pos as int + 1));
            assert(chunk@.skip(pos as int)[0] == byte);
        }
        if byte == 10u8 {
            let ghost old_lines = lines@;
            let line = strip_cr_vec(cur);
            lines.push(line);
            cur = Vec::new();
            proof {
                assert(lines@.map_values(|l: Vec<u8>| l@) =~= old_lines.map_values(
                    |l: Vec<u8>| l@,
                ).push(lines@[lines@.len() - 1]@));
            }
        } else {
            cur.push(byte);
        }
    }
    proof {
        assert(chunk@.skip(n as int) =~= Seq::<u8>::empty());
    }
    if cur.len() > 0 {
        let ghost old_lines = lines@;
        let line = strip_cr_vec(cur);
        lines.push(line);
        proof {
            assert(lines@.map_values(|l: Vec<u8>| l@) =~= old_lines.map_values(
                |l: Vec<u8>| l@,
            ).push(lines@[lines@.len() - 1]@));
        }
    } else {
        proof {
            assert(lines@.map_values(|l: Vec<u8>| l@) + Seq::<Seq<u8>>::empty() =~= lines@
                .map_values(|l: Vec<u8>| l@));
        }
    }
    lines
}

/// Whether a line starts with the event prefix `data: `.
fn has_data_prefix(line: &[u8]) -> (r: bool)
    ensures
        r == (line_payload(line@) is Some),
{
    if line.len() < 6 {
        return false;
    }
    let r = line[0] == 100u8 && line[1] == 97u8 && line[2] == 116u8 && line[3] == 97u8 && line[4]
        == 58u8 && line[5] == 32u8;
    proof {
        if r {
            assert(line@.take(6) =~= data_prefix());
        } else {
            if line@.take(6) == data_prefix() {
                assert(line@[0] == 100u8 && line@[1] == 97u8 && line@[2] == 116u8 && line@[3]
                    == 97u8 && line@[4] == 58u8 && line@[5] == 32u8) by {
                    assert forall|k: int| 0 <= k < 6 implies line@[k] == data_prefix()[k] by {
                        assert(line@.take(6)[k] == line@[k]);
                    }
                }
            }
        }
    }
    r
}

/// Whether a payload is the closing `[DONE]` sentinel.
fn is_done_payload(payload: &[u8]) -> (r: bool)
    ensures
        r == (payload@ == done_payload()),
{
    if payload.len() != 6 {
        proof {
            assert(payload@ != done_payload());
        }
        return false;
    }
    let r = payload[0] == 91u8 && payload[1] == 68u8 && payload[2] == 79u8 && payload[3] == 78u8
        && payload[4] == 69u8 && payload[5] == 93u8;
    proof {
        if r {
            assert(payload@ =~= done_payload());
        } else {
            if payload@ == done_payload() {
                assert(payload@[0] == 91u8 && payload@[1] == 68u8 && payload@[2] == 79u8
                    && payload@[3] == 78u8 && payload@[4] == 69u8 && payload@[5] == 93u8);
            }
        }
    }
    r
}

/// Decodes one event payload: `None` for the closing sentinel and for
/// anything without a content delta, the delta text otherwise.
fn decode_payload(payload: &[u8]) -> (r: Option<String>)
    ensures
        r is Some <==> payload_fragment(payload@) is Some,
        r matches Some(s) ==> payload_fragment(payload@) == Some(s@),
{
    if is_done_payload(payload) {
        return None;
    }
    let text = utf8_lossy(payload);
    match json_from_text(text.as_str()) {
        Some(v) => match json_pointer(&v, "/choices/0/delta/content") {
            Some(node) => match json_as_str(node) {
                Some(s) => Some(s.to_owned()),
                None => None,
            },
            None => None,
        },
        None => None,
    }
}

/// Decodes one byte chunk of a streamed response into the content fragment
/// of its first decodable event, or the empty text.
pub fn decode_chunk_fragment(chunk: &[u8]) -> (r: String)
    ensures
        r@ == chunk_fragment(chunk@),
{
    let lines = split_into_lines(chunk);
    let n = lines.len();
    for i in 0..n
        invariant
            n == lines@.len(),
            lines@.map_values(|l: Vec<u8>| l@) == split_lines(chunk@),
            forall|j: int| 0 <= j < i ==> line_fragment(#[trigger] lines@[j]@) is None,
    {
        let line = lines[i].as_slice();
        proof {
            assert(lines@.map_values(|l: Vec<u8>| l@)[i as int] == lines@[i as int]@);
        }
        if has_data_prefix(line) {
            let payload = &line[6..line.len()];
            proof {
                assert(payload@ =~= line@.skip(6));
            }
            if let Some(s) = decode_payload(payload) {
                proof {
                    let ls = split_lines(chunk@);
                    lemma_first_fragment_skip(ls, i as int);
                    assert(ls.skip(i as int)[0] == lines@[i as int]@);
                    assert(first_fragment(ls.skip(i as int)) == s@);
                }
                return s;
            }
        }
    }
    proof {
        let ls = split_lines(chunk@);
        lemma_first_fragment_skip(ls, ls.len() as int);
        assert(ls.skip(ls.len() as int) =~= Seq::<Seq<u8>>::empty());
    }
    String::new()
}

} // verus!
