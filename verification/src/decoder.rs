//! Decoding the chunked answer of an inference provider.
//!
//! The provider streams its answer as lines of text, each line one JSON object.
//! A line carries a piece of the answer, and the last line, marked done, may
//! carry the conversation context to send along with the next request.

use vstd::prelude::*;
use serde_json::Value;
use crate::json::{Json, json_model, parsed_json, parse_json, value_get};
use crate::text::{text_lines, is_blank, split_lines, trim};

verus! {

/// What the decoder reads of one line of the stream.
pub struct Chunk {
    /// The piece of the answer, where the line has a string under `response`.
    pub response: Option<String>,
    /// Whether the line has `true` under `done`.
    pub done: bool,
    /// The elements of the array under `context`, where the line has one; an
    /// element that is no unsigned 64-bit integer is `None`.
    pub context: Option<Vec<Option<u64>>>,
}

/// The mathematical value of a [`Chunk`].
pub struct ChunkView {
    pub response: Option<Seq<char>>,
    pub done: bool,
    pub context: Option<Seq<Option<u64>>>,
}

impl View for Chunk {
    type V = ChunkView;

    open spec fn view(&self) -> ChunkView {
        ChunkView {
            response: match self.response {
                Some(s) => Some(s@),
                None => None,
            },
            done: self.done,
            context: match self.context {
                Some(items) => Some(items@),
                None => None,
            },
        }
    }
}

/// The elements of `items` that hold a number, in order.
pub open spec fn numbers(items: Seq<Option<u64>>) -> Seq<u64>
    decreases items.len(),
{
    if items.len() == 0 {
        Seq::empty()
    } else if items.last() is Some {
        numbers(items.drop_last()).push(items.last()->0)
    } else {
        numbers(items.drop_last())
    }
}

impl ChunkView {
    /// The text that the chunk adds to the answer.
    pub open spec fn text(self) -> Seq<char> {
        match self.response {
            Some(s) => s,
            None => Seq::empty(),
        }
    }

    /// The context that the chunk sets: only a chunk marked done sets one, and
    /// only where it carries an array.
    pub open spec fn final_context(self) -> Option<Seq<u64>> {
        if self.done && self.context is Some {
            Some(numbers(self.context->0))
        } else {
            None
        }
    }
}

/// What the decoder reads of a JSON document.
pub open spec fn chunk_of_json(doc: Json) -> ChunkView {
    ChunkView {
        response: match doc.member("response"@) {
            Some(field) => field.text(),
            None => None,
        },
        done: doc.member("done"@) == Some(Json::Bool(true)),
        context: match doc.member("context"@) {
            Some(Json::Array(items)) => Some(items.map_values(|item: Json| item.unsigned())),
            _ => None,
        },
    }
}

/// The chunk on a line of the stream: none on a blank line and on a line that
/// is not a JSON document.
pub open spec fn chunk_of_line(line: Seq<char>) -> Option<ChunkView> {
    if is_blank(line) {
        None
    } else {
        match parsed_json(line) {
            Some(doc) => Some(chunk_of_json(doc)),
            None => None,
        }
    }
}

/// The chunks on the given lines, in order, skipping the lines that hold none.
pub open spec fn chunks_of_lines(lines: Seq<Seq<char>>) -> Seq<ChunkView>
    decreases lines.len(),
{
    if lines.len() == 0 {
        Seq::empty()
    } else {
        match chunk_of_line(lines.last()) {
            Some(chunk) => chunks_of_lines(lines.drop_last()).push(chunk),
            None => chunks_of_lines(lines.drop_last()),
        }
    }
}

/// The answer: the texts of the chunks, one after the other.
pub open spec fn decoded_text(chunks: Seq<ChunkView>) -> Seq<char>
    decreases chunks.len(),
{
    if chunks.len() == 0 {
        Seq::empty()
    } else {
        decoded_text(chunks.drop_last()) + chunks.last().text()
    }
}

/// The context after the stream: that of the last chunk that sets one, empty
/// where no chunk does.
pub open spec fn decoded_context(chunks: Seq<ChunkView>) -> Seq<u64>
    decreases chunks.len(),
{
    if chunks.len() == 0 {
        Seq::empty()
    } else {
        match chunks.last().final_context() {
            Some(context) => context,
            None => decoded_context(chunks.drop_last()),
        }
    }
}

/// Reads the array under `context` element by element.
fn read_context(elements: &Vec<Value>) -> (r: Vec<Option<u64>>)
    ensures
        r@ == elements@.map_values(|e: Value| json_model(e)).map_values(
            |item: Json| item.unsigned(),
        ),
{
    let mut out: Vec<Option<u64>> = Vec::new();
    let mut i: usize = 0;
    while i < elements.len()
        invariant
            i <= elements.len(),
            out@.len() == i,
            forall|k: int| 0 <= k < i ==> out@[k] == json_model(elements@[k]).unsigned(),
        decreases elements.len() - i,
    {
        out.push(elements[i].as_u64());
        i += 1;
    }
    out
}

/// Reads from a parsed line what the decoder needs of it.
pub fn read_chunk(value: &Value) -> (chunk: Chunk)
    ensures
        chunk@ == chunk_of_json(json_model(*value)),
{
    let response = match value_get(value, "response") {
        Some(field) => match field.as_str() {
            Some(s) => Some(s.to_string()),
            None => None,
        },
        None => None,
    };
    let done = match value_get(value, "done") {
        Some(field) => match field.as_bool() {
            Some(b) => b,
            None => false,
        },
        None => false,
    };
    let context = match value_get(value, "context") {
        Some(field) => match field.as_array() {
            Some(elements) => Some(read_context(elements)),
            None => None,
        },
        None => None,
    };
    Chunk { response, done, context }
}

/// Keeps the elements that hold a number, in order.
fn collect_numbers(items: &Vec<Option<u64>>) -> (r: Vec<u64>)
    ensures
        r@ == numbers(items@),
{
    let mut out: Vec<u64> = Vec::new();
    let mut i: usize = 0;
    while i < items.len()
        invariant
            i <= items.len(),
            out@ == numbers(items@.take(i as int)),
        decreases items.len() - i,
    {
        proof {
            assert(items@.take(i + 1).drop_last() == items@.take(i as int));
        }
        if let Some(n) = items[i] {
            out.push(n);
        }
        i += 1;
    }
    proof {
        assert(items@.take(items.len() as int) == items@);
    }
    out
}

/// Applies one chunk to the answer gathered so far: its text is appended, and
/// where it sets a context, that context replaces the one held.
pub fn apply_chunk(chunk: &Chunk, response: &mut String, context: &mut Vec<u64>)
    ensures
        final(response)@ == old(response)@ + chunk@.text(),
        final(context)@ == match chunk@.final_context() {
            Some(fresh) => fresh,
            None => old(context)@,
        },
{
    if let Some(text) = &chunk.response {
        response.append(text.as_str());
    }
    if chunk.done {
        if let Some(items) = &chunk.context {
            *context = collect_numbers(items);
        }
    }
}

/// Reads the chunk on one line of the stream. A blank line holds none, nor does
/// a line that is not a JSON document.
pub fn parse_chunk(line: &str) -> (r: Option<Chunk>)
    ensures
        match r {
            Some(chunk) => chunk_of_line(line@) == Some(chunk@),
            None => chunk_of_line(line@) is None,
        },
{
    if trim(line).is_empty() {
        return None;
    }
    match parse_json(line) {
        Some(value) => Some(read_chunk(&value)),
        None => None,
    }
}

/// Decodes the stream of an inference provider: the answer is the text of all
/// chunks in order, the context is that of the last chunk that sets one. Lines
/// that hold no chunk are passed over.
pub fn parse_ollama_stream(json_stream: &str) -> (r: (String, Vec<u64>))
    ensures
        r.0@ == decoded_text(chunks_of_lines(text_lines(json_stream@))),
        r.1@ == decoded_context(chunks_of_lines(text_lines(json_stream@))),
{
    let mut response = String::new();
    let mut context: Vec<u64> = Vec::new();
    let lines = split_lines(json_stream);
    let ghost all = text_lines(json_stream@);
    let mut i: usize = 0;
    while i < lines.len()
        invariant
            i <= lines.len(),
            lines@.map_values(|line: &str| line@) == all,
            response@ == decoded_text(chunks_of_lines(all.take(i as int))),
            context@ == decoded_context(chunks_of_lines(all.take(i as int))),
        decreases lines.len() - i,
    {
        proof {
            assert(all.take(i + 1).drop_last() == all.take(i as int));
            assert(all.take(i + 1).last() == lines@[i as int]@);
        }
        if let Some(chunk) = parse_chunk(lines[i]) {
            proof {
                let before = chunks_of_lines(all.take(i as int));
                assert(before.push(chunk@).drop_last() == before);
            }
            apply_chunk(&chunk, &mut response, &mut context);
        }
        i += 1;
    }
    proof {
        assert(all.take(lines.len() as int) == all);
    }
    (response, context)
}

/// The chunks of two runs of lines, one after the other, are the chunks of the
/// first run followed by those of the second.
pub proof fn lemma_chunks_of_lines_concat(front: Seq<Seq<char>>, back: Seq<Seq<char>>)
    ensures
        chunks_of_lines(front + back) == chunks_of_lines(front) + chunks_of_lines(back),
    decreases back.len(),
{
    if back.len() == 0 {
        assert(front + back == front);
        assert(chunks_of_lines(front) + chunks_of_lines(back) == chunks_of_lines(front));
    } else {
        lemma_chunks_of_lines_concat(front, back.drop_last());
        assert((front + back).drop_last() == front + back.drop_last());
        assert((front + back).last() == back.last());
        match chunk_of_line(back.last()) {
            Some(chunk) => {
                assert((chunks_of_lines(front) + chunks_of_lines(back.drop_last())).push(chunk)
                    == chunks_of_lines(front) + chunks_of_lines(back.drop_last()).push(chunk));
            },
            None => {},
        }
    }
}

/// The chunks of a single line: its chunk, if it holds one.
proof fn lemma_chunks_of_one_line(line: Seq<char>)
    ensures
        chunks_of_lines(seq![line]) == match chunk_of_line(line) {
            Some(chunk) => seq![chunk],
            None => Seq::<ChunkView>::empty(),
        },
{
    reveal_with_fuel(chunks_of_lines, 2);
    assert(seq![line].drop_last() == Seq::<Seq<char>>::empty());
    assert(seq![line].last() == line);
    match chunk_of_line(line) {
        Some(chunk) => {
            assert(Seq::<ChunkView>::empty().push(chunk) == seq![chunk]);
        },
        None => {},
    }
}

/// A line that holds no chunk, wherever it stands in the stream, changes
/// neither the answer nor the context.
pub proof fn lemma_line_without_chunk_is_skipped(
    before: Seq<Seq<char>>,
    line: Seq<char>,
    after: Seq<Seq<char>>,
)
    requires
        chunk_of_line(line) is None,
    ensures
        chunks_of_lines(before + seq![line] + after) == chunks_of_lines(before + after),
        decoded_text(chunks_of_lines(before + seq![line] + after)) == decoded_text(
            chunks_of_lines(before + after),
        ),
        decoded_context(chunks_of_lines(before + seq![line] + after)) == decoded_context(
            chunks_of_lines(before + after),
        ),
{
    lemma_chunks_of_lines_concat(before + seq![line], after);
    lemma_chunks_of_lines_concat(before, seq![line]);
    lemma_chunks_of_lines_concat(before, after);
    lemma_chunks_of_one_line(line);
    assert(chunks_of_lines(before) + Seq::<ChunkView>::empty() == chunks_of_lines(before));
}

/// The answer of two runs of chunks, one after the other, is the answer of the
/// first followed by the answer of the second.
pub proof fn lemma_decoded_text_concat(front: Seq<ChunkView>, back: Seq<ChunkView>)
    ensures
        decoded_text(front + back) == decoded_text(front) + decoded_text(back),
    decreases back.len(),
{
    if back.len() == 0 {
        assert(front + back == front);
        assert(decoded_text(front) + decoded_text(back) == decoded_text(front));
    } else {
        lemma_decoded_text_concat(front, back.drop_last());
        assert((front + back).drop_last() == front + back.drop_last());
        assert((front + back).last() == back.last());
        assert((decoded_text(front) + decoded_text(back.drop_last())) + back.last().text()
            == decoded_text(front) + (decoded_text(back.drop_last()) + back.last().text()));
    }
}

/// The answer of a single chunk is its text.
proof fn lemma_decoded_text_of_one_chunk(chunk: ChunkView)
    ensures
        decoded_text(seq![chunk]) == chunk.text(),
{
    reveal_with_fuel(decoded_text, 2);
    assert(seq![chunk].drop_last() == Seq::<ChunkView>::empty());
    assert(Seq::<char>::empty() + chunk.text() == chunk.text());
}

/// A stream of three lines whose middle line holds no chunk yields the text of
/// the first line's chunk followed by the text of the third's.
pub proof fn lemma_malformed_line_between_two_chunks(
    first: Seq<char>,
    middle: Seq<char>,
    third: Seq<char>,
)
    requires
        chunk_of_line(first) is Some,
        chunk_of_line(middle) is None,
        chunk_of_line(third) is Some,
    ensures
        decoded_text(chunks_of_lines(seq![first, middle, third])) == chunk_of_line(
            first,
        )->0.text() + chunk_of_line(third)->0.text(),
{
    let a = chunk_of_line(first)->0;
    let c = chunk_of_line(third)->0;
    assert(seq![first, middle, third] == seq![first] + seq![middle] + seq![third]);
    lemma_line_without_chunk_is_skipped(seq![first], middle, seq![third]);
    lemma_chunks_of_lines_concat(seq![first], seq![third]);
    lemma_chunks_of_one_line(first);
    lemma_chunks_of_one_line(third);
    lemma_decoded_text_concat(seq![a], seq![c]);
    lemma_decoded_text_of_one_chunk(a);
    lemma_decoded_text_of_one_chunk(c);
}

} // verus!
