//! Talking to an Ollama server: the body of a generate request, and the
//! stream to keep of its reply.
//!
//! Sending the request and receiving the reply are the caller's part.

use vstd::prelude::*;
use crate::json::{Json, printed_json, json_bool, json_string, json_object, print_json};
use crate::document::{numbers_json, numbers_value, add_member, no_members,
    lemma_member_names_differ};
use crate::text::{text_lines, is_blank, split_lines, trim, push_char};

verus! {

/// The document of a generate request: the model, the prompt, no streaming,
/// and the conversation context where it is not empty.
pub open spec fn request_json(model: Seq<char>, prompt: Seq<char>, context: Seq<u64>) -> Json {
    let members = map![
        "model"@ => Json::Text(model),
        "prompt"@ => Json::Text(prompt),
        "stream"@ => Json::Bool(false),
    ];
    if context.len() > 0 {
        Json::Object(members.insert("context"@, numbers_json(context)))
    } else {
        Json::Object(members)
    }
}

/// The lines of a reply that are not blank, each followed by a line feed.
pub open spec fn kept_lines(lines: Seq<Seq<char>>) -> Seq<char>
    decreases lines.len(),
{
    if lines.len() == 0 {
        Seq::empty()
    } else if is_blank(lines.last()) {
        kept_lines(lines.drop_last())
    } else {
        (kept_lines(lines.drop_last()) + lines.last()).push('\n')
    }
}

/// The stream that a reply holds: its lines that are not blank; none where
/// that leaves nothing but whitespace.
pub open spec fn stream_of_reply(reply: Seq<char>) -> Option<Seq<char>> {
    let kept = kept_lines(text_lines(reply));
    if is_blank(kept) {
        None
    } else {
        Some(kept)
    }
}

/// The body of a generate request, as JSON text. `None` where the document
/// cannot be written as text.
pub fn request_body(model: &str, prompt: &str, context: &Vec<u64>) -> (r: Option<String>)
    ensures
        match r {
            Some(body) => printed_json(request_json(model@, prompt@, context@)) == Some(body@),
            None => printed_json(request_json(model@, prompt@, context@)) is None,
        },
{
    proof {
        lemma_member_names_differ();
    }
    let mut members = no_members();
    add_member(&mut members, "model", json_string(model.to_string()));
    add_member(&mut members, "prompt", json_string(prompt.to_string()));
    add_member(&mut members, "stream", json_bool(false));
    if context.len() > 0 {
        add_member(&mut members, "context", numbers_value(context));
    }
    let payload = json_object(members);
    print_json(&payload)
}

/// The stream to keep of a reply: its lines that are not blank, each followed
/// by a line feed. `None` where the reply holds nothing but whitespace.
pub fn response_stream(reply: &str) -> (r: Option<String>)
    ensures
        match r {
            Some(stream) => stream_of_reply(reply@) == Some(stream@),
            None => stream_of_reply(reply@) is None,
        },
{
    let lines = split_lines(reply);
    let ghost all = text_lines(reply@);
    let mut json_lines = String::new();
    let mut i: usize = 0;
    while i < lines.len()
        invariant
            i <= lines.len(),
            lines@.map_values(|line: &str| line@) == all,
            json_lines@ == kept_lines(all.take(i as int)),
        decreases lines.len() - i,
    {
        proof {
            assert(all.take(i + 1).drop_last() == all.take(i as int));
            assert(all.take(i + 1).last() == lines@[i as int]@);
        }
        if !trim(lines[i]).is_empty() {
            json_lines.append(lines[i]);
            push_char(&mut json_lines, '\n');
        }
        i += 1;
    }
    proof {
        assert(all.take(lines.len() as int) == all);
    }
    if trim(json_lines.as_str()).is_empty() {
        None
    } else {
        Some(json_lines)
    }
}

} // verus!
