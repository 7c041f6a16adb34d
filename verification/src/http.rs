//! Fetching a body over plain HTTP: what to send, and what to keep of the
//! reply.
//!
//! The connection is the caller's part. [`FileCache::manual_get`] says where to
//! connect and what to send; [`response_body`] takes everything that came back
//! and hands out the body, unless the status line of the reply reports no
//! success.

use vstd::prelude::*;
use vstd::utf8::{valid_utf8, decode_utf8, is_char_boundary, length_of_first_scalar,
    pop_first_scalar, valid_first_scalar, encode_utf8_decode_utf8, decode_utf8_encode_utf8};
use crate::text::{push_char, string_from_utf8};
use crate::ttl::FileCache;
use crate::url::{UrlParts, UrlPartsView, parsed_url, parse_url};

verus! {

/// A request to send, and where to send it.
pub struct HttpGet {
    /// Host and port of the server, as `host:port`.
    pub address: String,
    /// The text of the request.
    pub request: String,
}

/// The mathematical value of an [`HttpGet`].
pub struct HttpGetView {
    pub address: Seq<char>,
    pub request: Seq<char>,
}

impl View for HttpGet {
    type V = HttpGetView;

    open spec fn view(&self) -> HttpGetView {
        HttpGetView { address: self.address@, request: self.request@ }
    }
}

/// The character of a decimal digit.
pub open spec fn digit_char(d: nat) -> char {
    (48 + d) as char
}

/// A number in decimal digits, without leading zeros.
pub open spec fn decimal(n: nat) -> Seq<char>
    decreases n,
{
    if n < 10 {
        seq![digit_char(n)]
    } else {
        decimal(n / 10).push(digit_char(n % 10))
    }
}

/// What a request asks for: the path, then `?` and the query where there is
/// one; `/` where that leaves nothing.
pub open spec fn request_target(parts: UrlPartsView) -> Seq<char> {
    let target = match parts.query {
        Some(query) => parts.path.push('?') + query,
        None => parts.path,
    };
    if target.len() == 0 {
        "/"@
    } else {
        target
    }
}

/// The text of a request for a target at a host.
pub open spec fn request_text(target: Seq<char>, host: Seq<char>) -> Seq<char> {
    "GET "@ + target + " HTTP/1.1\r\nHost: "@ + host + "\r\nConnection: close\r\n\r\n"@
}

/// The request that fetches an address, given its parts: none where the
/// address has no host, or no port and no scheme with a known one.
pub open spec fn request_of_parts(parts: UrlPartsView) -> Option<HttpGetView> {
    match (parts.host, parts.port) {
        (Some(host), Some(port)) => Some(
            HttpGetView {
                address: host.push(':') + decimal(port as nat),
                request: request_text(request_target(parts), host),
            },
        ),
        _ => None,
    }
}

/// The request that fetches an address: none where the text is no absolute
/// address or lacks host or port.
pub open spec fn request_of_url(url: Seq<char>) -> Option<HttpGetView> {
    match parsed_url(url) {
        Some(parts) => request_of_parts(parts),
        None => None,
    }
}

/// Appends a number in decimal digits.
fn push_decimal(out: &mut String, n: u16)
    ensures
        final(out)@ == old(out)@ + decimal(n as nat),
    decreases n,
{
    if n >= 10 {
        push_decimal(out, n / 10);
    }
    let d: u8 = (n % 10) as u8;
    let c: char = (48u8 + d) as char;
    push_char(out, c);
    proof {
        if n >= 10 {
            assert(old(out)@ + decimal((n / 10) as nat).push(c) == (old(out)@ + decimal(
                (n / 10) as nat,
            )).push(c));
        } else {
            assert(old(out)@ + seq![c] == old(out)@.push(c));
        }
    }
}

/// The request that fetches an address whose parts are given.
pub fn request_for(parts: &UrlParts) -> (r: Option<HttpGet>)
    ensures
        match r {
            Some(get) => request_of_parts(parts@) == Some(get@),
            None => request_of_parts(parts@) is None,
        },
{
    let host = match &parts.host {
        Some(host) => host,
        None => {
            return None;
        },
    };
    let port = match parts.port {
        Some(port) => port,
        None => {
            return None;
        },
    };
    let mut address = host.clone();
    push_char(&mut address, ':');
    push_decimal(&mut address, port);
    let mut target = parts.path.clone();
    if let Some(query) = &parts.query {
        push_char(&mut target, '?');
        target.append(query.as_str());
    }
    if target.as_str().is_empty() {
        target = "/".to_string();
    }
    let mut request = "GET ".to_string();
    request.append(target.as_str());
    request.append(" HTTP/1.1\r\nHost: ");
    request.append(host.as_str());
    request.append("\r\nConnection: close\r\n\r\n");
    Some(HttpGet { address, request })
}

impl FileCache {
    /// The request that fetches an address over plain HTTP, and where to send
    /// it. `None` where the text is no absolute address, or one without a host
    /// or a port.
    pub fn manual_get(&self, url: &str) -> (r: Option<HttpGet>)
        ensures
            match r {
                Some(get) => request_of_url(url@) == Some(get@),
                None => request_of_url(url@) is None,
            },
    {
        match parse_url(url) {
            Some(parts) => request_for(&parts),
            None => None,
        }
    }
}

/// Whether the blank line that ends the headers, a carriage return and a line
/// feed twice over, starts at place `i` of a reply.
pub open spec fn is_header_end(raw: Seq<u8>, i: int) -> bool {
    &&& 0 <= i
    &&& i + 4 <= raw.len()
    &&& raw[i] == 13
    &&& raw[i + 1] == 10
    &&& raw[i + 2] == 13
    &&& raw[i + 3] == 10
}

/// Whether `i` is the first place at which the headers end.
pub open spec fn is_first_header_end(raw: Seq<u8>, i: int) -> bool {
    &&& is_header_end(raw, i)
    &&& forall|j: int| 0 <= j < i ==> !is_header_end(raw, j)
}

/// The bytes of the body: what follows the first end of the headers; the
/// whole reply where the headers never end.
pub open spec fn body_bytes(raw: Seq<u8>) -> Seq<u8> {
    if exists|i: int| is_first_header_end(raw, i) {
        raw.subrange((choose|i: int| is_first_header_end(raw, i)) + 4, raw.len() as int)
    } else {
        raw
    }
}

/// Whether a reply begins with a status line: its first bytes are `HTTP/`.
pub open spec fn has_status_line(raw: Seq<u8>) -> bool {
    &&& raw.len() >= 5
    &&& raw[0] == 72
    &&& raw[1] == 84
    &&& raw[2] == 84
    &&& raw[3] == 80
    &&& raw[4] == 47
}

/// Whether a byte is a decimal digit.
pub open spec fn is_digit(byte: u8) -> bool {
    48 <= byte <= 57
}

/// Whether `i` is the place of the first space of the first line: no space
/// and no line feed comes before it.
pub open spec fn is_first_space(raw: Seq<u8>, i: int) -> bool {
    &&& 0 <= i < raw.len()
    &&& raw[i] == 32
    &&& forall|j: int| 0 <= j < i ==> raw[j] != 32 && raw[j] != 10
}

/// The number written at place `i` in exactly three digits: a fourth digit
/// must not follow.
pub open spec fn code_at(raw: Seq<u8>, i: int) -> Option<nat> {
    if 0 <= i && i + 3 <= raw.len() && is_digit(raw[i]) && is_digit(raw[i + 1]) && is_digit(
        raw[i + 2],
    ) && (i + 3 == raw.len() || !is_digit(raw[i + 3])) {
        Some(((raw[i] - 48) * 100 + (raw[i + 1] - 48) * 10 + (raw[i + 2] - 48)) as nat)
    } else {
        None
    }
}

/// The status code of a reply: the three digits after the first space of its
/// status line. None where the reply has no status line, or its status line
/// has no such digits.
pub open spec fn status_code(raw: Seq<u8>) -> Option<nat> {
    if has_status_line(raw) && exists|i: int| is_first_space(raw, i) {
        code_at(raw, (choose|i: int| is_first_space(raw, i)) + 1)
    } else {
        None
    }
}

/// Whether a status code reports success.
pub open spec fn is_success(code: nat) -> bool {
    200 <= code <= 299
}

/// Whether a reply reports that the fetch did not succeed: it has a status
/// line, and the status line carries no code of success.
pub open spec fn reports_failure(raw: Seq<u8>) -> bool {
    has_status_line(raw) && !(status_code(raw) matches Some(code) && is_success(code))
}

/// The body of a reply: none where the reply reports a failure, and none
/// where the reply as a whole is not valid UTF-8. A reply without a status
/// line reports nothing and has a body.
pub open spec fn body_of_response(raw: Seq<u8>) -> Option<Seq<char>> {
    if valid_utf8(raw) && !reports_failure(raw) {
        Some(decode_utf8(body_bytes(raw)))
    } else {
        None
    }
}

/// A reply whose status line carries a code other than one of success has no
/// body, whatever else it holds.
pub proof fn lemma_failure_has_no_body(raw: Seq<u8>, code: nat)
    requires
        status_code(raw) == Some(code),
        !is_success(code),
    ensures
        body_of_response(raw) is None,
{
}

/// A reply that is valid UTF-8 and whose status line carries a code of
/// success has the body that follows its headers; so has one without a status
/// line.
pub proof fn lemma_success_has_body(raw: Seq<u8>)
    requires
        valid_utf8(raw),
        !has_status_line(raw) || (status_code(raw) matches Some(code) && is_success(code)),
    ensures
        body_of_response(raw) == Some(decode_utf8(body_bytes(raw))),
{
}

/// At most one place holds the first space of the first line.
proof fn lemma_first_space_unique(raw: Seq<u8>, i: int, j: int)
    requires
        is_first_space(raw, i),
        is_first_space(raw, j),
    ensures
        i == j,
{
}

/// In valid UTF-8 a character starts after every ASCII byte.
proof fn lemma_boundary_after_ascii(bytes: Seq<u8>, i: int)
    requires
        valid_utf8(bytes),
        0 <= i < bytes.len(),
        bytes[i] <= 0x7f,
    ensures
        is_char_boundary(bytes, i + 1),
    decreases bytes.len(),
{
    reveal_with_fuel(is_char_boundary, 2);
    let first = length_of_first_scalar(bytes);
    assert(valid_first_scalar(bytes));
    if i < first {
        assert(i == 0);
    } else {
        let rest = pop_first_scalar(bytes);
        assert(rest[i - first] == bytes[i]);
        lemma_boundary_after_ascii(rest, i - first);
    }
}

/// The place where the body starts: four bytes after the first end of the
/// headers.
fn body_start(response: &Vec<u8>) -> (r: Option<usize>)
    ensures
        match r {
            Some(start) => start >= 4 && is_first_header_end(response@, start - 4),
            None => forall|i: int| !is_header_end(response@, i),
        },
{
    let n = response.len();
    let mut i: usize = 0;
    while i < n && n - i >= 4
        invariant
            n == response.len(),
            i <= n,
            forall|j: int| 0 <= j < i ==> !is_header_end(response@, j),
        decreases n - i,
    {
        if response[i] == 13 && response[i + 1] == 10 && response[i + 2] == 13 && response[i + 3]
            == 10 {
            return Some(i + 4);
        }
        i += 1;
    }
    None
}

/// Whether a reply begins with a status line.
fn begins_with_status_line(response: &Vec<u8>) -> (r: bool)
    ensures
        r == has_status_line(response@),
{
    response.len() >= 5 && response[0] == 72 && response[1] == 84 && response[2] == 84
        && response[3] == 80 && response[4] == 47
}

/// The place of the first space of the first line.
fn first_space(response: &Vec<u8>) -> (r: Option<usize>)
    ensures
        match r {
            Some(i) => is_first_space(response@, i as int),
            None => forall|i: int| !is_first_space(response@, i),
        },
{
    let mut i: usize = 0;
    while i < response.len()
        invariant
            i <= response.len(),
            forall|j: int| 0 <= j < i ==> response@[j] != 32 && response@[j] != 10,
        decreases response.len() - i,
    {
        if response[i] == 32 {
            return Some(i);
        }
        if response[i] == 10 {
            assert forall|k: int| !is_first_space(response@, k) by {
                if is_first_space(response@, k) {
                    if k < i {
                        assert(response@[k] != 32);
                    } else {
                        assert(response@[i as int] != 10);
                    }
                }
            }
            return None;
        }
        i += 1;
    }
    assert forall|k: int| !is_first_space(response@, k) by {
        if is_first_space(response@, k) {
            assert(response@[k] != 32);
        }
    }
    None
}

/// Whether a byte is a decimal digit.
fn digit(byte: u8) -> (r: bool)
    ensures
        r == is_digit(byte),
{
    48 <= byte && byte <= 57
}

/// The status code of a reply, read from its status line: the three digits
/// after the first space. `None` where the reply has no status line, or its
/// status line has no such digits.
pub fn response_status(response: &Vec<u8>) -> (r: Option<u16>)
    ensures
        match r {
            Some(code) => status_code(response@) == Some(code as nat),
            None => status_code(response@) is None,
        },
{
    if !begins_with_status_line(response) {
        return None;
    }
    let space = match first_space(response) {
        Some(space) => space,
        None => {
            return None;
        },
    };
    proof {
        let chosen = choose|i: int| is_first_space(response@, i);
        lemma_first_space_unique(response@, space as int, chosen);
    }
    let n = response.len();
    if n - space < 4 {
        return None;
    }
    let at = space + 1;
    if !(digit(response[at]) && digit(response[at + 1]) && digit(response[at + 2])) {
        return None;
    }
    if n - at > 3 && digit(response[at + 3]) {
        return None;
    }
    let hundreds: u16 = (response[at] - 48) as u16;
    let tens: u16 = (response[at + 1] - 48) as u16;
    let ones: u16 = (response[at + 2] - 48) as u16;
    Some(hundreds * 100 + tens * 10 + ones)
}

/// Whether a reply reports that the fetch did not succeed.
fn refused(response: &Vec<u8>) -> (r: bool)
    ensures
        r == reports_failure(response@),
{
    if !begins_with_status_line(response) {
        return false;
    }
    match response_status(response) {
        Some(code) => !(200 <= code && code <= 299),
        None => true,
    }
}

/// The body of a reply: what follows the headers, or the whole reply where it
/// has no headers. A reply has no body where its status line carries anything
/// but a code of success, from 200 to 299, and where it is not valid UTF-8.
pub fn response_body(response: Vec<u8>) -> (r: Option<String>)
    ensures
        match r {
            Some(body) => body_of_response(response@) == Some(body@),
            None => body_of_response(response@) is None,
        },
{
    let ghost raw = response@;
    if refused(&response) {
        return None;
    }
    let start = body_start(&response);
    let text = match string_from_utf8(response) {
        Some(text) => text,
        None => {
            return None;
        },
    };
    proof {
        decode_utf8_encode_utf8(raw);
    }
    match start {
        Some(start) => {
            proof {
                let k = choose|k: int| is_first_header_end(raw, k);
                if k < start - 4 {
                    assert(!is_header_end(raw, k));
                } else if start - 4 < k {
                    assert(!is_header_end(raw, start - 4));
                }
                lemma_boundary_after_ascii(raw, start - 1);
            }
            let (_, body) = text.as_str().split_at(start);
            proof {
                encode_utf8_decode_utf8(body@);
            }
            Some(body.to_string())
        },
        None => {
            proof {
                assert(!exists|i: int| is_first_header_end(raw, i));
            }
            Some(text)
        },
    }
}

} // verus!
