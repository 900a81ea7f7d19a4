//! The HTTP reply handed back to the transport, and the rules that decide
//! whether a status and headers can be sent.
use vstd::prelude::*;
use vstd::string::StringSliceAdditionalSpecFns;
use crate::response::{clone_pairs, pairs_view, ResourceResponse};
use crate::token::is_token;

verus! {

/// A reply: status, headers in order, and body.
pub struct HttpReply {
    pub status: u16,
    pub headers: Vec<(String, String)>,
    pub body: Vec<u8>,
}

pub const INTERNAL_ERROR: &'static str = "The server has encountered an internal error.";
pub const CONTENT_TYPE: &'static str = "content-type";

/// The fixed reply for a failure inside the server.
pub open spec fn is_error_reply(r: HttpReply) -> bool {
    &&& r.status == 500
    &&& pairs_view(r.headers@) == seq![(CONTENT_TYPE@, Seq::<char>::empty())]
    &&& r.body@ == INTERNAL_ERROR.spec_bytes()
}

/// A status code that HTTP accepts: three digits.
pub open spec fn status_valid(code: u16) -> bool {
    100 <= code <= 999
}

/// A character allowed in a header value.
pub open spec fn header_value_char(c: char) -> bool {
    (' ' <= c && c != '\x7f') || c == '\t'
}

pub open spec fn header_value_valid(s: Seq<char>) -> bool {
    forall|i: int| 0 <= i < s.len() ==> header_value_char(#[trigger] s[i])
}

/// The longest header name http accepts, in bytes.
pub const MAX_HEADER_NAME_LEN: usize = 65535;

/// A header name that http accepts: a token of bounded length. Token
/// characters are ASCII, so characters and bytes count alike.
pub open spec fn header_name_valid(s: Seq<char>) -> bool {
    is_token(s) && s.len() <= MAX_HEADER_NAME_LEN
}

pub open spec fn header_valid(p: (Seq<char>, Seq<char>)) -> bool {
    header_name_valid(p.0) && header_value_valid(p.1)
}

pub open spec fn headers_valid(h: Seq<(Seq<char>, Seq<char>)>) -> bool {
    forall|i: int| 0 <= i < h.len() ==> #[trigger] header_valid(h[i])
}

/// Relies on hyper's `StatusCode::from_u16`: it accepts 100 to 999.
#[verifier::external_body]
fn status_accepted(code: u16) -> (r: bool)
    ensures
        r == status_valid(code),
{
    hyper::StatusCode::from_u16(code).is_ok()
}

/// Relies on hyper's `HeaderName::from_bytes`: it accepts a name of 1 to
/// 65535 bytes, each a token character.
#[verifier::external_body]
fn header_name_accepted(name: &str) -> (r: bool)
    ensures
        r == header_name_valid(name@),
{
    hyper::header::HeaderName::from_bytes(name.as_bytes()).is_ok()
}

/// Relies on hyper's `HeaderValue::from_str`: it accepts a value whose bytes
/// are all tab or at least space, other than DEL.
#[verifier::external_body]
fn header_value_accepted(value: &str) -> (r: bool)
    ensures
        r == header_value_valid(value@),
{
    hyper::header::HeaderValue::from_str(value).is_ok()
}

pub fn error_response() -> (r: HttpReply)
    ensures
        is_error_reply(r),
{
    let mut headers: Vec<(String, String)> = Vec::new();
    headers.push((String::from_str(CONTENT_TYPE), String::new()));
    assert(pairs_view(headers@) =~= seq![(CONTENT_TYPE@, Seq::<char>::empty())]);
    HttpReply { status: 500, headers, body: INTERNAL_ERROR.as_bytes_vec() }
}

/// Whether every header of the list can be sent.
pub fn check_headers(headers: &Vec<(String, String)>) -> (r: bool)
    ensures
        r == headers_valid(pairs_view(headers@)),
{
    let mut i: usize = 0;
    while i < headers.len()
        invariant
            i <= headers@.len(),
            forall|j: int| 0 <= j < i ==> #[trigger] header_valid(pairs_view(headers@)[j]),
        decreases headers.len() - i,
    {
        assert(pairs_view(headers@)[i as int] == (headers@[i as int].0@, headers@[i as int].1@));
        let name_ok = header_name_accepted(headers[i].0.as_str());
        let value_ok = header_value_accepted(headers[i].1.as_str());
        if !(name_ok && value_ok) {
            proof {
                let h = pairs_view(headers@);
                assert(h.len() == headers@.len());
                assert(!header_valid(h[i as int]));
                if headers_valid(h) {
                    assert(header_valid(h[i as int]));
                }
            }
            return false;
        }
        i = i + 1;
    }
    true
}

/// `r` is the reply with these parts when they can be sent, else the error
/// reply.
pub open spec fn reply_for(status: u16, headers: Seq<(Seq<char>, Seq<char>)>, body: Seq<u8>, r: HttpReply) -> bool {
    if status_valid(status) && headers_valid(headers) {
        r.status == status && pairs_view(r.headers@) == headers && r.body@ == body
    } else {
        is_error_reply(r)
    }
}

/// A reply with the given parts when they can be sent, else the error reply.
pub fn build_reply(status: u16, headers: Vec<(String, String)>, body: Vec<u8>) -> (r: HttpReply)
    ensures
        reply_for(status, pairs_view(headers@), body@, r),
{
    if status_accepted(status) && check_headers(&headers) {
        HttpReply { status, headers, body }
    } else {
        error_response()
    }
}

/// The reply for a static resource, given the file's contents when they
/// could be read.
pub fn resource_reply(resource: &ResourceResponse, contents: Option<Vec<u8>>) -> (r: HttpReply)
    ensures
        match contents {
            Some(b) => reply_for(resource.status_code, resource@.headers, b@, r),
            None => is_error_reply(r),
        },
{
    match contents {
        Some(b) => build_reply(resource.status_code, clone_pairs(&resource.headers), b),
        None => error_response(),
    }
}

} // verus!
