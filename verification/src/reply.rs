//! The responses that the proxy writes itself: the answer to a CORS
//! preflight and the answer to a denied request.

use crate::reason::{reason_text, DenyReason};
use vstd::prelude::*;
use vstd::string::*;

verus! {

/// Status of the answer to a preflight.
pub const ACCEPTED: u16 = 202;

/// Status of every denial.
pub const BAD_REQUEST: u16 = 400;

/// A response that the proxy writes itself.
#[derive(Debug, Clone, PartialEq, Eq)]
pub struct Reply {
    pub status: u16,
    /// Header names and values, in the order in which they are sent.
    pub headers: Vec<(String, String)>,
    pub body: String,
}

/// What a `Reply` stands for.
pub ghost struct ReplyView {
    pub status: u16,
    pub headers: Seq<(Seq<char>, Seq<char>)>,
    pub body: Seq<char>,
}

impl View for Reply {
    type V = ReplyView;

    open spec fn view(&self) -> ReplyView {
        ReplyView { status: self.status, headers: self.headers.deep_view(), body: self.body@ }
    }
}

/// The header that lets any origin read the response.
pub open spec fn allow_origin() -> (Seq<char>, Seq<char>) {
    ("Access-Control-Allow-Origin"@, "*"@)
}

/// The header that lets a cross-origin request carry an authorization header.
pub open spec fn allow_headers() -> (Seq<char>, Seq<char>) {
    ("Access-Control-Allow-Headers"@, "authorization"@)
}

/// The answer to a preflight: 202, both cross-origin headers, no body.
pub open spec fn accepted_reply() -> ReplyView {
    ReplyView {
        status: ACCEPTED,
        headers: seq![allow_origin(), allow_headers()],
        body: Seq::empty(),
    }
}

/// The answer to a denied request: 400, the allow-origin header, and the
/// given words as the body.
pub open spec fn bad_request_reply(words: Seq<char>) -> ReplyView {
    ReplyView { status: BAD_REQUEST, headers: seq![allow_origin()], body: words }
}

/// Answers a CORS preflight.
pub fn accepted() -> (reply: Reply)
    ensures
        reply@ == accepted_reply(),
{
    let mut headers: Vec<(String, String)> = Vec::new();
    headers.push(("Access-Control-Allow-Origin".to_owned(), "*".to_owned()));
    headers.push(("Access-Control-Allow-Headers".to_owned(), "authorization".to_owned()));
    let reply = Reply { status: ACCEPTED, headers, body: String::new() };
    assert(reply.headers.deep_view() =~= seq![allow_origin(), allow_headers()]);
    reply
}

/// Answers a request that is turned away, with `str` as the body.
pub fn bad_request(str: String) -> (reply: Reply)
    ensures
        reply@ == bad_request_reply(str@),
{
    let mut headers: Vec<(String, String)> = Vec::new();
    headers.push(("Access-Control-Allow-Origin".to_owned(), "*".to_owned()));
    let reply = Reply { status: BAD_REQUEST, headers, body: str };
    assert(reply.headers.deep_view() =~= seq![allow_origin()]);
    reply
}

/// Answers a denied request in the words of its reason.
pub fn denial(reason: &DenyReason, chain_rpc: &str) -> (reply: Reply)
    ensures
        reply@ == bad_request_reply(reason_text(*reason, chain_rpc@)),
{
    bad_request(reason.message(chain_rpc))
}

} // verus!
