//! The admission policy: which requests are let through to the backend.
//!
//! A request passes, in this order, the allow-list of method and path, the
//! decoding of its credential, the check of the signature over the address
//! and the content identifier, and the check of the account's balance. The
//! first check that fails decides, and no later one is made.

use crate::codec::{credential_of, extract_parts, parts_view, DecodeError, Parts, PartsView};
use crate::polkadot::{
    hex_bytes, hex_decode, signed_message, signed_text, sr25519_valid, ss58_decode, verify,
    ConnectionError, PUBLIC_KEY_LEN, SIGNATURE_LEN,
};
use crate::query::{args_of, extract_args, Args};
use crate::reason::{CredentialFault, DenyReason};
use vstd::prelude::*;
use vstd::string::*;
use vstd::utf8::encode_utf8;

verus! {

/// The method of a request, as far as the policy tells methods apart.
#[derive(Debug, Clone, Copy, PartialEq, Eq, Structural)]
pub enum Method {
    Options,
    Post,
    Other,
}

/// What the policy reads of a request.
#[derive(Debug, Clone, PartialEq, Eq)]
pub struct RequestHead {
    pub method: Method,
    /// The path of the request target, without the query.
    pub path: String,
    /// The query of the request target, without the `?`, if it has one.
    pub query: Option<String>,
    /// The raw value of the authorization header, if the request has one.
    pub authorization: Option<Vec<u8>>,
}

/// A request that has passed every check that needs no key: it names an
/// address, a content identifier and a signature.
#[derive(Debug, Clone, PartialEq, Eq)]
pub struct Candidate {
    pub address: String,
    pub cid: String,
    pub signature: Vec<u8>,
}

/// What a `Candidate` stands for.
pub ghost struct CandidateView {
    pub address: Seq<char>,
    pub cid: Seq<char>,
    pub signature: Seq<u8>,
}

impl View for Candidate {
    type V = CandidateView;

    open spec fn view(&self) -> CandidateView {
        CandidateView { address: self.address@, cid: self.cid@, signature: self.signature@ }
    }
}

/// What the checks that need no key make of a request.
#[derive(Debug, Clone, PartialEq, Eq)]
pub enum Screening {
    /// A CORS preflight, answered without further checks.
    Preflight,
    Denied(DenyReason),
    Candidate(Candidate),
}

/// What a `Screening` stands for.
pub ghost enum ScreeningView {
    Preflight,
    Denied(DenyReason),
    Candidate(CandidateView),
}

impl View for Screening {
    type V = ScreeningView;

    open spec fn view(&self) -> ScreeningView {
        match self {
            Screening::Preflight => ScreeningView::Preflight,
            Screening::Denied(reason) => ScreeningView::Denied(*reason),
            Screening::Candidate(c) => ScreeningView::Candidate(c@),
        }
    }
}

/// An account that has proved itself by a signature, and whose balance is
/// still to be checked.
#[derive(Debug, Clone, PartialEq, Eq)]
pub struct Claim {
    pub address: String,
    /// The raw public key of the account.
    pub account: Vec<u8>,
}

/// What a `Claim` stands for.
pub ghost struct ClaimView {
    pub address: Seq<char>,
    pub account: Seq<u8>,
}

impl View for Claim {
    type V = ClaimView;

    open spec fn view(&self) -> ClaimView {
        ClaimView { address: self.address@, account: self.account@ }
    }
}

/// What the checks made without the chain make of a request.
#[derive(Debug, Clone, PartialEq, Eq)]
pub enum Admission {
    /// A CORS preflight, answered without further checks.
    Preflight,
    Denied(DenyReason),
    /// Every local check has passed; the balance of the account decides.
    Pending(Claim),
}

/// What an `Admission` stands for.
pub ghost enum AdmissionView {
    Preflight,
    Denied(DenyReason),
    Pending(ClaimView),
}

impl View for Admission {
    type V = AdmissionView;

    open spec fn view(&self) -> AdmissionView {
        match self {
            Admission::Preflight => AdmissionView::Preflight,
            Admission::Denied(reason) => AdmissionView::Denied(*reason),
            Admission::Pending(claim) => AdmissionView::Pending(claim@),
        }
    }
}

/// The outcome of the admission pipeline.
#[derive(Debug, Clone, PartialEq, Eq)]
pub enum Verdict {
    Approved,
    Denied(DenyReason),
}

/// Whether `path` is one of the pin operations.
pub open spec fn is_pin_path(path: Seq<char>) -> bool {
    ||| path == "/api/v0/pin/add"@
    ||| path == "/api/v0/pin/ls"@
    ||| path == "/api/v0/pin/rm"@
    ||| path == "/api/v0/pin/update"@
    ||| path == "/api/v0/pin/verify"@
}

/// Whether method and path are on the allow-list.
pub open spec fn request_allowed(method: Method, path: Seq<char>) -> bool {
    method == Method::Post && is_pin_path(path)
}

/// The query of a request, as text.
pub open spec fn query_of(req: RequestHead) -> Option<Seq<char>> {
    match req.query {
        Some(q) => Some(q@),
        None => None,
    }
}

/// What the `arg` among `args` and the encoding of the signature decide of
/// a request with the credential `parts`.
pub open spec fn screening_of_argument(parts: PartsView, args: Map<Seq<char>, Seq<char>>) -> ScreeningView {
    if !args.contains_key("arg"@) {
        ScreeningView::Denied(DenyReason::MissingArgument)
    } else {
        match hex_bytes(parts.signature) {
            None => ScreeningView::Denied(DenyReason::BadSignatureEncoding),
            Some(signature) => ScreeningView::Candidate(
                CandidateView { address: parts.address, cid: args["arg"@], signature },
            ),
        }
    }
}

/// What is decided of a request with the query `query` whose authorization
/// header decoded to `decoded`.
pub open spec fn screening_of_credential(
    decoded: Result<Option<PartsView>, DecodeError>,
    query: Option<Seq<char>>,
) -> ScreeningView {
    match decoded {
        Err(e) => ScreeningView::Denied(DenyReason::BadCredentials(CredentialFault::Undecodable(e))),
        Ok(None) => ScreeningView::Denied(DenyReason::BadCredentials(CredentialFault::NotAPair)),
        Ok(Some(parts)) => screening_of_argument(parts, args_of(query)),
    }
}

/// What the checks that need no key decide of a request.
pub open spec fn screening(req: RequestHead) -> ScreeningView {
    if req.method == Method::Options {
        ScreeningView::Preflight
    } else if !request_allowed(req.method, req.path@) {
        ScreeningView::Denied(DenyReason::NotAllowed)
    } else {
        match req.authorization {
            None => ScreeningView::Denied(DenyReason::MissingAuth),
            Some(auth) => screening_of_credential(credential_of(auth@), query_of(req)),
        }
    }
}

/// The bytes that the signature of a candidate must sign.
pub open spec fn signed_bytes(c: CandidateView) -> Seq<u8> {
    encode_utf8(signed_text(c.address, c.cid))
}

/// What becomes of a candidate with the key `key` once its signature has
/// been checked and found `valid` or not.
pub open spec fn judgement(c: CandidateView, key: Seq<u8>, valid: bool) -> AdmissionView {
    if valid {
        AdmissionView::Pending(ClaimView { address: c.address, account: key })
    } else {
        AdmissionView::Denied(DenyReason::SignatureMismatch)
    }
}

/// What the signature decides of a candidate whose address decodes to `key`,
/// or does not decode where `key` is `None`.
pub open spec fn authentication(c: CandidateView, key: Option<Seq<u8>>) -> AdmissionView {
    match key {
        None => AdmissionView::Denied(DenyReason::BadAddress),
        Some(k) => judgement(c, k, sr25519_valid(c.signature, signed_bytes(c), k)),
    }
}

/// What the local checks decide of a request whose address, if the request
/// gets as far as having one, decodes to `key`.
pub open spec fn admission(req: RequestHead, key: Option<Seq<u8>>) -> AdmissionView {
    match screening(req) {
        ScreeningView::Preflight => AdmissionView::Preflight,
        ScreeningView::Denied(reason) => AdmissionView::Denied(reason),
        ScreeningView::Candidate(c) => authentication(c, key),
    }
}

/// A decoded key, where there is one, has the length of a public key.
pub open spec fn is_key(key: Option<Seq<u8>>) -> bool {
    key matches Some(k) ==> k.len() == PUBLIC_KEY_LEN
}

/// What the balance of an account decides: at least `token_min` is needed.
pub open spec fn verdict_of(balance: Result<Option<u128>, ConnectionError>, token_min: u128) -> Verdict {
    match balance {
        Err(e) => Verdict::Denied(DenyReason::RemoteUnavailable(e)),
        Ok(None) => Verdict::Denied(DenyReason::NoBalance),
        Ok(Some(free)) => if free < token_min {
            Verdict::Denied(DenyReason::BalanceTooLow)
        } else {
            Verdict::Approved
        },
    }
}

/// Whether two texts are the same.
fn same_text(a: &str, b: &str) -> (same: bool)
    ensures
        same == (a@ == b@),
{
    let a: String = a.to_owned();
    let b: String = b.to_owned();
    a == b
}

/// Tells whether method and path of a request are on the allow-list: a POST
/// to one of the pin operations.
pub fn is_request_allowed(req: &RequestHead) -> (allowed: bool)
    ensures
        allowed == request_allowed(req.method, req.path@),
{
    match req.method {
        Method::Post => {},
        _ => {
            return false;
        },
    }
    let path = req.path.as_str();
    same_text(path, "/api/v0/pin/add") || same_text(path, "/api/v0/pin/ls") || same_text(
        path,
        "/api/v0/pin/rm",
    ) || same_text(path, "/api/v0/pin/update") || same_text(path, "/api/v0/pin/verify")
}

/// Decides on the `arg` of a request and on the encoding of its signature:
/// a request without `arg` is denied, and so is one whose signature is not
/// hex.
pub fn screen_argument(parts: Parts, args: &Args) -> (res: Screening)
    ensures
        res@ == screening_of_argument(parts@, args@),
{
    let cid = match args.get("arg") {
        Some(value) => value.clone(),
        None => {
            return Screening::Denied(DenyReason::MissingArgument);
        },
    };
    match hex_decode(parts.signature.as_str()) {
        Some(signature) => Screening::Candidate(Candidate { address: parts.address, cid, signature }),
        None => Screening::Denied(DenyReason::BadSignatureEncoding),
    }
}

/// Decides on what the authorization header decoded to: without a
/// credential the request is denied, with one the query is read and the
/// `arg` and the signature encoding decide.
pub fn screen_credential(decoded: Result<Option<Parts>, DecodeError>, query: Option<&str>) -> (res:
    Screening)
    ensures
        res@ == screening_of_credential(
            parts_view(decoded),
            match query {
                Some(q) => Some(q@),
                None => None,
            },
        ),
{
    match decoded {
        Ok(Some(parts)) => {
            let args = extract_args(query);
            screen_argument(parts, &args)
        },
        Ok(None) => Screening::Denied(DenyReason::BadCredentials(CredentialFault::NotAPair)),
        Err(e) => Screening::Denied(DenyReason::BadCredentials(CredentialFault::Undecodable(e))),
    }
}

/// Makes the checks that need no key: preflight, allow-list, authorization
/// header, credential, `arg`, signature encoding.
pub fn screen(req: &RequestHead) -> (res: Screening)
    ensures
        res@ == screening(*req),
{
    match req.method {
        Method::Options => {
            return Screening::Preflight;
        },
        _ => {},
    }
    if !is_request_allowed(req) {
        return Screening::Denied(DenyReason::NotAllowed);
    }
    let auth = match &req.authorization {
        Some(auth) => auth,
        None => {
            return Screening::Denied(DenyReason::MissingAuth);
        },
    };
    screen_credential(
        extract_parts(auth.as_slice()),
        match &req.query {
            Some(q) => Some(q.as_str()),
            None => None,
        },
    )
}

/// Decides on a candidate whose signature has been checked under `key`: a
/// claim where it was found valid, a denial where it was not.
pub fn judge_signature(candidate: Candidate, key: Vec<u8>, valid: bool) -> (res: Admission)
    ensures
        res@ == judgement(candidate@, key@, valid),
{
    if valid {
        Admission::Pending(Claim { address: candidate.address, account: key })
    } else {
        Admission::Denied(DenyReason::SignatureMismatch)
    }
}

/// Checks the signature of a candidate under the key that its address
/// decoded to; `None` says that the address did not decode. A claim comes
/// only of a signature and a key of the lengths that sr25519 has.
pub fn authenticate(candidate: Candidate, key: Option<Vec<u8>>) -> (res: Admission)
    ensures
        res@ == authentication(
            candidate@,
            match key {
                Some(k) => Some(k@),
                None => None,
            },
        ),
        res matches Admission::Pending(claim) ==> claim.account@.len() == PUBLIC_KEY_LEN
            && candidate.signature@.len() == SIGNATURE_LEN,
{
    let key = match key {
        Some(key) => key,
        None => {
            return Admission::Denied(DenyReason::BadAddress);
        },
    };
    let message = signed_message(candidate.address.as_str(), candidate.cid.as_str());
    let valid = verify(candidate.signature.as_slice(), message.as_str().as_bytes(), key.as_slice());
    judge_signature(candidate, key, valid)
}

/// Makes every check that needs no answer from the chain.
///
/// Whether an address decodes is up to the address formats that the
/// running process accepts, so the outcome is stated for the key that the
/// address decoded to, whichever that was.
pub fn admit_locally(req: &RequestHead) -> (res: Admission)
    ensures
        exists|key: Option<Seq<u8>>| is_key(key) && res@ == #[trigger] admission(*req, key),
{
    match screen(req) {
        Screening::Preflight => {
            assert(admission(*req, None) == AdmissionView::Preflight);
            Admission::Preflight
        },
        Screening::Denied(reason) => {
            assert(admission(*req, None) == AdmissionView::Denied(reason));
            Admission::Denied(reason)
        },
        Screening::Candidate(candidate) => {
            let key = ss58_decode(candidate.address.as_str());
            let ghost k: Option<Seq<u8>> = match &key {
                Some(k) => Some(k@),
                None => None,
            };
            let res = authenticate(candidate, key);
            assert(res@ == admission(*req, k));
            res
        },
    }
}

/// Decides on the balance of an account that has proved itself: approved
/// where the account holds at least `token_min`.
pub fn validate_account_requirements(
    balance: Result<Option<u128>, ConnectionError>,
    token_min: u128,
) -> (verdict: Verdict)
    ensures
        verdict == verdict_of(balance, token_min),
{
    match balance {
        Err(e) => Verdict::Denied(DenyReason::RemoteUnavailable(e)),
        Ok(None) => Verdict::Denied(DenyReason::NoBalance),
        Ok(Some(free)) => if free < token_min {
            Verdict::Denied(DenyReason::BalanceTooLow)
        } else {
            Verdict::Approved
        },
    }
}

} // verus!
