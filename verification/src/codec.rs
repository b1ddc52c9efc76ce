//! The credential codec: from the raw value of an authorization header to
//! an (address, signature) pair.
//!
//! The value carries `base64(address ":" signature)`, optionally behind a
//! `Bearer` marker. Either field may start with `0x`, which is dropped.

use crate::text::{chars_of, remove_all, trim, trimmed, without};
use base64::Engine;
use vstd::prelude::*;
use vstd::string::*;
use vstd::utf8::{decode_utf8, valid_utf8};

verus! {

/// The two fields of a credential, as text. The signature is still in hex.
#[derive(Debug, Clone, PartialEq, Eq)]
pub struct Parts {
    pub address: String,
    pub signature: String,
}

/// What a `Parts` stands for.
pub ghost struct PartsView {
    pub address: Seq<char>,
    pub signature: Seq<char>,
}

impl View for Parts {
    type V = PartsView;

    open spec fn view(&self) -> PartsView {
        PartsView { address: self.address@, signature: self.signature@ }
    }
}

/// The step at which decoding a header value failed.
#[derive(Debug, Clone, Copy, PartialEq, Eq, Structural)]
pub enum DecodeError {
    /// The header value holds a byte that is not text.
    HeaderNotText,
    /// The token is not base64.
    Base64,
    /// The decoded token is not UTF-8.
    Utf8,
}

/// Whether `b` may stand in a header value that reads as text: a visible
/// ASCII character, a space or a tab.
pub open spec fn is_visible_ascii(b: u8) -> bool {
    (32 <= b && b < 127) || b == 9
}

/// Whether a header value reads as text.
pub open spec fn is_header_text(value: Seq<u8>) -> bool {
    forall|i: int| 0 <= i < value.len() ==> is_visible_ascii(#[trigger] value[i])
}

/// The scheme marker that may precede the token: the bytes of `Bearer`.
pub open spec fn bearer() -> Seq<u8> {
    seq![66u8, 101u8, 97u8, 114u8, 101u8, 114u8]
}

/// The base64 token in a header value: the value without any `Bearer`
/// marker and without surrounding blanks.
pub open spec fn token_of(value: Seq<u8>) -> Seq<u8> {
    trimmed(without(value, bearer()))
}

/// What the standard base64 alphabet with padding decodes `input` to, or
/// `None` where `input` is not such an encoding.
pub uninterp spec fn base64_decoded(input: Seq<u8>) -> Option<Seq<u8>>;

/// `text` cut at every `sep`. There is always at least one field; two
/// separators in a row enclose an empty field.
pub open spec fn fields(text: Seq<char>, sep: char) -> Seq<Seq<char>>
    decreases text.len(),
{
    if text.len() == 0 {
        seq![Seq::<char>::empty()]
    } else {
        let init = fields(text.drop_last(), sep);
        if text.last() == sep {
            init.push(Seq::<char>::empty())
        } else {
            init.drop_last().push(init.last().push(text.last()))
        }
    }
}

/// `s` without any leading run of `0x`.
pub open spec fn strip_0x(s: Seq<char>) -> Seq<char>
    decreases s.len(),
{
    if s.len() >= 2 && s[0] == '0' && s[1] == 'x' {
        strip_0x(s.skip(2))
    } else {
        s
    }
}

/// The credential that the decoded text holds: present where the text has
/// exactly two fields around one `:`.
pub open spec fn credential_in(text: Seq<char>) -> Option<PartsView> {
    let f = fields(text, ':');
    if f.len() == 2 {
        Some(PartsView { address: strip_0x(f[0]), signature: strip_0x(f[1]) })
    } else {
        None
    }
}

/// The credential that the decoded token holds.
pub open spec fn credential_in_payload(payload: Seq<u8>) -> Result<Option<PartsView>, DecodeError> {
    if valid_utf8(payload) {
        Ok(credential_in(decode_utf8(payload)))
    } else {
        Err(DecodeError::Utf8)
    }
}

/// The credential that a header value holds, or the step at which decoding
/// it fails.
pub open spec fn credential_of(value: Seq<u8>) -> Result<Option<PartsView>, DecodeError> {
    if !is_header_text(value) {
        Err(DecodeError::HeaderNotText)
    } else {
        match base64_decoded(token_of(value)) {
            None => Err(DecodeError::Base64),
            Some(payload) => credential_in_payload(payload),
        }
    }
}

/// What the outcome of decoding stands for.
pub open spec fn parts_view(res: Result<Option<Parts>, DecodeError>) -> Result<
    Option<PartsView>,
    DecodeError,
> {
    match res {
        Ok(Some(parts)) => Ok(Some(parts@)),
        Ok(None) => Ok(None),
        Err(e) => Err(e),
    }
}

/// Calls `http::HeaderValue::from_bytes` and then `HeaderValue::to_str`.
/// Together they accept a value exactly when every byte is visible ASCII,
/// a space or a tab; `to_str` then hands the same bytes back as text, so
/// only the verdict is returned.
#[verifier::external_body]
fn header_is_text(value: &[u8]) -> (ok: bool)
    ensures
        ok == is_header_text(value@),
{
    match http::HeaderValue::from_bytes(value) {
        Ok(v) => v.to_str().is_ok(),
        Err(_) => false,
    }
}

/// Calls `base64::Engine::decode` on `base64::engine::general_purpose::STANDARD`.
/// What it decodes `input` to is named by `base64_decoded`.
#[verifier::external_body]
fn base64_decode(input: &[u8]) -> (res: Option<Vec<u8>>)
    ensures
        base64_decoded(input@) == match res {
            Some(bytes) => Some(bytes@),
            None => None,
        },
{
    base64::engine::general_purpose::STANDARD.decode(input).ok()
}

/// Calls `std::str::from_utf8`: the text that `bytes` encode, where they
/// are valid UTF-8.
#[verifier::external_body]
fn utf8_text(bytes: &[u8]) -> (res: Option<&str>)
    ensures
        res is Some <==> valid_utf8(bytes@),
        res matches Some(text) ==> text@ == decode_utf8(bytes@),
{
    std::str::from_utf8(bytes).ok()
}

/// A text without the separator is one field.
pub proof fn lemma_fields_single(text: Seq<char>, sep: char)
    requires
        !text.contains(sep),
    ensures
        fields(text, sep) == seq![text],
    decreases text.len(),
{
    if text.len() == 0 {
        assert(text =~= Seq::<char>::empty());
    } else {
        assert(text.last() != sep) by {
            assert(text[text.len() - 1] == text.last());
        }
        assert(!text.drop_last().contains(sep)) by {
            if text.drop_last().contains(sep) {
                let i = choose|i: int| 0 <= i < text.drop_last().len() && text.drop_last()[i] == sep;
                assert(text[i] == sep);
            }
        }
        lemma_fields_single(text.drop_last(), sep);
        assert(seq![text.drop_last()].drop_last().push(text.drop_last().push(text.last()))
            =~= seq![text]) by {
            assert(text.drop_last().push(text.last()) =~= text);
        }
    }
}

/// Cutting distributes over a separator: the fields of `a`, then those of `b`.
pub proof fn lemma_fields_join(a: Seq<char>, b: Seq<char>, sep: char)
    ensures
        fields(a + seq![sep] + b, sep) == fields(a, sep) + fields(b, sep),
        fields(b, sep).len() >= 1,
    decreases b.len(),
{
    let whole = a + seq![sep] + b;
    if b.len() == 0 {
        assert(whole.drop_last() =~= a);
        assert(whole.last() == sep);
        assert(fields(a, sep).push(Seq::<char>::empty()) =~= fields(a, sep) + fields(b, sep));
    } else {
        let b0 = b.drop_last();
        lemma_fields_join(a, b0, sep);
        assert(whole.drop_last() =~= a + seq![sep] + b0);
        assert(whole.last() == b.last());
        let fa = fields(a, sep);
        let fb0 = fields(b0, sep);
        if b.last() == sep {
            assert((fa + fb0).push(Seq::<char>::empty()) =~= fa + fb0.push(Seq::<char>::empty()));
        } else {
            assert((fa + fb0).last() == fb0.last());
            assert((fa + fb0).drop_last() =~= fa + fb0.drop_last());
            assert((fa + fb0.drop_last()).push(fb0.last().push(b.last())) =~= fa
                + fb0.drop_last().push(fb0.last().push(b.last())));
        }
    }
}

/// Strips every leading `0x` from `hex`.
pub fn normalize_hex(hex: &str) -> (res: &str)
    ensures
        res@ == strip_0x(hex@),
{
    let chars = chars_of(hex);
    let n = chars.len();
    let mut i: usize = 0;
    assert(hex@.skip(0) =~= hex@);
    while n - i >= 2 && chars[i] == '0' && chars[i + 1] == 'x'
        invariant
            i <= n,
            n == chars.len(),
            chars@ == hex@,
            strip_0x(hex@) == strip_0x(hex@.skip(i as int)),
        decreases n - i,
    {
        assert(hex@.skip(i as int).skip(2) =~= hex@.skip(i + 2));
        i += 2;
    }
    assert(hex@.skip(i as int) =~= hex@.subrange(i as int, n as int));
    hex.substring_char(i, n)
}

/// The token of a header value: the value without any `Bearer` marker and
/// without surrounding blanks.
pub fn bearer_token(value: &[u8]) -> (token: Vec<u8>)
    ensures
        token@ == token_of(value@),
{
    let marker: Vec<u8> = vec![66u8, 101u8, 97u8, 114u8, 101u8, 114u8];
    assert(marker@ =~= bearer());
    let bare = remove_all(value, marker.as_slice());
    trim(bare.as_slice())
}

/// Reads a credential out of decoded text: two fields around a single `:`,
/// each without its `0x` prefix. Any other number of fields gives `None`.
pub fn parse_credential(text: &str) -> (res: Option<Parts>)
    ensures
        credential_in(text@) == match res {
            Some(parts) => Some(parts@),
            None => None,
        },
{
    let chars = chars_of(text);
    let n = chars.len();
    let mut i: usize = 0;
    while i < n && chars[i] != ':'
        invariant
            i <= n,
            n == chars.len(),
            forall|k: int| 0 <= k < i ==> chars@[k] != ':',
        decreases n - i,
    {
        i += 1;
    }
    let ghost head = text@.subrange(0, i as int);
    if i == n {
        proof {
            assert(head =~= text@);
            lemma_fields_single(text@, ':');
        }
        return None;
    }
    let mut j: usize = i + 1;
    while j < n && chars[j] != ':'
        invariant
            i < j <= n,
            n == chars.len(),
            forall|k: int| i < k < j ==> chars@[k] != ':',
        decreases n - j,
    {
        j += 1;
    }
    let ghost tail = text@.subrange(i + 1, n as int);
    proof {
        assert(text@ =~= head + seq![':'] + tail);
        lemma_fields_join(head, tail, ':');
        lemma_fields_single(head, ':');
    }
    if j < n {
        proof {
            let mid = text@.subrange(i + 1, j as int);
            let last = text@.subrange(j + 1, n as int);
            assert(tail =~= mid + seq![':'] + last);
            lemma_fields_join(mid, last, ':');
            lemma_fields_join(mid, Seq::<char>::empty(), ':');
        }
        return None;
    }
    proof {
        lemma_fields_single(tail, ':');
        assert(fields(text@, ':') =~= seq![head, tail]);
    }
    let address = normalize_hex(text.substring_char(0, i)).to_owned();
    let signature = normalize_hex(text.substring_char(i + 1, n)).to_owned();
    Some(Parts { address, signature })
}

/// Reads a credential out of a decoded token: the bytes as UTF-8 text, then
/// the two fields of that text.
pub fn parse_payload(payload: &[u8]) -> (res: Result<Option<Parts>, DecodeError>)
    ensures
        credential_in_payload(payload@) == parts_view(res),
{
    match utf8_text(payload) {
        Some(text) => Ok(parse_credential(text)),
        None => Err(DecodeError::Utf8),
    }
}

/// Decodes the raw value of an authorization header.
///
/// `Ok(Some(..))` where the value holds a credential, `Ok(None)` where the
/// decoded text does not have exactly two fields, and an error where the
/// value is not text, its token not base64, or the decoded token not UTF-8.
pub fn extract_parts(auth: &[u8]) -> (res: Result<Option<Parts>, DecodeError>)
    ensures
        credential_of(auth@) == parts_view(res),
{
    if !header_is_text(auth) {
        return Err(DecodeError::HeaderNotText);
    }
    let token = bearer_token(auth);
    match base64_decode(token.as_slice()) {
        None => Err(DecodeError::Base64),
        Some(payload) => parse_payload(payload.as_slice()),
    }
}

} // verus!
