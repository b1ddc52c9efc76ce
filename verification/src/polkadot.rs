//! Chain accounts: decoding an address and a signature, checking a detached
//! sr25519 signature, and reading what a balance query reported.

use sp_core::crypto::Ss58Codec;
use sp_core::sr25519;
use sp_core::Pair;
use vstd::prelude::*;
use vstd::string::*;

verus! {

/// The length of an sr25519 public key, in bytes.
pub const PUBLIC_KEY_LEN: usize = 32;

/// The length of an sr25519 signature, in bytes.
pub const SIGNATURE_LEN: usize = 64;

/// Whether `signature` is a valid sr25519 signature of `message` under the
/// public key `pubkey`, in the signing context that chain accounts use.
pub uninterp spec fn sr25519_valid(signature: Seq<u8>, message: Seq<u8>, pubkey: Seq<u8>) -> bool;

/// The value of a hex digit, upper or lower case.
pub open spec fn hex_value(c: char) -> Option<int> {
    let v = c as int;
    if 48 <= v <= 57 {
        Some(v - 48)
    } else if 97 <= v <= 102 {
        Some(v - 87)
    } else if 65 <= v <= 70 {
        Some(v - 55)
    } else {
        None
    }
}

/// Whether `text` is an even number of hex digits.
pub open spec fn is_hex(text: Seq<char>) -> bool {
    &&& text.len() % 2 == 0
    &&& forall|i: int| 0 <= i < text.len() ==> hex_value(#[trigger] text[i]) is Some
}

/// The bytes that `text` spells in hex, two digits to a byte, or `None`
/// where `text` is not hex.
pub open spec fn hex_bytes(text: Seq<char>) -> Option<Seq<u8>> {
    if is_hex(text) {
        Some(
            Seq::new(
                text.len() / 2,
                |i: int| (16 * hex_value(text[2 * i])->0 + hex_value(text[2 * i + 1])->0) as u8,
            ),
        )
    } else {
        None
    }
}

/// The text that a client signs for `address` and the content identifier
/// `cid`: `<Bytes>address/cid</Bytes>`.
pub open spec fn signed_text(address: Seq<char>, cid: Seq<char>) -> Seq<char> {
    "<Bytes>"@ + address + "/"@ + cid + "</Bytes>"@
}

/// Verifies a detached signature with `sp_core::sr25519::Pair::verify`.
///
/// The answer is named by `sr25519_valid`. A signature that is not 64 bytes
/// long or a key that is not 32 bytes long cannot be handed to `sp_core`
/// and is answered with `false`.
#[verifier::external_body]
pub fn verify(signature: &[u8], message: &[u8], pubkey: &[u8]) -> (valid: bool)
    ensures
        valid == sr25519_valid(signature@, message@, pubkey@),
        signature@.len() != SIGNATURE_LEN ==> !valid,
        pubkey@.len() != PUBLIC_KEY_LEN ==> !valid,
{
    match (sr25519::Signature::try_from(signature), sr25519::Public::try_from(pubkey)) {
        (Ok(sig), Ok(key)) => sr25519::Pair::verify(&sig, message, &key),
        _ => false,
    }
}

/// Calls `hex::decode`: the bytes that an even number of hex digits spell,
/// `None` for any other text.
#[verifier::external_body]
pub(crate) fn hex_decode(text: &str) -> (res: Option<Vec<u8>>)
    ensures
        hex_bytes(text@) == match res {
            Some(bytes) => Some(bytes@),
            None => None,
        },
{
    hex::decode(text).ok()
}

/// Calls `Ss58Codec::from_ss58check` of `sp_core::sr25519::Public`: the raw
/// public key of a checksummed address, `None` where `sp_core` rejects the
/// address. Which address formats it accepts is a setting of the running
/// process, so nothing is said of when the key is there; one that is there
/// is 32 bytes long.
#[verifier::external_body]
pub(crate) fn ss58_decode(address: &str) -> (key: Option<Vec<u8>>)
    ensures
        key matches Some(k) ==> k@.len() == PUBLIC_KEY_LEN,
{
    match sr25519::Public::from_ss58check(address) {
        Ok(public) => Some(public.0.to_vec()),
        Err(_) => None,
    }
}

/// Builds the message that the client signed.
pub fn signed_message(address: &str, cid: &str) -> (message: String)
    ensures
        message@ == signed_text(address@, cid@),
{
    let mut message: String = "<Bytes>".to_owned();
    message.append(address);
    message.append("/");
    message.append(cid);
    message.append("</Bytes>");
    message
}

/// What the query for an account's entry in chain storage came back with.
#[derive(Debug, Clone, PartialEq, Eq)]
pub enum AccountLookup {
    /// The chain endpoint could not be reached.
    Unreachable,
    /// The query failed; the provider's own words.
    Failed(String),
    /// The account has no entry in storage.
    Missing,
    /// The account has an entry. Its free balance is there where the entry
    /// holds one that reads as an integer.
    Entry(Option<u128>),
}

/// Why the free balance of an account could not be had.
#[derive(Debug, Clone, PartialEq, Eq)]
pub enum ConnectionError {
    /// The chain endpoint could not be reached.
    Unreachable,
    /// The query failed; the provider's own words.
    Query(String),
    /// The account's entry holds no free balance that reads as an integer.
    Undecodable,
}

/// The free balance that a lookup stands for.
pub open spec fn balance_of(lookup: AccountLookup) -> Result<Option<u128>, ConnectionError> {
    match lookup {
        AccountLookup::Unreachable => Err(ConnectionError::Unreachable),
        AccountLookup::Failed(words) => Err(ConnectionError::Query(words)),
        AccountLookup::Missing => Ok(None),
        AccountLookup::Entry(Some(free)) => Ok(Some(free)),
        AccountLookup::Entry(None) => Err(ConnectionError::Undecodable),
    }
}

/// The free balance of an account, from what the query for its entry came
/// back with: `None` for an account without an entry, the balance of one
/// with an entry, and an error where the chain could not be asked or its
/// answer not read.
pub fn balance(lookup: AccountLookup) -> (res: Result<Option<u128>, ConnectionError>)
    ensures
        res == balance_of(lookup),
{
    match lookup {
        AccountLookup::Unreachable => Err(ConnectionError::Unreachable),
        AccountLookup::Failed(words) => Err(ConnectionError::Query(words)),
        AccountLookup::Missing => Ok(None),
        AccountLookup::Entry(Some(free)) => Ok(Some(free)),
        AccountLookup::Entry(None) => Err(ConnectionError::Undecodable),
    }
}

} // verus!
