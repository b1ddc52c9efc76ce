//! The closed set of reasons for which a request is denied, and the words in
//! which each is told to the client.

use crate::codec::DecodeError;
use crate::polkadot::ConnectionError;
use vstd::prelude::*;
use vstd::string::*;

verus! {

/// What is wrong with the credential in an authorization header.
#[derive(Debug, Clone, Copy, PartialEq, Eq, Structural)]
pub enum CredentialFault {
    /// The header value could not be decoded.
    Undecodable(DecodeError),
    /// The decoded text does not have exactly two fields.
    NotAPair,
}

/// The step at which forwarding to the backend failed.
#[derive(Debug, Clone, Copy, PartialEq, Eq, Structural)]
pub enum BackendFailure {
    /// No connection to the backend could be set up.
    Connect,
    /// The request could not be sent over the connection.
    Send,
}

/// Why a request is denied.
#[derive(Debug, Clone, PartialEq, Eq)]
pub enum DenyReason {
    /// The method or the path is not one that is let through.
    NotAllowed,
    /// The request has no authorization header.
    MissingAuth,
    /// The authorization header holds no credential.
    BadCredentials(CredentialFault),
    /// The query has no `arg`.
    MissingArgument,
    /// The signature in the credential is not hex.
    BadSignatureEncoding,
    /// The address in the credential is not a checksummed account address.
    BadAddress,
    /// The signature does not verify.
    SignatureMismatch,
    /// The balance of the account could not be had from the chain.
    RemoteUnavailable(ConnectionError),
    /// The account has no balance on the chain.
    NoBalance,
    /// The account holds less than the minimum.
    BalanceTooLow,
    /// The backend could not be reached.
    BackendUnavailable(BackendFailure),
}

/// The words for a decoding failure.
pub open spec fn decode_error_text(e: DecodeError) -> Seq<char> {
    match e {
        DecodeError::HeaderNotText => "Failed to extract parts: header value is not text"@,
        DecodeError::Base64 => "Failed to extract parts: token is not base64"@,
        DecodeError::Utf8 => "Failed to extract parts: credential is not UTF-8"@,
    }
}

/// The words in which a denial is told to the client. `chain_rpc` is the
/// chain endpoint in use, which is named where it could not be reached.
pub open spec fn reason_text(reason: DenyReason, chain_rpc: Seq<char>) -> Seq<char> {
    match reason {
        DenyReason::NotAllowed => "Incorrect api call"@,
        DenyReason::MissingAuth => "Missing required authorization header"@,
        DenyReason::BadCredentials(CredentialFault::Undecodable(e)) => decode_error_text(e),
        DenyReason::BadCredentials(CredentialFault::NotAPair) => "Failed to parse extracted parts"@,
        DenyReason::MissingArgument => "Failed to extract CID"@,
        DenyReason::BadSignatureEncoding => "Failed to decode signature"@,
        DenyReason::BadAddress => "Failed to parse address"@,
        DenyReason::SignatureMismatch => "Incorrect signature"@,
        DenyReason::RemoteUnavailable(ConnectionError::Unreachable) => "Failed to connect to remote rpc "@
            + chain_rpc,
        DenyReason::RemoteUnavailable(ConnectionError::Query(words)) => words@,
        DenyReason::RemoteUnavailable(ConnectionError::Undecodable) => "Failed to decode balance"@,
        DenyReason::NoBalance => "No balance"@,
        DenyReason::BalanceTooLow => "Balance too low"@,
        DenyReason::BackendUnavailable(BackendFailure::Connect) => "Failed to connect to proxy"@,
        DenyReason::BackendUnavailable(BackendFailure::Send) => "Failed to send request to proxy"@,
    }
}

impl DenyReason {
    /// The words in which this denial is told to the client.
    pub fn message(&self, chain_rpc: &str) -> (words: String)
        ensures
            words@ == reason_text(*self, chain_rpc@),
    {
        match self {
            DenyReason::NotAllowed => "Incorrect api call".to_owned(),
            DenyReason::MissingAuth => "Missing required authorization header".to_owned(),
            DenyReason::BadCredentials(CredentialFault::Undecodable(e)) => match e {
                DecodeError::HeaderNotText => "Failed to extract parts: header value is not text".to_owned(),
                DecodeError::Base64 => "Failed to extract parts: token is not base64".to_owned(),
                DecodeError::Utf8 => "Failed to extract parts: credential is not UTF-8".to_owned(),
            },
            DenyReason::BadCredentials(CredentialFault::NotAPair) => "Failed to parse extracted parts".to_owned(),
            DenyReason::MissingArgument => "Failed to extract CID".to_owned(),
            DenyReason::BadSignatureEncoding => "Failed to decode signature".to_owned(),
            DenyReason::BadAddress => "Failed to parse address".to_owned(),
            DenyReason::SignatureMismatch => "Incorrect signature".to_owned(),
            DenyReason::RemoteUnavailable(ConnectionError::Unreachable) => {
                let mut words: String = "Failed to connect to remote rpc ".to_owned();
                words.append(chain_rpc);
                words
            },
            DenyReason::RemoteUnavailable(ConnectionError::Query(words)) => words.clone(),
            DenyReason::RemoteUnavailable(ConnectionError::Undecodable) => "Failed to decode balance".to_owned(),
            DenyReason::NoBalance => "No balance".to_owned(),
            DenyReason::BalanceTooLow => "Balance too low".to_owned(),
            DenyReason::BackendUnavailable(BackendFailure::Connect) => "Failed to connect to proxy".to_owned(),
            DenyReason::BackendUnavailable(BackendFailure::Send) => "Failed to send request to proxy".to_owned(),
        }
    }
}

} // verus!
