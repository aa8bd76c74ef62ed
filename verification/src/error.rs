//! What can go wrong, and how it is said.
use crate::outside::HexRefusal;
use crate::text::{decimal, decimal_text};
use vstd::prelude::*;

verus! {

/// What the Engram service is asked to do.
#[derive(Debug, Clone, Copy, PartialEq, Eq, Structural)]
pub enum EngramOp {
    List,
    Store,
    Delete,
}

/// Why an operation failed.
#[derive(Debug)]
pub enum CredError {
    /// The address of the Engram service is not configured.
    EngramUrlNotSet,
    /// The key of the Engram service is not configured.
    EngramKeyNotSet,
    /// There is no key to encrypt and decrypt with.
    NoEncryptionKey,
    /// The Engram service did not answer.
    EngramUnreachable,
    /// The Engram service answered with an error status.
    EngramRefused { op: EngramOp, status: String, body: String },
    /// There is no secret at the path.
    SecretNotFound { service: String, key: String },
    /// The secret is not known to the Engram service.
    NoEngramId,
    /// No way to reach the YubiKey worked; the cause is that of the last one.
    YubikeyFailed { context: String, cause: String },
    /// The YubiKey's answer is not hexadecimal.
    InvalidHexResponse(HexRefusal),
    /// The YubiKey's answer has the wrong number of bytes.
    ResponseLength(usize),
    /// A secret for the YubiKey has the wrong number of bytes.
    HmacSecretLength,
    /// The file with the challenge cannot be read.
    ChallengeUnreadable,
    /// The operating system has no random bytes for a new challenge.
    NoRandomBytes,
    /// A failure outside this library, in its own words.
    Outside(String),
}

/// An error as text.
pub enum ErrorModel {
    EngramUrlNotSet,
    EngramKeyNotSet,
    NoEncryptionKey,
    EngramUnreachable,
    EngramRefused { op: EngramOp, status: Seq<char>, body: Seq<char> },
    SecretNotFound { service: Seq<char>, key: Seq<char> },
    NoEngramId,
    YubikeyFailed { context: Seq<char>, cause: Seq<char> },
    InvalidHexResponse(HexRefusal),
    ResponseLength(int),
    HmacSecretLength,
    ChallengeUnreadable,
    NoRandomBytes,
    Outside(Seq<char>),
}

impl View for CredError {
    type V = ErrorModel;

    open spec fn view(&self) -> ErrorModel {
        match *self {
            CredError::EngramUrlNotSet => ErrorModel::EngramUrlNotSet,
            CredError::EngramKeyNotSet => ErrorModel::EngramKeyNotSet,
            CredError::NoEncryptionKey => ErrorModel::NoEncryptionKey,
            CredError::EngramUnreachable => ErrorModel::EngramUnreachable,
            CredError::EngramRefused { op, status, body } => ErrorModel::EngramRefused {
                op,
                status: status@,
                body: body@,
            },
            CredError::SecretNotFound { service, key } => ErrorModel::SecretNotFound {
                service: service@,
                key: key@,
            },
            CredError::NoEngramId => ErrorModel::NoEngramId,
            CredError::YubikeyFailed { context, cause } => ErrorModel::YubikeyFailed {
                context: context@,
                cause: cause@,
            },
            CredError::InvalidHexResponse(cause) => ErrorModel::InvalidHexResponse(cause),
            CredError::ResponseLength(n) => ErrorModel::ResponseLength(n as int),
            CredError::HmacSecretLength => ErrorModel::HmacSecretLength,
            CredError::ChallengeUnreadable => ErrorModel::ChallengeUnreadable,
            CredError::NoRandomBytes => ErrorModel::NoRandomBytes,
            CredError::Outside(text) => ErrorModel::Outside(text@),
        }
    }
}

impl Clone for CredError {
    fn clone(&self) -> (r: CredError)
        ensures
            r@ == self@,
    {
        match self {
            CredError::EngramUrlNotSet => CredError::EngramUrlNotSet,
            CredError::EngramKeyNotSet => CredError::EngramKeyNotSet,
            CredError::NoEncryptionKey => CredError::NoEncryptionKey,
            CredError::EngramUnreachable => CredError::EngramUnreachable,
            CredError::EngramRefused { op, status, body } => CredError::EngramRefused {
                op: *op,
                status: status.clone(),
                body: body.clone(),
            },
            CredError::SecretNotFound { service, key } => CredError::SecretNotFound {
                service: service.clone(),
                key: key.clone(),
            },
            CredError::NoEngramId => CredError::NoEngramId,
            CredError::YubikeyFailed { context, cause } => CredError::YubikeyFailed {
                context: context.clone(),
                cause: cause.clone(),
            },
            CredError::InvalidHexResponse(why) => CredError::InvalidHexResponse(*why),
            CredError::ResponseLength(n) => CredError::ResponseLength(*n),
            CredError::HmacSecretLength => CredError::HmacSecretLength,
            CredError::ChallengeUnreadable => CredError::ChallengeUnreadable,
            CredError::NoRandomBytes => CredError::NoRandomBytes,
            CredError::Outside(text) => CredError::Outside(text.clone()),
        }
    }
}

/// What the Engram service was asked to do, in a word.
pub open spec fn op_word(op: EngramOp) -> Seq<char> {
    match op {
        EngramOp::List => "list"@,
        EngramOp::Store => "store"@,
        EngramOp::Delete => "delete"@,
    }
}

impl ErrorModel {
    /// How the error is said.
    pub open spec fn message(self) -> Seq<char> {
        match self {
            ErrorModel::EngramUrlNotSet => "ENGRAM_URL not set"@,
            ErrorModel::EngramKeyNotSet => "ENGRAM_API_KEY not set"@,
            ErrorModel::NoEncryptionKey => "no encryption key -- is the YubiKey plugged in?"@,
            ErrorModel::EngramUnreachable => "failed to reach Engram"@,
            ErrorModel::EngramRefused { op, status, body } => "Engram "@ + op_word(op)
                + " failed ("@ + status + "): "@ + body,
            ErrorModel::SecretNotFound { service, key } => "secret not found: "@ + service + "/"@
                + key,
            ErrorModel::NoEngramId => "secret has no engram_id"@,
            ErrorModel::YubikeyFailed { context, .. } => context,
            ErrorModel::InvalidHexResponse(_) => "invalid hex response from YubiKey"@,
            ErrorModel::ResponseLength(n) => "unexpected HMAC response length: "@ + decimal(
                n as nat,
            ) + " (expected 20)"@,
            ErrorModel::HmacSecretLength => "HMAC secret must be exactly 20 bytes"@,
            ErrorModel::ChallengeUnreadable => "failed to read challenge file"@,
            ErrorModel::NoRandomBytes => "failed to get random bytes for a challenge"@,
            ErrorModel::Outside(text) => text,
        }
    }
}

impl CredError {
    /// How the error is said.
    pub fn message(&self) -> (r: String)
        ensures
            r@ == self@.message(),
    {
        match self {
            CredError::EngramUrlNotSet => "ENGRAM_URL not set".to_owned(),
            CredError::EngramKeyNotSet => "ENGRAM_API_KEY not set".to_owned(),
            CredError::NoEncryptionKey => {
                "no encryption key -- is the YubiKey plugged in?".to_owned()
            },
            CredError::EngramUnreachable => "failed to reach Engram".to_owned(),
            CredError::EngramRefused { op, status, body } => {
                let mut r = "Engram ".to_owned();
                match op {
                    EngramOp::List => r.append("list"),
                    EngramOp::Store => r.append("store"),
                    EngramOp::Delete => r.append("delete"),
                }
                r.append(" failed (");
                r.append(status.as_str());
                r.append("): ");
                r.append(body.as_str());
                r
            },
            CredError::SecretNotFound { service, key } => {
                let mut r = "secret not found: ".to_owned();
                r.append(service.as_str());
                r.append("/");
                r.append(key.as_str());
                r
            },
            CredError::NoEngramId => "secret has no engram_id".to_owned(),
            CredError::YubikeyFailed { context, .. } => context.clone(),
            CredError::InvalidHexResponse(_) => "invalid hex response from YubiKey".to_owned(),
            CredError::ResponseLength(n) => {
                let mut r = "unexpected HMAC response length: ".to_owned();
                r.append(decimal_text(*n as u64).as_str());
                r.append(" (expected 20)");
                r
            },
            CredError::HmacSecretLength => "HMAC secret must be exactly 20 bytes".to_owned(),
            CredError::ChallengeUnreadable => "failed to read challenge file".to_owned(),
            CredError::NoRandomBytes => "failed to get random bytes for a challenge".to_owned(),
            CredError::Outside(text) => text.clone(),
        }
    }
}

} // verus!
