use cred::api::AuthLevel;
use cred::error::{CredError, EngramOp};
use cred::outside::HexRefusal;

#[test]
fn the_owner() {
    let owner = AuthLevel::Owner;
    assert!(owner.is_owner());
    assert!(!owner.is_agent());
    assert_eq!(owner.agent_id(), None);
    assert_eq!(owner.display_name(), "owner");
}

#[test]
fn an_agent() {
    let agent = AuthLevel::Agent("ci".to_string());
    assert!(!agent.is_owner());
    assert!(agent.is_agent());
    assert_eq!(agent.agent_id(), Some("ci"));
    assert_eq!(agent.display_name(), "agent:ci");
}

#[test]
fn display_names_tell_callers_apart() {
    let callers = vec![
        AuthLevel::Owner,
        AuthLevel::Agent("".to_string()),
        AuthLevel::Agent("owner".to_string()),
        AuthLevel::Agent("agent:owner".to_string()),
    ];
    for (i, a) in callers.iter().enumerate() {
        for (j, b) in callers.iter().enumerate() {
            assert_eq!(a.display_name() == b.display_name(), i == j);
        }
    }
}

#[test]
fn how_errors_are_said() {
    let t = |s: &str| s.to_string();
    assert_eq!(CredError::EngramUrlNotSet.message(), "ENGRAM_URL not set");
    assert_eq!(CredError::EngramKeyNotSet.message(), "ENGRAM_API_KEY not set");
    assert_eq!(
        CredError::NoEncryptionKey.message(),
        "no encryption key -- is the YubiKey plugged in?"
    );
    assert_eq!(CredError::EngramUnreachable.message(), "failed to reach Engram");
    let refused = |op: EngramOp| CredError::EngramRefused {
        op,
        status: t("500 Internal Server Error"),
        body: t("boom"),
    };
    assert_eq!(
        refused(EngramOp::List).message(),
        "Engram list failed (500 Internal Server Error): boom"
    );
    assert_eq!(
        refused(EngramOp::Store).message(),
        "Engram store failed (500 Internal Server Error): boom"
    );
    assert_eq!(
        refused(EngramOp::Delete).message(),
        "Engram delete failed (500 Internal Server Error): boom"
    );
    let missing = CredError::SecretNotFound { service: t("github"), key: t("token") };
    assert_eq!(missing.message(), "secret not found: github/token");
    assert_eq!(CredError::NoEngramId.message(), "secret has no engram_id");
    let yubikey = CredError::YubikeyFailed { context: t("what"), cause: t("why") };
    assert_eq!(yubikey.message(), "what");
    assert_eq!(
        CredError::InvalidHexResponse(HexRefusal::OddLength).message(),
        "invalid hex response from YubiKey"
    );
    assert_eq!(
        CredError::ResponseLength(19).message(),
        "unexpected HMAC response length: 19 (expected 20)"
    );
    assert_eq!(CredError::HmacSecretLength.message(), "HMAC secret must be exactly 20 bytes");
    assert_eq!(CredError::ChallengeUnreadable.message(), "failed to read challenge file");
    assert_eq!(
        CredError::NoRandomBytes.message(),
        "failed to get random bytes for a challenge"
    );
    assert_eq!(CredError::Outside(t("disk full")).message(), "disk full");
}
