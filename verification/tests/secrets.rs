use cred::outside::Timestamp;
use cred::secret::{Decoding, Opening, OpenedSecret, SealedKind, SealedSecret, Secret};
use cred::value::SecretValue;

fn note_secret(service: &str, key: &str) -> Secret {
    let at = Timestamp { seconds: 1_700_000_000, nanos: 5 };
    let value = SecretValue::Note { content: "n".to_string() };
    Secret::new_at(service.to_string(), key.to_string(), value, at)
}

fn sealed(content: &str, id: u64) -> SealedSecret {
    match Secret::from_engram_content(content, id, true) {
        Some(Decoding::Sealed(s)) => s,
        _ => panic!("not an encrypted line"),
    }
}

fn complete(content: &str, id: u64) -> Secret {
    match Secret::from_engram_content(content, id, false) {
        Some(Decoding::Complete(s)) => s,
        _ => panic!("not a line that is read completely"),
    }
}

fn unread(content: &str) -> bool {
    Secret::from_engram_content(content, 1, true).is_none()
}

fn check_migrated(secret: &Secret, value: &str, note: &str) {
    match &secret.value {
        SecretValue::ApiKey { key, url, notes } => {
            assert_eq!(key, value);
            assert_eq!(url, &None);
            assert_eq!(notes, &Some(note.to_string()));
        }
        _ => panic!("not an API key"),
    }
}

#[test]
fn a_new_secret_has_no_id_yet() {
    let s = note_secret("svc", "key");
    assert_eq!(s.service, "svc");
    assert_eq!(s.key, "key");
    assert_eq!(s.engram_id, None);
    assert_eq!(s.created_at, Some(Timestamp { seconds: 1_700_000_000, nanos: 5 }));
    assert_eq!(s.value.bare_value(), Some("n".to_string()));
}

#[test]
fn a_new_secret_is_made_now() {
    let value = SecretValue::Note { content: "n".to_string() };
    let before = chrono::Utc::now().timestamp();
    let s = Secret::new("svc".to_string(), "key".to_string(), value);
    let after = chrono::Utc::now().timestamp();
    let at = s.created_at.unwrap();
    assert!(before <= at.seconds && at.seconds <= after);
    assert!(at.nanos < 1_000_000_000);
    assert_eq!(s.engram_id, None);
}

#[test]
fn a_secret_is_written_in_hexadecimal() {
    let s = note_secret("github", "token");
    assert_eq!(s.to_engram_content(&[0x00, 0xab, 0xff]), "[CRED:v3] github/token = 00abff");
    assert_eq!(s.to_engram_content(&[]), "[CRED:v3] github/token = ");
}

#[test]
fn a_written_secret_is_read_back() {
    let s = note_secret("github", "a/b");
    let ciphertext: Vec<u8> = (0..=255).collect();
    let line = s.to_engram_content(&ciphertext);
    let body = sealed(&line, 7);
    assert_eq!(body.kind, SealedKind::Serialized);
    assert_eq!((body.service.as_str(), body.key.as_str()), ("github", "a/b"));
    assert_eq!(body.ciphertext, ciphertext);
    assert_eq!(body.engram_id, 7);
    let opened = match body.open(Some(b"{}".to_vec())) {
        Some(Opening::Serialized(o)) => o,
        _ => panic!("no serialized value"),
    };
    assert_eq!(opened.json, b"{}".to_vec());
    let back = opened.with_value(Some(s.value.clone())).unwrap();
    assert_eq!((back.service.as_str(), back.key.as_str()), ("github", "a/b"));
    assert_eq!(back.value.bare_value(), Some("n".to_string()));
    assert_eq!(back.engram_id, Some(7));
    assert_eq!(back.created_at, None);
}

#[test]
fn a_service_with_a_slash_is_read_at_another_path() {
    let line = note_secret("a/b", "c").to_engram_content(&[1]);
    let body = sealed(&line, 7);
    assert_eq!((body.service.as_str(), body.key.as_str()), ("a", "b/c"));
}

#[test]
fn hexadecimal_of_either_case_between_white_space_is_read() {
    assert_eq!(sealed("[CRED:v3] s/k =  0aFF\n", 1).ciphertext, vec![0x0a, 0xff]);
    assert_eq!(sealed("[CRED:v2] s/k = DEADbeef", 1).ciphertext, vec![0xde, 0xad, 0xbe, 0xef]);
    assert_eq!(sealed("[CRED:v3] s/k = ", 1).ciphertext, Vec::<u8>::new());
}

#[test]
fn what_is_not_hexadecimal_is_not_read() {
    assert!(unread("[CRED:v3] s/k = 0"));
    assert!(unread("[CRED:v3] s/k = 0g"));
    assert!(unread("[CRED:v3] s/k = 0a 0b"));
    assert!(unread("[CRED:v2] s/k = éé"));
    assert!(unread("[CRED:v3] sk = 00"));
    assert!(unread("[CRED:v3] s/k=00"));
    assert!(unread("[CRED:v4] s/k = 00"));
    assert!(unread("hello"));
}

#[test]
fn the_oldest_lines_hold_base64() {
    let s = complete("[CRED] github/token = aGVsbG8=", 3);
    assert_eq!((s.service.as_str(), s.key.as_str()), ("github", "token"));
    assert_eq!(s.engram_id, Some(3));
    assert_eq!(s.created_at, None);
    check_migrated(&s, "hello", "migrated from v1");
    check_migrated(&complete("[CRED] s/k = Zm9vYmFy", 3), "foobar", "migrated from v1");
    check_migrated(&complete("[CRED] s/k = Zm9vYg==\n", 3), "foob", "migrated from v1");
    check_migrated(&complete("[CRED] s/k = w6k=", 3), "é", "migrated from v1");
    check_migrated(&complete("[CRED] s/k = ", 3), "", "migrated from v1");
}

#[test]
fn what_is_not_canonical_base64_is_not_read() {
    // Missing padding, unused bits that are set, a stray symbol, white space inside.
    assert!(unread("[CRED] s/k = aGVsbG8"));
    assert!(unread("[CRED] s/k = aGVsbG9="));
    assert!(unread("[CRED] s/k = aGVs-G8="));
    assert!(unread("[CRED] s/k = aGVs bG8="));
    assert!(unread("[CRED] s/k = ===="));
}

#[test]
fn an_old_value_must_be_text() {
    // The bytes ff fe.
    assert!(unread("[CRED] s/k = //4="));
    assert!(sealed("[CRED:v2] s/k = 00", 1).open(Some(vec![0xff, 0xfe])).is_none());
    assert!(Secret::from_raw_value("s", "k", vec![0xc3], "note", 1).is_none());
    let s = Secret::from_raw_value("s", "k", vec![0xc3, 0xa9], "note", 1).unwrap();
    check_migrated(&s, "é", "note");
}

#[test]
fn lines_of_the_second_version_hold_an_encrypted_raw_value() {
    let body = sealed("[CRED:v2] s/k = 0102", 9);
    assert_eq!(body.kind, SealedKind::RawValue);
    assert_eq!(body.ciphertext, vec![1, 2]);
    match body.open(Some(b"top".to_vec())) {
        Some(Opening::Complete(s)) => {
            assert_eq!(s.engram_id, Some(9));
            check_migrated(&s, "top", "migrated from v2");
        }
        _ => panic!("not read completely"),
    }
}

#[test]
fn encrypted_lines_need_a_key() {
    assert!(Secret::from_engram_content("[CRED:v3] s/k = 00", 1, false).is_none());
    assert!(Secret::from_engram_content("[CRED:v2] s/k = 00", 1, false).is_none());
    assert!(Secret::from_engram_content("[CRED] s/k = aGVsbG8=", 1, false).is_some());
}

#[test]
fn what_cannot_be_decrypted_or_parsed_is_no_secret() {
    assert!(sealed("[CRED:v3] s/k = 00", 1).open(None).is_none());
    assert!(sealed("[CRED:v2] s/k = 00", 1).open(None).is_none());
    let opened = OpenedSecret {
        service: "s".to_string(),
        key: "k".to_string(),
        json: vec![],
        engram_id: 1,
    };
    assert!(opened.with_value(None).is_none());
}
