use cred::api::EngramMemory;
use cred::backend_engram::{Fetch, FetchStep, HttpMethod};
use cred::error::CredError;
use cred::removal::ReplaceStep;
use cred::secret::Secret;
use cred::store::{CredStep, CredStore};
use cred::value::SecretValue;

fn vault() -> CredStore {
    CredStore::with_key([7; 32], Some("http://e".to_string()), Some("tok".to_string()))
        .ok()
        .unwrap()
}

fn entry(id: u64, content: &str) -> EngramMemory {
    EngramMemory {
        id,
        content: content.to_string(),
        category: "credential".to_string(),
        source: None,
        created_at: None,
        importance: None,
    }
}

fn kept(id: Option<u64>, service: &str, key: &str, content: &str) -> Secret {
    Secret {
        service: service.to_string(),
        key: key.to_string(),
        value: SecretValue::Note { content: content.to_string() },
        engram_id: id,
        created_at: None,
    }
}

/// A stand-in for a cipher: each byte is turned over. A body that starts with
/// zero cannot be decrypted.
fn turned(bytes: &[u8]) -> Option<Vec<u8>> {
    match bytes.first() {
        Some(0) => None,
        _ => Some(bytes.iter().map(|b| !b).collect()),
    }
}

/// A stand-in for a parser: text is a note, other bytes cannot be parsed.
fn parsed(bytes: &[u8]) -> Option<SecretValue> {
    String::from_utf8(bytes.to_vec()).ok().map(|content| SecretValue::Note { content })
}

struct Run {
    secrets: Vec<Secret>,
    stored: Vec<String>,
    deleted: Vec<u64>,
}

/// Runs a listing; `new_ids` says what comes of storing each older secret again.
fn run(memories: Vec<EngramMemory>, new_ids: &[Option<u64>]) -> Run {
    let mut stored = Vec::new();
    let mut deleted = Vec::new();
    let all = match Fetch::start().received(memories) {
        FetchStep::Whole(list) => list,
        FetchStep::More(_) => panic!("not all"),
    };
    let mut step = vault().list_all(all).ok().unwrap().advance();
    loop {
        step = match step {
            CredStep::Done(secrets) => return Run { secrets, stored, deleted },
            CredStep::Decrypt(p) => {
                let plaintext = turned(p.ciphertext());
                p.decrypted(plaintext)
            }
            CredStep::Parse(p) => {
                let value = parsed(p.json());
                p.parsed(value)
            }
            CredStep::Migrate(p) => {
                let new_id = new_ids[stored.len()];
                let secret = p.secret();
                stored.push(format!(
                    "{}/{} {}",
                    secret.service,
                    secret.key,
                    secret.value.bare_value().unwrap()
                ));
                let (listing, delete) = p.stored(new_id);
                deleted.extend(delete);
                listing.advance()
            }
        };
    }
}

fn seen(list: &[Secret]) -> Vec<(Option<u64>, String, String)> {
    list.iter()
        .map(|s| {
            (s.engram_id, format!("{}/{}", s.service, s.key), s.value.bare_value().unwrap())
        })
        .collect()
}

fn item(id: u64, path: &str, value: &str) -> (Option<u64>, String, String) {
    (Some(id), path.to_string(), value.to_string())
}

/// The line that keeps a note, encrypted by the stand-in.
fn line(service: &str, key: &str, content: &str) -> String {
    let ciphertext: Vec<u8> = content.bytes().map(|b| !b).collect();
    kept(None, service, key, content).to_engram_content(&ciphertext)
}

#[test]
fn the_vault_needs_the_service() {
    let t = |s: &str| Some(s.to_string());
    assert!(matches!(CredStore::with_key([0; 32], None, t("k")), Err(CredError::EngramUrlNotSet)));
    assert!(matches!(CredStore::with_key([0; 32], t("u"), None), Err(CredError::EngramKeyNotSet)));
    let v = CredStore::with_key([5; 32], t("u"), t("k")).ok().unwrap();
    assert_eq!(v.require_key().unwrap(), &[5; 32]);
}

#[test]
fn requests_of_the_vault() {
    let v = vault();
    let list = v.fetch_all_raw(&Fetch::start());
    assert_eq!(list.method, HttpMethod::Get);
    assert_eq!(list.url, "http://e/list");
    let store = v.store_raw(&kept(None, "s", "k", "n"), &[0xca, 0xfe]).ok().unwrap();
    assert_eq!(store.method, HttpMethod::Post);
    assert_eq!(store.url, "http://e/store");
    assert_eq!(store.body.unwrap().content, "[CRED:v3] s/k = cafe");
    let delete = v.delete_by_id(18446744073709551615);
    assert_eq!(delete.method, HttpMethod::Delete);
    assert_eq!(delete.url, "http://e/memory/18446744073709551615");
    assert_eq!(delete.authorization, "Bearer tok");
}

#[test]
fn an_empty_vault() {
    let r = run(vec![], &[]);
    assert!(r.secrets.is_empty() && r.stored.is_empty() && r.deleted.is_empty());
}

#[test]
fn secrets_are_decrypted_parsed_and_sorted() {
    let r = run(
        vec![
            entry(1, &line("b", "k", "second")),
            entry(2, "groceries"),
            entry(3, &line("a", "k", "first")),
        ],
        &[],
    );
    assert_eq!(seen(&r.secrets), vec![item(3, "a/k", "first"), item(1, "b/k", "second")]);
    assert!(r.stored.is_empty() && r.deleted.is_empty());
}

#[test]
fn what_cannot_be_read_is_passed_over() {
    let r = run(
        vec![
            entry(1, "[CRED:v3] s/undecryptable = 00"),
            entry(2, "[CRED:v3] s/unparsable = 01"),
            entry(3, "[CRED:v3] s/unhex = xyz"),
            entry(4, "[CRED:v2] s/untext = 01"),
            entry(5, "[CRED] s/unbase64 = ?"),
            entry(6, "[CRED:v2] s/undecryptable = 00"),
            entry(7, &line("s", "fine", "yes")),
        ],
        &[],
    );
    assert_eq!(seen(&r.secrets), vec![item(7, "s/fine", "yes")]);
    assert!(r.stored.is_empty() && r.deleted.is_empty());
}

#[test]
fn older_secrets_are_stored_again() {
    let second = line("s", "two", "zwei").replace("[CRED:v3]", "[CRED:v2]");
    let r = run(
        vec![
            entry(1, "[CRED] s/one = ZWlucw=="),
            entry(2, &second),
            entry(3, "[CRED] s/three = ZHJlaQ=="),
        ],
        &[Some(10), Some(11), None],
    );
    assert_eq!(r.stored, vec!["s/one eins", "s/two zwei", "s/three drei"]);
    assert_eq!(r.deleted, vec![1, 2]);
    assert_eq!(
        seen(&r.secrets),
        vec![item(10, "s/one", "eins"), item(3, "s/three", "drei"), item(11, "s/two", "zwei")]
    );
    assert_eq!(r.secrets[0].get_note(), "migrated from v1");
    assert_eq!(r.secrets[1].get_note(), "migrated from v1");
    assert_eq!(r.secrets[2].get_note(), "migrated from v2");
}

trait Noted {
    fn get_note(&self) -> String;
}

impl Noted for Secret {
    fn get_note(&self) -> String {
        self.value.get_field("notes").unwrap()
    }
}

#[test]
fn a_secret_stored_again_is_current_from_then_on() {
    let first = run(vec![entry(1, "[CRED] s/k = dmFs")], &[Some(2)]);
    let again = run(vec![entry(2, &line("s", "k", "val"))], &[]);
    assert_eq!(seen(&first.secrets), seen(&again.secrets));
    assert!(again.stored.is_empty() && again.deleted.is_empty());
}

#[test]
fn a_stored_secret_is_found_again() {
    let r = run(
        vec![
            entry(4, &line("s", "k", "old")),
            entry(9, &line("s", "k", "new")),
            entry(6, &line("s", "k", "between")),
            entry(12, &line("t", "k", "elsewhere")),
        ],
        &[],
    );
    let found = CredStore::get(Ok(r.secrets), "s", "k").unwrap();
    assert_eq!(found.engram_id, Some(9));
    assert_eq!(found.value.bare_value(), Some("new".to_string()));
    assert_eq!(found.created_at, None);
}

#[test]
fn storing_deletes_all_known_entries_of_the_path() {
    let all = || {
        Ok(vec![
            kept(Some(1), "s", "k", ""),
            kept(None, "s", "k", ""),
            kept(Some(2), "s", "x", ""),
            kept(Some(3), "s", "k", ""),
        ])
    };
    assert_eq!(CredStore::store(all(), &kept(None, "s", "k", "new")).unwrap(), vec![1, 3]);
    assert!(CredStore::store(all(), &kept(None, "q", "k", "new")).unwrap().is_empty());
}

#[test]
fn a_store_fails_where_the_listing_did() {
    let e = CredStore::store(Err(CredError::EngramUnreachable), &kept(None, "s", "k", "new"));
    assert!(matches!(e, Err(CredError::EngramUnreachable)));
}

#[test]
fn a_store_leaves_one_secret_at_the_path() {
    let all = vec![
        kept(Some(1), "s", "k", "old"),
        kept(Some(2), "t", "k", "other"),
        kept(Some(3), "s", "k", "older"),
    ];
    let ids = CredStore::store(Ok(all.clone()), &kept(None, "s", "k", "new")).unwrap();
    let mut after: Vec<Secret> =
        all.into_iter().filter(|s| !ids.contains(&s.engram_id.unwrap())).collect();
    after.push(kept(Some(9), "s", "k", "new"));
    assert_eq!(seen(&after), vec![item(2, "t/k", "other"), item(9, "s/k", "new")]);
}

#[test]
fn secrets_without_an_id_are_the_oldest() {
    let all = Ok(vec![kept(Some(1), "s", "k", "one"), kept(None, "s", "k", "none")]);
    assert_eq!(CredStore::get(all, "s", "k").unwrap().engram_id, Some(1));
    let tie = Ok(vec![kept(Some(0), "s", "k", "zero"), kept(None, "s", "k", "none")]);
    assert_eq!(CredStore::get(tie, "s", "k").unwrap().engram_id, None);
}

#[test]
fn looking_for_what_is_not_there() {
    let e = CredStore::get(Ok(vec![kept(Some(1), "s", "k", "")]), "s", "q").unwrap_err();
    assert_eq!(e.message(), "secret not found: s/q");
    let e = CredStore::get(Err(CredError::NoEncryptionKey), "s", "k").unwrap_err();
    assert!(matches!(e, CredError::NoEncryptionKey));
}

#[test]
fn deleting_takes_the_newest_entry() {
    let all = || {
        Ok(vec![
            kept(Some(3), "s", "k", ""),
            kept(Some(5), "s", "x", ""),
            kept(None, "s", "k", ""),
            kept(Some(8), "s", "k", ""),
        ])
    };
    assert_eq!(CredStore::delete(all(), "s", "k").unwrap(), 8);
    assert_eq!(CredStore::delete(all(), "s", "x").unwrap(), 5);
    let e = CredStore::delete(all(), "s", "q").unwrap_err();
    assert_eq!(e.message(), "secret not found: s/q");
    let e = CredStore::delete(Err(CredError::EngramUnreachable), "s", "k").unwrap_err();
    assert_eq!(e.message(), "secret not found: s/k");
    let e = CredStore::delete(Ok(vec![kept(None, "s", "k", "")]), "s", "k").unwrap_err();
    assert!(matches!(e, CredError::NoEngramId));
    let tie = Ok(vec![kept(Some(0), "s", "k", ""), kept(None, "s", "k", "")]);
    assert!(matches!(CredStore::delete(tie, "s", "k"), Err(CredError::NoEngramId)));
}

#[test]
fn a_delete_leaves_all_but_the_newest() {
    let all = vec![
        kept(Some(3), "s", "k", "a"),
        kept(Some(8), "s", "k", "b"),
        kept(Some(4), "t", "k", "c"),
    ];
    let id = CredStore::delete(Ok(all.clone()), "s", "k").unwrap();
    let rest: Vec<Secret> = all.into_iter().filter(|s| s.engram_id != Some(id)).collect();
    assert_eq!(seen(&rest), vec![item(3, "s/k", "a"), item(4, "t/k", "c")]);
    let id = CredStore::delete(Ok(rest.clone()), "s", "k").unwrap();
    let rest: Vec<Secret> = rest.into_iter().filter(|s| s.engram_id != Some(id)).collect();
    assert!(CredStore::get(Ok(rest), "s", "k").is_err());
}

#[test]
fn a_secret_is_stored_after_all_it_replaces_are_deleted() {
    let replaced = vec![1, 3];
    let next = |deleted: Vec<Result<(), CredError>>, stored: Option<Result<u64, CredError>>| {
        CredStore::store_next(&replaced, &deleted, &stored)
    };
    assert!(matches!(next(vec![], None), ReplaceStep::Delete(1)));
    assert!(matches!(next(vec![Ok(())], None), ReplaceStep::Delete(3)));
    assert!(matches!(next(vec![Ok(()), Ok(())], None), ReplaceStep::Store(())));
    assert!(matches!(next(vec![Ok(()), Ok(())], Some(Ok(9))), ReplaceStep::Done(Ok(9))));
    let refused = next(vec![Ok(()), Ok(())], Some(Err(CredError::NoEncryptionKey)));
    assert!(matches!(refused, ReplaceStep::Done(Err(CredError::NoEncryptionKey))));
    let failed = next(vec![Ok(()), Err(CredError::EngramUnreachable)], Some(Ok(9)));
    assert!(matches!(failed, ReplaceStep::Done(Err(CredError::EngramUnreachable))));
}

#[test]
fn listed_secrets_have_ids() {
    let r = run(vec![entry(1, "[CRED] s/k = dmFs"), entry(2, &line("s", "z", "v"))], &[None]);
    assert!(r.secrets.iter().all(|s| s.engram_id.is_some()));
}

#[test]
fn a_failed_migration_loses_nothing() {
    let memories = || vec![entry(1, "[CRED] s/k = dmFs"), entry(2, &line("s", "z", "last"))];
    let moved = run(memories(), &[Some(9)]);
    let stayed = run(memories(), &[None]);
    assert_eq!(seen(&moved.secrets), vec![item(9, "s/k", "val"), item(2, "s/z", "last")]);
    assert_eq!(seen(&stayed.secrets), vec![item(1, "s/k", "val"), item(2, "s/z", "last")]);
    assert_eq!(moved.deleted, vec![1]);
    assert!(stayed.deleted.is_empty());
}
