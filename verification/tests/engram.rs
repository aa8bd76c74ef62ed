use cred::api::EngramMemory;
use cred::backend::RawSecret;
use cred::backend_engram::{
    check_reply, EngramBackend, Fetch, FetchStep, HttpMethod, RawStep, WholeList,
};
use cred::error::{CredError, EngramOp};
use cred::order::{is_at, sort_by_path, take_newest};

fn service() -> EngramBackend {
    EngramBackend::from_env(Some("http://localhost:4200".to_string()), Some("tok".to_string()))
        .ok()
        .unwrap()
}

fn memory(id: u64, content: &str) -> EngramMemory {
    EngramMemory {
        id,
        content: content.to_string(),
        category: "credential".to_string(),
        source: None,
        created_at: Some(format!("day {}", id)),
        importance: None,
    }
}

fn whole(memories: Vec<EngramMemory>) -> WholeList {
    match Fetch::start().received(memories) {
        FetchStep::Whole(list) => list,
        FetchStep::More(_) => panic!("not all"),
    }
}

fn raw(id: u64, service: &str, key: &str, ciphertext: &str) -> RawSecret {
    RawSecret {
        id,
        service: service.to_string(),
        key: key.to_string(),
        ciphertext: ciphertext.to_string(),
        created_at: None,
    }
}

fn shown(list: &[RawSecret]) -> Vec<(u64, &str, &str, &str)> {
    list.iter()
        .map(|s| (s.id, s.service.as_str(), s.key.as_str(), s.ciphertext.as_str()))
        .collect()
}

/// Runs a listing; `new_ids` says what comes of storing each older line again.
/// Gives the secrets, the lines stored and the memories deleted.
fn listed(
    memories: Vec<EngramMemory>,
    new_ids: &[Option<u64>],
) -> (Vec<RawSecret>, Vec<String>, Vec<u64>) {
    let mut stored = Vec::new();
    let mut deleted = Vec::new();
    let mut step = EngramBackend::list_all(whole(memories)).advance();
    loop {
        match step {
            RawStep::Done(secrets) => return (secrets, stored, deleted),
            RawStep::Migrate(migration) => {
                let new_id = new_ids[stored.len()];
                let (service, key) = migration.path();
                assert!(migration.content().starts_with(&format!("[CRED:v3] {}/{} = ", service, key)));
                let old_id = migration.old_id();
                stored.push(migration.content());
                let (listing, delete) = migration.stored(new_id);
                assert_eq!(delete, new_id.map(|_| old_id));
                deleted.extend(delete);
                step = listing.advance();
            }
        }
    }
}

#[test]
fn the_service_needs_an_address_and_a_key() {
    let t = |s: &str| Some(s.to_string());
    assert!(matches!(EngramBackend::from_env(None, t("k")), Err(CredError::EngramUrlNotSet)));
    assert!(matches!(EngramBackend::from_env(None, None), Err(CredError::EngramUrlNotSet)));
    assert!(matches!(EngramBackend::from_env(t("u"), None), Err(CredError::EngramKeyNotSet)));
    assert!(EngramBackend::from_env(t("u"), t("k")).is_ok());
}

#[test]
fn the_list_request() {
    let r = service().fetch_all_memories(&Fetch::start());
    assert_eq!(r.method, HttpMethod::Get);
    assert_eq!(r.url, "http://localhost:4200/list");
    assert_eq!(r.authorization, "Bearer tok");
    assert_eq!(
        r.query,
        vec![
            ("category".to_string(), "credential".to_string()),
            ("limit".to_string(), "500".to_string()),
        ]
    );
    assert!(r.body.is_none());
}

#[test]
fn the_store_request() {
    let r = service().store_memory("[CRED:v3] a/b = 00");
    assert_eq!(r.method, HttpMethod::Post);
    assert_eq!(r.url, "http://localhost:4200/store");
    assert_eq!(r.authorization, "Bearer tok");
    assert!(r.query.is_empty());
    let body = r.body.unwrap();
    assert_eq!(body.content, "[CRED:v3] a/b = 00");
    assert_eq!(body.category, "credential");
    assert_eq!(body.source, "cred");
    assert_eq!(body.importance, Some(9));
    assert_eq!(body.is_static, Some(true));
}

#[test]
fn the_delete_request() {
    let r = service().delete_memory(1203);
    assert_eq!(r.method, HttpMethod::Delete);
    assert_eq!(r.url, "http://localhost:4200/memory/1203");
    assert_eq!(r.authorization, "Bearer tok");
    assert!(r.query.is_empty());
    assert!(r.body.is_none());
    assert_eq!(service().delete_memory(0).url, "http://localhost:4200/memory/0");
}

#[test]
fn which_answers_are_accepted() {
    for op in [EngramOp::List, EngramOp::Store, EngramOp::Delete] {
        for code in [200u16, 201, 204, 299] {
            assert!(check_reply(op, code, "", "").is_ok());
        }
        for code in [100u16, 199, 300, 401, 500] {
            assert!(check_reply(op, code, "", "").is_err());
        }
    }
    assert!(check_reply(EngramOp::List, 404, "", "").is_err());
    assert!(check_reply(EngramOp::Store, 404, "", "").is_err());
    assert!(check_reply(EngramOp::Delete, 404, "", "").is_ok());
    let e = check_reply(EngramOp::Store, 401, "401 Unauthorized", "bad key").unwrap_err();
    assert_eq!(e.message(), "Engram store failed (401 Unauthorized): bad key");
}

#[test]
fn a_listing_of_nothing() {
    let (secrets, stored, deleted) = listed(vec![], &[]);
    assert!(secrets.is_empty() && stored.is_empty() && deleted.is_empty());
}

#[test]
fn current_lines_are_listed_in_order_and_others_passed_over() {
    let memories = vec![
        memory(5, "[CRED:v3] b/x = 05"),
        memory(6, "a note about lunch"),
        memory(7, "[CRED:v3] a/y = 07"),
        memory(8, "[CRED:v3] broken"),
        memory(9, "[CRED:v9] a/a = 09"),
        memory(10, "[CRED:v3] a/x = 0a"),
    ];
    let (secrets, stored, deleted) = listed(memories, &[]);
    assert_eq!(
        shown(&secrets),
        vec![(10, "a", "x", "0a"), (7, "a", "y", "07"), (5, "b", "x", "05")]
    );
    assert_eq!(secrets[0].created_at, Some("day 10".to_string()));
    assert!(stored.is_empty() && deleted.is_empty());
}

#[test]
fn older_lines_are_stored_again() {
    let memories = vec![
        memory(1, "[CRED] s/one = b25l"),
        memory(2, "[CRED:v3] s/two = 02"),
        memory(3, "[CRED:v2] s/three = 03"),
    ];
    let (secrets, stored, deleted) = listed(memories, &[Some(50), None]);
    assert_eq!(stored, vec!["[CRED:v3] s/one = b25l", "[CRED:v3] s/three = 03"]);
    assert_eq!(deleted, vec![1]);
    assert_eq!(
        shown(&secrets),
        vec![(50, "s", "one", "b25l"), (3, "s", "three", "03"), (2, "s", "two", "02")]
    );
    assert_eq!(secrets[0].created_at, Some("day 1".to_string()));
}

#[test]
fn a_line_stored_again_is_current_from_then_on() {
    let (secrets, stored, _) = listed(vec![memory(1, "[CRED:v2] s/k = 01 = 02")], &[Some(2)]);
    let (again, more, deleted) = listed(vec![memory(2, &stored[0])], &[]);
    assert_eq!(shown(&again), shown(&secrets));
    assert!(more.is_empty() && deleted.is_empty());
}

#[test]
fn entries_of_one_path_keep_their_order() {
    let memories = vec![
        memory(9, "[CRED:v3] s/k = 09"),
        memory(1, "[CRED:v3] r/k = 01"),
        memory(4, "[CRED:v3] s/k = 04"),
    ];
    let (secrets, _, _) = listed(memories, &[]);
    assert_eq!(shown(&secrets), vec![(1, "r", "k", "01"), (9, "s", "k", "09"), (4, "s", "k", "04")]);
}

#[test]
fn storing_replaces_all_entries_of_the_path() {
    let all = || {
        Ok(vec![
            raw(1, "s", "k", "01"),
            raw(2, "s", "other", "02"),
            raw(3, "s", "k", "03"),
            raw(4, "t", "k", "04"),
        ])
    };
    let plan = EngramBackend::store(all(), "s", "k", "ff").unwrap();
    assert_eq!(plan.replaced, vec![1, 3]);
    assert_eq!(plan.content, "[CRED:v3] s/k = ff");
    assert!(EngramBackend::store(all(), "s", "K", "ff").unwrap().replaced.is_empty());
}

#[test]
fn nothing_is_stored_where_the_listing_failed() {
    let e = EngramBackend::store(Err(CredError::EngramUnreachable), "s", "k", "ff").unwrap_err();
    assert!(matches!(e, CredError::EngramUnreachable));
}

#[test]
fn a_store_leaves_only_the_new_entry() {
    let all = vec![raw(1, "s", "k", "a"), raw(2, "t", "k", "b"), raw(3, "s", "k", "c")];
    let plan = EngramBackend::store(Ok(all.clone()), "s", "k", "ff").unwrap();
    let mut after: Vec<RawSecret> =
        all.into_iter().filter(|s| !plan.replaced.contains(&s.id)).collect();
    after.push(raw(9, "s", "k", "ff"));
    assert_eq!(shown(&after), vec![(2, "t", "k", "b"), (9, "s", "k", "ff")]);
}

#[test]
fn a_full_answer_is_not_taken_for_all() {
    let many = |n: u64| -> Vec<EngramMemory> {
        (0..n).map(|id| memory(id, &format!("[CRED:v3] s/k{} = 00", id))).collect()
    };
    let next = match Fetch::start().received(many(500)) {
        FetchStep::More(next) => next,
        FetchStep::Whole(_) => panic!("a full answer"),
    };
    let r = service().fetch_all_memories(&next);
    assert_eq!(r.query[1], ("limit".to_string(), "1000".to_string()));
    let list = match next.received(many(501)) {
        FetchStep::Whole(list) => list,
        FetchStep::More(_) => panic!("an answer with room left"),
    };
    match EngramBackend::list_all(list).advance() {
        RawStep::Done(secrets) => assert_eq!(secrets.len(), 501),
        RawStep::Migrate(_) => panic!("nothing to store again"),
    }
    assert_eq!(whole(many(499)).into_memories().len(), 499);
}

#[test]
fn the_newest_entry_of_a_path_is_found() {
    let all = || {
        Ok(vec![
            raw(3, "s", "k", "old"),
            raw(8, "s", "k", "new"),
            raw(5, "s", "k", "mid"),
            raw(9, "s", "x", "other"),
        ])
    };
    let found = EngramBackend::get(all(), "s", "k").unwrap();
    assert_eq!((found.id, found.ciphertext.as_str()), (8, "new"));
}

#[test]
fn of_equal_ids_the_last_is_found() {
    let all = Ok(vec![raw(3, "s", "k", "first"), raw(3, "s", "k", "last")]);
    assert_eq!(EngramBackend::get(all, "s", "k").unwrap().ciphertext, "last");
}

#[test]
fn a_missing_entry_is_not_found() {
    let all = || Ok(vec![raw(3, "s", "k", "x")]);
    let e = EngramBackend::get(all(), "s", "q").unwrap_err();
    assert_eq!(e.message(), "secret not found: s/q");
    let e = EngramBackend::delete(all(), "q", "k").unwrap_err();
    assert_eq!(e.message(), "secret not found: q/k");
}

#[test]
fn a_deleted_secret_is_gone() {
    let all = vec![raw(3, "s", "k", "old"), raw(5, "s", "x", "other"), raw(8, "s", "k", "new")];
    let ids = EngramBackend::delete(Ok(all.clone()), "s", "k").unwrap();
    assert_eq!(ids, vec![3, 8]);
    let rest: Vec<RawSecret> = all.into_iter().filter(|s| !ids.contains(&s.id)).collect();
    assert_eq!(shown(&rest), vec![(5, "s", "x", "other")]);
    assert!(EngramBackend::get(Ok(rest), "s", "k").is_err());
}

#[test]
fn a_failed_listing_is_said_when_looking_and_not_found_when_deleting() {
    let e = EngramBackend::get(Err(CredError::EngramUnreachable), "s", "k").unwrap_err();
    assert!(matches!(e, CredError::EngramUnreachable));
    let e = EngramBackend::delete(Err(CredError::EngramUnreachable), "s", "k").unwrap_err();
    assert_eq!(e.message(), "secret not found: s/k");
}

#[test]
fn a_stored_line_is_found_again() {
    let plan = EngramBackend::store(Ok(vec![]), "s", "k", "c0ffee").unwrap();
    let memories = vec![
        memory(7, "[CRED:v3] s/k = 00"),
        memory(40, &plan.content),
        memory(41, "[CRED:v3] s/other = 01"),
    ];
    let (secrets, _, _) = listed(memories, &[]);
    let found = EngramBackend::get(Ok(secrets), "s", "k").unwrap();
    assert_eq!((found.id, found.ciphertext.as_str()), (40, "c0ffee"));
}

#[test]
fn lists_are_sorted_by_service_before_key() {
    let list = vec![
        raw(1, "b", "a", ""),
        raw(2, "a", "z", ""),
        raw(3, "ab", "a", ""),
        raw(4, "a", "y", ""),
        raw(5, "", "z", ""),
        raw(6, "B", "a", ""),
        raw(7, "a", "z", ""),
    ];
    let mut expected = list.clone();
    expected.sort_by(|a, b| (&a.service, &a.key).cmp(&(&b.service, &b.key)));
    let sorted = sort_by_path(list);
    assert_eq!(shown(&sorted), shown(&expected));
    let ids: Vec<u64> = sorted.iter().map(|s| s.id).collect();
    assert_eq!(ids, vec![5, 6, 4, 2, 7, 3, 1]);
}

#[test]
fn sorting_does_not_change_what_is_newest() {
    let list = vec![raw(4, "s", "k", "a"), raw(9, "r", "k", "b"), raw(4, "s", "k", "c")];
    let before = take_newest(list.clone(), "s", "k").unwrap();
    let after = take_newest(sort_by_path(list), "s", "k").unwrap();
    assert_eq!(before.ciphertext, "c");
    assert_eq!(after.ciphertext, "c");
    assert!(is_at(&after, "s", "k"));
    assert!(!is_at(&after, "s", "kk"));
    assert!(take_newest(vec![after], "q", "k").is_none());
}
