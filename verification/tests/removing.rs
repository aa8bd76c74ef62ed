use cred::backend_engram::EngramBackend;
use cred::error::{CredError, EngramOp};
use cred::outside::HexRefusal;
use cred::removal::{removal_step, replace_step, RemovalStep, ReplaceStep};

fn failed(text: &str) -> Result<(), CredError> {
    Err(CredError::Outside(text.to_string()))
}

fn asked(step: RemovalStep) -> u64 {
    match step {
        RemovalStep::Delete(id) => id,
        RemovalStep::Done(_) => panic!("over"),
    }
}

fn over(step: RemovalStep) -> Result<(), CredError> {
    match step {
        RemovalStep::Delete(_) => panic!("not over"),
        RemovalStep::Done(result) => result,
    }
}

#[test]
fn memories_are_deleted_in_their_order() {
    let ids = vec![7, 2, 9];
    assert_eq!(asked(removal_step(&ids, &vec![])), 7);
    assert_eq!(asked(removal_step(&ids, &vec![Ok(())])), 2);
    assert_eq!(asked(removal_step(&ids, &vec![Ok(()), Ok(())])), 9);
    assert!(over(removal_step(&ids, &vec![Ok(()), Ok(()), Ok(())])).is_ok());
    assert!(over(removal_step(&vec![], &vec![])).is_ok());
}

#[test]
fn the_first_failure_ends_a_removal() {
    let ids = vec![7, 2, 9];
    let e = over(removal_step(&ids, &vec![failed("first"), failed("second")])).unwrap_err();
    assert_eq!(e.message(), "first");
    let e = over(removal_step(&ids, &vec![Ok(()), failed("second"), Ok(())])).unwrap_err();
    assert_eq!(e.message(), "second");
}

#[test]
fn a_removal_succeeds_only_where_every_deletion_did() {
    let ids = vec![1, 2];
    let outcomes = |a: bool, b: bool| {
        let one = |ok: bool| if ok { Ok(()) } else { failed("no") };
        vec![one(a), one(b)]
    };
    for a in [false, true] {
        for b in [false, true] {
            assert_eq!(over(removal_step(&ids, &outcomes(a, b))).is_ok(), a && b);
        }
    }
}

#[test]
fn a_line_is_stored_after_all_it_replaces_are_deleted() {
    let ids = vec![4];
    assert!(matches!(replace_step(&ids, "line", &vec![], &None), ReplaceStep::Delete(4)));
    match replace_step(&ids, "line", &vec![Ok(())], &None) {
        ReplaceStep::Store(line) => assert_eq!(line, "line"),
        _ => panic!("nothing to store"),
    }
    let step = replace_step(&ids, "line", &vec![failed("no")], &None);
    assert!(matches!(step, ReplaceStep::Done(Err(CredError::Outside(_)))));
    let step = replace_step(&ids, "line", &vec![Ok(())], &Some(Ok(12)));
    assert!(matches!(step, ReplaceStep::Done(Ok(12))));
}

#[test]
fn a_plan_gives_its_line_last() {
    let plan = EngramBackend::store(Ok(vec![]), "s", "k", "ff").unwrap();
    match plan.next(&vec![], &None) {
        ReplaceStep::Store(line) => assert_eq!(line, "[CRED:v3] s/k = ff"),
        _ => panic!("nothing to store"),
    }
    assert!(matches!(plan.next(&vec![], &Some(Ok(5))), ReplaceStep::Done(Ok(5))));
    let refused = Some(Err(CredError::EngramUnreachable));
    let step = plan.next(&vec![], &refused);
    assert!(matches!(step, ReplaceStep::Done(Err(CredError::EngramUnreachable))));
}

#[test]
fn errors_are_copied_as_they_are() {
    let t = |s: &str| s.to_string();
    let errors = vec![
        CredError::EngramUrlNotSet,
        CredError::EngramKeyNotSet,
        CredError::NoEncryptionKey,
        CredError::EngramUnreachable,
        CredError::EngramRefused { op: EngramOp::Store, status: t("500"), body: t("b") },
        CredError::SecretNotFound { service: t("s"), key: t("k") },
        CredError::NoEngramId,
        CredError::YubikeyFailed { context: t("c"), cause: t("d") },
        CredError::InvalidHexResponse(HexRefusal::OddLength),
        CredError::ResponseLength(3),
        CredError::HmacSecretLength,
        CredError::ChallengeUnreadable,
        CredError::NoRandomBytes,
        CredError::Outside(t("x")),
    ];
    for e in &errors {
        assert_eq!(format!("{:?}", e.clone()), format!("{:?}", e));
    }
}
