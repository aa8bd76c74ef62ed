use cred::error::CredError;
use cred::outside::HexRefusal;
use cred::yubikey::{
    challenge_response, config_dir, delete_slot, device_info, get_or_create_challenge,
    is_available, parse_response, plan_challenge, program_hmac_secret, ChallengeFile,
    ChallengePlan, Platform, YkCommand, YkOutcome, YkReport, YkStep, YkTask, YkTool,
};

fn wrote(stdout: &[u8]) -> YkOutcome {
    YkOutcome::Exited { success: true, stdout: stdout.to_vec(), stderr: vec![] }
}

fn complained(stderr: &[u8]) -> YkOutcome {
    YkOutcome::Exited { success: false, stdout: b"ignored".to_vec(), stderr: stderr.to_vec() }
}

fn command<T>(step: YkStep<T>) -> (String, Vec<String>) {
    match step {
        YkStep::Run(YkCommand { program, args }) => (program, args),
        YkStep::Done(_) => panic!("over"),
    }
}

fn done<T>(step: YkStep<T>) -> T {
    match step {
        YkStep::Run(_) => panic!("not over"),
        YkStep::Done(t) => t,
    }
}

fn words(program: &str, args: &[&str]) -> (String, Vec<String>) {
    (program.to_string(), args.iter().map(|s| s.to_string()).collect())
}

fn failure<T>(step: YkStep<Result<T, CredError>>) -> (String, String) {
    match done(step) {
        Err(CredError::YubikeyFailed { context, cause }) => (context, cause),
        _ => panic!("no failure of the device"),
    }
}

const HMAC: &str = "00112233445566778899aabbccddeeff01020304";

#[test]
fn a_challenge_is_sent_in_hexadecimal() {
    let step = challenge_response(Platform::Other, &[0x0a, 0xff], &vec![]);
    assert_eq!(command(step), words("ykman", &["otp", "calculate", "2", "0aff"]));
}

#[test]
fn a_challenge_goes_to_python_where_ykman_fails() {
    let script = "\nimport sys\nfrom ykman._cli.__main__ import main\nsys.argv = ['ykman', 'otp', 'calculate', '2', '0aff']\nmain()\n";
    for first in [YkOutcome::NotStarted, complained(b"no key")] {
        let step = challenge_response(Platform::Other, &[0x0a, 0xff], &vec![first]);
        assert_eq!(command(step), words("sudo", &["python3", "-c", script]));
    }
}

#[test]
fn the_response_is_read_from_either_program() {
    let output = format!("  {}\n", HMAC.to_uppercase());
    let expected: Vec<u8> = vec![
        0x00, 0x11, 0x22, 0x33, 0x44, 0x55, 0x66, 0x77, 0x88, 0x99, 0xaa, 0xbb, 0xcc, 0xdd, 0xee,
        0xff, 1, 2, 3, 4,
    ];
    let first = vec![wrote(output.as_bytes())];
    assert_eq!(done(challenge_response(Platform::Other, &[1], &first)).unwrap(), expected);
    let second = vec![YkOutcome::NotStarted, wrote(HMAC.as_bytes())];
    assert_eq!(done(challenge_response(Platform::Other, &[1], &second)).unwrap(), expected);
    let windows = vec![wrote(HMAC.as_bytes())];
    assert_eq!(done(challenge_response(Platform::Windows, &[1], &windows)).unwrap(), expected);
}

#[test]
fn a_challenge_fails_where_both_programs_do() {
    let step =
        challenge_response(Platform::Other, &[1], &vec![YkOutcome::NotStarted, complained(b"no")]);
    let (context, cause) = failure(step);
    assert_eq!(context, "failed to get YubiKey challenge-response -- is the YubiKey plugged in?");
    assert_eq!(cause, "python ykman challenge failed: no");
    let step =
        challenge_response(Platform::Other, &[1], &vec![complained(b"no"), YkOutcome::NotStarted]);
    assert_eq!(failure(step).1, "sudo python3 ykman failed");
}

#[test]
fn one_program_answers_challenges_on_windows() {
    let step = challenge_response(Platform::Windows, &[0xbe, 0xef], &vec![]);
    assert_eq!(command(step), words("ykchallenge", &["beef"]));
    let step = challenge_response(Platform::Windows, &[1], &vec![YkOutcome::NotStarted]);
    assert_eq!(
        failure(step),
        (
            "failed to get YubiKey challenge-response -- is ykchallenge.exe on PATH? (~/.local/bin/ykchallenge.exe)".to_string(),
            "ykchallenge.exe not found -- is it in PATH? (~/.local/bin/ykchallenge.exe)".to_string(),
        )
    );
    let step = challenge_response(Platform::Windows, &[1], &vec![complained(b"busy")]);
    assert_eq!(failure(step).1, "ykchallenge failed: busy");
}

#[test]
fn a_response_is_hexadecimal_of_twenty_bytes() {
    assert_eq!(parse_response(HMAC).unwrap().len(), 20);
    assert!(matches!(parse_response("xyz"), Err(CredError::InvalidHexResponse(_))));
    assert!(matches!(parse_response("abc"), Err(CredError::InvalidHexResponse(_))));
    match parse_response("abc") {
        Err(CredError::InvalidHexResponse(why)) => assert_eq!(why, HexRefusal::OddLength),
        _ => panic!("read"),
    }
    match parse_response(" 00é1g0 ") {
        Err(CredError::InvalidHexResponse(why)) => {
            assert_eq!(why, HexRefusal::OddLength);
        }
        _ => panic!("read"),
    }
    match parse_response("00g1zz") {
        Err(CredError::InvalidHexResponse(why)) => {
            assert_eq!(why, HexRefusal::InvalidCharacter { c: 'g', index: 2 });
        }
        _ => panic!("read"),
    }
    match parse_response("0é0") {
        Err(CredError::InvalidHexResponse(why)) => {
            assert_eq!(why, HexRefusal::InvalidCharacter { c: 'Ã', index: 1 });
        }
        _ => panic!("read"),
    }
    assert!(matches!(parse_response(""), Err(CredError::ResponseLength(0))));
    assert!(matches!(parse_response("00ff"), Err(CredError::ResponseLength(2))));
    let long = format!("{}00", HMAC);
    assert!(matches!(parse_response(&long), Err(CredError::ResponseLength(21))));
    let step = challenge_response(Platform::Other, &[1], &vec![wrote(b"not hex")]);
    assert!(matches!(done(step), Err(CredError::InvalidHexResponse(_))));
}

#[test]
fn a_secret_is_programmed() {
    let secret = [0x5au8; 20];
    let hex = "5a5a5a5a5a5a5a5a5a5a5a5a5a5a5a5a5a5a5a5a";
    let step = program_hmac_secret(&secret, &vec![]);
    assert_eq!(command(step), words("ykman", &["otp", "chalresp", "2", "--force", hex]));
    let step = program_hmac_secret(&secret, &vec![complained(b"")]);
    let script = format!(
        "\nimport sys\nfrom ykman._cli.__main__ import main\nsys.argv = ['ykman', 'otp', 'chalresp', '2', '--force', '{}']\nmain()\n",
        hex
    );
    assert_eq!(command(step), words("sudo", &["python3", "-c", &script]));
    assert!(done(program_hmac_secret(&secret, &vec![wrote(b"anything")])).is_ok());
    let both = vec![YkOutcome::NotStarted, complained(b"locked")];
    assert_eq!(
        failure(program_hmac_secret(&secret, &both)),
        (
            "failed to program YubiKey -- is the YubiKey plugged in?".to_string(),
            "python ykman program failed: locked".to_string(),
        )
    );
}

#[test]
fn a_secret_must_have_twenty_bytes() {
    for len in [0usize, 19, 21] {
        let step = program_hmac_secret(&vec![1; len], &vec![]);
        assert!(matches!(done(step), Err(CredError::HmacSecretLength)));
    }
}

#[test]
fn the_slot_is_cleared() {
    assert_eq!(command(delete_slot(&vec![])), words("ykman", &["otp", "delete", "2", "--force"]));
    let script = "\nimport sys\nfrom ykman._cli.__main__ import main\nsys.argv = ['ykman', 'otp', 'delete', '2', '--force']\nmain()\n";
    assert_eq!(
        command(delete_slot(&vec![YkOutcome::NotStarted])),
        words("sudo", &["python3", "-c", script])
    );
    assert!(done(delete_slot(&vec![wrote(b"")])).is_ok());
    assert!(done(delete_slot(&vec![YkOutcome::NotStarted, wrote(b"")])).is_ok());
    assert_eq!(
        failure(delete_slot(&vec![YkOutcome::NotStarted, complained(b"x")])),
        (
            "failed to delete YubiKey slot".to_string(),
            "python ykman delete failed: x".to_string(),
        )
    );
}

#[test]
fn the_device_tells_about_itself() {
    assert_eq!(command(device_info(&vec![])), words("ykman", &["info"]));
    let script = "\nimport sys\nfrom ykman._cli.__main__ import main\nsys.argv = ['ykman', 'info']\nmain()\n";
    assert_eq!(
        command(device_info(&vec![complained(b"")])),
        words("sudo", &["python3", "-c", script])
    );
    assert_eq!(done(device_info(&vec![wrote(b"Serial: 1\n")])).unwrap(), "Serial: 1\n");
    assert_eq!(
        failure(device_info(&vec![YkOutcome::NotStarted, complained(b"gone")])),
        (
            "failed to get YubiKey info -- is the YubiKey plugged in?".to_string(),
            "python ykman info failed: gone".to_string(),
        )
    );
}

#[test]
fn what_is_not_text_is_replaced() {
    let info = done(device_info(&vec![wrote(&[b'a', 0xff, b'b'])])).unwrap();
    assert_eq!(info, "a\u{fffd}b");
    assert_eq!(done(device_info(&vec![wrote("é".as_bytes())])).unwrap(), "é");
    let cause = YkTask::Info.attempt(YkTool::Ykman, &complained(&[0xc3]).report()).unwrap_err();
    assert_eq!(cause, "ykman info failed: \u{fffd}");
}

#[test]
fn why_a_program_failed() {
    let hex = || "00".to_string();
    let tasks = [
        (YkTask::Challenge(hex()), "challenge"),
        (YkTask::Program(hex()), "program"),
        (YkTask::Delete, "delete"),
        (YkTask::Info, "info"),
    ];
    for (task, word) in &tasks {
        let e = task.attempt(YkTool::Ykman, &complained(b"why").report()).unwrap_err();
        assert_eq!(e, format!("ykman {} failed: why", word));
        let e = task.attempt(YkTool::Python, &complained(b"why").report()).unwrap_err();
        assert_eq!(e, format!("python ykman {} failed: why", word));
        let e = task.attempt(YkTool::Ykman, &YkReport::NotStarted).unwrap_err();
        assert_eq!(e, "ykman not found");
        assert_eq!(task.attempt(YkTool::Python, &wrote(b"out").report()), Ok("out".to_string()));
    }
}

#[test]
fn a_device_is_available_where_it_is_present_and_its_slot_answers() {
    let probe = "00".repeat(32);
    let ask = |outcomes: Vec<YkOutcome>| is_available(Platform::Other, &outcomes);
    assert_eq!(command(ask(vec![])), words("ykman", &["info"]));
    assert_eq!(
        command(ask(vec![wrote(b"info")])),
        words("ykman", &["otp", "calculate", "2", &probe])
    );
    assert_eq!(command(ask(vec![YkOutcome::NotStarted])).0, "sudo");
    assert_eq!(
        command(ask(vec![YkOutcome::NotStarted, wrote(b"info")])),
        words("ykman", &["otp", "calculate", "2", &probe])
    );
    assert_eq!(command(ask(vec![wrote(b"info"), complained(b"no slot")])).0, "sudo");
    assert!(done(ask(vec![wrote(b"info"), wrote(HMAC.as_bytes())])));
    assert!(done(ask(vec![wrote(b"info"), YkOutcome::NotStarted, wrote(HMAC.as_bytes())])));
    assert!(done(ask(vec![
        YkOutcome::NotStarted,
        wrote(b"info"),
        complained(b""),
        wrote(HMAC.as_bytes()),
    ])));
    // The slot does not answer, or not with an HMAC.
    assert!(!done(ask(vec![wrote(b"info"), complained(b"empty"), complained(b"empty")])));
    assert!(!done(ask(vec![wrote(b"info"), wrote(b"not programmed")])));
    // The device does not tell about itself.
    assert!(!done(ask(vec![YkOutcome::NotStarted, YkOutcome::NotStarted])));
    assert!(!done(ask(vec![complained(b""), complained(b""), wrote(HMAC.as_bytes())])));
}

#[test]
fn availability_on_windows() {
    let probe = "00".repeat(32);
    let ask = |outcomes: Vec<YkOutcome>| is_available(Platform::Windows, &outcomes);
    assert_eq!(command(ask(vec![])), words("ykman", &["info"]));
    assert_eq!(command(ask(vec![wrote(b"info")])), words("ykchallenge", &[&probe]));
    assert!(done(ask(vec![wrote(b"info"), wrote(HMAC.as_bytes())])));
    assert!(!done(ask(vec![wrote(b"info"), complained(b"")])));
}

#[test]
fn an_operation_that_is_over_stays_over() {
    let more = vec![wrote(b"first"), wrote(b"second"), complained(b"third")];
    assert_eq!(done(device_info(&more)).unwrap(), "first");
    let more = vec![YkOutcome::NotStarted, wrote(b"second"), complained(b"third")];
    assert_eq!(done(device_info(&more)).unwrap(), "second");
}

#[test]
fn a_challenge_in_the_file_is_kept() {
    let data: Vec<u8> = (0..32).collect();
    match get_or_create_challenge(ChallengeFile::Contents(data.clone())) {
        Ok(ChallengePlan::Keep(kept)) => assert_eq!(kept, data),
        _ => panic!("not kept"),
    }
}

#[test]
fn a_new_challenge_is_random() {
    let fresh = |file: ChallengeFile| match get_or_create_challenge(file) {
        Ok(ChallengePlan::Save(data)) => data,
        _ => panic!("not new"),
    };
    let a = fresh(ChallengeFile::Missing);
    let b = fresh(ChallengeFile::Contents(vec![1; 31]));
    let c = fresh(ChallengeFile::Contents(vec![]));
    assert_eq!((a.len(), b.len(), c.len()), (32, 32, 32));
    assert_ne!(a, vec![0; 32]);
    assert_ne!(a, b);
    assert_ne!(b, c);
    match get_or_create_challenge(ChallengeFile::Contents(a.clone())) {
        Ok(ChallengePlan::Keep(kept)) => assert_eq!(kept, a),
        _ => panic!("a saved challenge is not kept"),
    }
}

#[test]
fn an_unreadable_challenge_is_not_replaced() {
    assert!(matches!(
        get_or_create_challenge(ChallengeFile::Unreadable),
        Err(CredError::ChallengeUnreadable)
    ));
    assert!(matches!(
        plan_challenge(ChallengeFile::Unreadable, Some(vec![1])),
        Err(CredError::ChallengeUnreadable)
    ));
}

#[test]
fn the_given_challenge_is_saved() {
    match plan_challenge(ChallengeFile::Missing, Some(vec![9; 32])) {
        Ok(ChallengePlan::Save(data)) => assert_eq!(data, vec![9; 32]),
        _ => panic!("not saved"),
    }
    match plan_challenge(ChallengeFile::Contents(vec![3; 33]), Some(vec![9; 32])) {
        Ok(ChallengePlan::Save(data)) => assert_eq!(data, vec![9; 32]),
        _ => panic!("not saved"),
    }
    match plan_challenge(ChallengeFile::Contents(vec![3; 32]), Some(vec![9; 32])) {
        Ok(ChallengePlan::Keep(data)) => assert_eq!(data, vec![3; 32]),
        _ => panic!("not kept"),
    }
}

#[test]
fn where_the_configuration_lies() {
    let place = |xdg: Option<&str>, home: Option<&str>| {
        let p = config_dir(xdg.map(|s| s.to_string()), home.map(|s| s.to_string()));
        (p.base, p.rest)
    };
    assert_eq!(place(Some("/cfg"), Some("/h")), words("/cfg", &["cred"]));
    assert_eq!(place(None, Some("/h")), words("/h", &[".config", "cred"]));
    assert_eq!(place(None, None), words(".", &["cred"]));
}

#[test]
fn a_report_has_what_matters_of_an_outcome() {
    assert!(matches!(YkOutcome::NotStarted.report(), YkReport::NotStarted));
    match wrote(b"out").report() {
        YkReport::Succeeded(text) => assert_eq!(text, "out"),
        _ => panic!("no success"),
    }
    match complained(b"err").report() {
        YkReport::Failed(text) => assert_eq!(text, "err"),
        _ => panic!("no failure"),
    }
    let next = YkTask::Delete.next(&vec![YkReport::Failed("x".to_string())]);
    assert_eq!(command(next).0, "sudo");
    let next = YkTask::Info.next_on_windows(&vec![YkReport::Succeeded("y".to_string())]);
    assert_eq!(done(next).unwrap(), "y");
}

#[test]
fn a_new_challenge_needs_random_bytes() {
    for file in [ChallengeFile::Missing, ChallengeFile::Contents(vec![3; 31])] {
        assert!(matches!(plan_challenge(file, None), Err(CredError::NoRandomBytes)));
    }
    match plan_challenge(ChallengeFile::Contents(vec![3; 32]), None) {
        Ok(ChallengePlan::Keep(data)) => assert_eq!(data, vec![3; 32]),
        _ => panic!("not kept"),
    }
}
