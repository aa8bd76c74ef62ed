//! What reaching the YubiKey promises.
use crate::error::{CredError, ErrorModel};
use crate::laws::texts::{law_hex_tells_bytes_apart, law_join_puts_separators_between};
use crate::outside::{hex_bytes, hex_refusal, hex_text, lossy_text};
use crate::text::{joined, texts, trimmed};
use crate::yubikey::{
    availability, availability_step_is, challenge_next, hmac_step_is, kept_challenge,
    plain_report, probe, quoted, reported, response_of, script_text, text_step_is,
    wrote_text, ChallengeFile, CommandModel, Platform, ReportModel, TaskModel,
    YkCommand, YkOutcome, YkReport, YkStep, YkStepModel, YkTask, YkTool, CHALLENGE_LEN, HMAC_LEN,
};
use vstd::prelude::*;
use vstd::utf8::*;

verus! {

// ---------------------------------------------------------------------------
// Commands
// ---------------------------------------------------------------------------

/// How `ykman` is run for each task: always on slot 2, with the very challenge or
/// secret given.
pub proof fn law_ykman_is_run_so(hex: Seq<char>)
    ensures
        TaskModel::Challenge(hex).command(YkTool::Ykman) == (CommandModel {
            program: "ykman"@,
            args: seq!["otp"@, "calculate"@, "2"@, hex],
        }),
        TaskModel::Program(hex).command(YkTool::Ykman) == (CommandModel {
            program: "ykman"@,
            args: seq!["otp"@, "chalresp"@, "2"@, "--force"@, hex],
        }),
        TaskModel::Delete.command(YkTool::Ykman) == (CommandModel {
            program: "ykman"@,
            args: seq!["otp"@, "delete"@, "2"@, "--force"@],
        }),
        TaskModel::Info.command(YkTool::Ykman) == (CommandModel {
            program: "ykman"@,
            args: seq!["info"@],
        }),
        TaskModel::Challenge(hex).command(YkTool::YkChallenge) == (CommandModel {
            program: "ykchallenge"@,
            args: seq![hex],
        }),
{
}

/// A word in single quotes, behind a comma.
pub open spec fn further(word: Seq<char>) -> Seq<char> {
    ", "@ + ("'"@ + word + "'"@)
}

/// A script that runs `ykman` with the words given, all of them as one text.
pub open spec fn script_of(words: Seq<char>) -> Seq<char> {
    "\nimport sys\nfrom ykman._cli.__main__ import main\nsys.argv = ["@ + ("'"@ + "ykman"@ + "'"@
        + words) + "]\nmain()\n"@
}

proof fn lemma_script_grows(args: Seq<Seq<char>>, word: Seq<char>, words: Seq<char>)
    requires
        script_text(args) == script_of(words),
    ensures
        script_text(args.push(word)) == script_of(words + further(word)),
{
    let all = (seq!["ykman"@] + args).map_values(|w: Seq<char>| quoted(w));
    let more = (seq!["ykman"@] + args.push(word)).map_values(|w: Seq<char>| quoted(w));
    assert(more =~= all.push(quoted(word)));
    lemma_joined_push(all, quoted(word), ", "@);
    let head = "\nimport sys\nfrom ykman._cli.__main__ import main\nsys.argv = ["@;
    let tail = "]\nmain()\n"@;
    let a = joined(all, ", "@);
    let b = "'"@ + "ykman"@ + "'"@ + words;
    assert(a =~= b) by {
        let s = head + a + tail;
        let t = head + b + tail;
        assert(s == t);
        assert(s.len() == t.len());
        assert(a =~= s.subrange(head.len() as int, (head.len() + a.len()) as int));
        assert(b =~= t.subrange(head.len() as int, (head.len() + b.len()) as int));
    }
    assert(a + ", "@ + quoted(word) =~= "'"@ + "ykman"@ + "'"@ + (words + further(word)));
}

proof fn lemma_joined_push(list: Seq<Seq<char>>, x: Seq<char>, sep: Seq<char>)
    requires
        list.len() > 0,
    ensures
        joined(list.push(x), sep) == joined(list, sep) + sep + x,
{
    law_join_puts_separators_between(list, x, sep);
}

proof fn lemma_script_start()
    ensures
        script_text(Seq::empty()) == script_of(Seq::empty()),
{
    let all = (seq!["ykman"@] + Seq::<Seq<char>>::empty()).map_values(|w: Seq<char>| quoted(w));
    assert(all =~= seq![quoted("ykman"@)]);
    assert(joined(all, ", "@) == quoted("ykman"@));
    assert(quoted("ykman"@) =~= "'"@ + "ykman"@ + "'"@ + Seq::<char>::empty());
}

/// How Python is run for each task: as root, with a script that hands `ykman` the
/// same words, each in quotes, the very challenge or secret given among them.
pub proof fn law_python_is_run_so(hex: Seq<char>)
    ensures
        TaskModel::Challenge(hex).command(YkTool::Python) == (CommandModel {
            program: "sudo"@,
            args: seq![
                "python3"@,
                "-c"@,
                script_of(
                    further("otp"@) + further("calculate"@) + further("2"@) + further(hex),
                ),
            ],
        }),
        TaskModel::Program(hex).command(YkTool::Python) == (CommandModel {
            program: "sudo"@,
            args: seq![
                "python3"@,
                "-c"@,
                script_of(
                    further("otp"@) + further("chalresp"@) + further("2"@) + further("--force"@)
                        + further(hex),
                ),
            ],
        }),
        TaskModel::Delete.command(YkTool::Python) == (CommandModel {
            program: "sudo"@,
            args: seq![
                "python3"@,
                "-c"@,
                script_of(
                    further("otp"@) + further("delete"@) + further("2"@) + further("--force"@),
                ),
            ],
        }),
        TaskModel::Info.command(YkTool::Python) == (CommandModel {
            program: "sudo"@,
            args: seq!["python3"@, "-c"@, script_of(further("info"@))],
        }),
{
    let none = Seq::<Seq<char>>::empty();
    let nothing = Seq::<char>::empty();
    lemma_script_start();
    let otp = none.push("otp"@);
    lemma_script_grows(none, "otp"@, nothing);
    assert(nothing + further("otp"@) =~= further("otp"@));
    let w = further("otp"@);
    // The challenge.
    let a = otp.push("calculate"@);
    lemma_script_grows(otp, "calculate"@, w);
    lemma_script_grows(a, "2"@, w + further("calculate"@));
    lemma_script_grows(a.push("2"@), hex, w + further("calculate"@) + further("2"@));
    assert(a.push("2"@).push(hex) =~= TaskModel::Challenge(hex).ykman_args());
    // The secret.
    let b = otp.push("chalresp"@);
    lemma_script_grows(otp, "chalresp"@, w);
    lemma_script_grows(b, "2"@, w + further("chalresp"@));
    lemma_script_grows(b.push("2"@), "--force"@, w + further("chalresp"@) + further("2"@));
    lemma_script_grows(
        b.push("2"@).push("--force"@),
        hex,
        w + further("chalresp"@) + further("2"@) + further("--force"@),
    );
    assert(b.push("2"@).push("--force"@).push(hex) =~= TaskModel::Program(hex).ykman_args());
    // The slot.
    let c = otp.push("delete"@);
    lemma_script_grows(otp, "delete"@, w);
    lemma_script_grows(c, "2"@, w + further("delete"@));
    lemma_script_grows(c.push("2"@), "--force"@, w + further("delete"@) + further("2"@));
    assert(c.push("2"@).push("--force"@) =~= TaskModel::Delete.ykman_args());
    // The device.
    lemma_script_grows(none, "info"@, nothing);
    assert(nothing + further("info"@) =~= further("info"@));
    assert(none.push("info"@) =~= TaskModel::Info.ykman_args());
}

// ---------------------------------------------------------------------------
// Outcomes
// ---------------------------------------------------------------------------

/// The words before the complaint of a program that failed.
pub open spec fn complaint(tool: YkTool, word: Seq<char>) -> Seq<char> {
    match tool {
        YkTool::Ykman => "ykman "@ + word + " failed: "@,
        YkTool::Python => "python ykman "@ + word + " failed: "@,
        YkTool::YkChallenge => "ykchallenge failed: "@,
    }
}

/// A program that succeeds gives what it wrote, one that fails its complaint behind
/// words that name it and the task, and one that does not start is said to be
/// missing.
pub proof fn law_what_programs_give(task: TaskModel, tool: YkTool, text: Seq<char>)
    ensures
        task.attempt(tool, ReportModel::Succeeded(text)) == Ok::<Seq<char>, Seq<char>>(text),
        task.attempt(tool, ReportModel::Failed(text)) == Err::<Seq<char>, Seq<char>>(
            complaint(
                tool,
                match task {
                    TaskModel::Challenge(_) => "challenge"@,
                    TaskModel::Program(_) => "program"@,
                    TaskModel::Delete => "delete"@,
                    TaskModel::Info => "info"@,
                },
            ) + text,
        ),
        task.attempt(tool, ReportModel::NotStarted) == Err::<Seq<char>, Seq<char>>(
            match tool {
                YkTool::Ykman => "ykman not found"@,
                YkTool::Python => "sudo python3 ykman failed"@,
                YkTool::YkChallenge =>
                    "ykchallenge.exe not found -- is it in PATH? (~/.local/bin/ykchallenge.exe)"@,
            },
        ),
{
    reveal_strlit("ykman ");
    reveal_strlit("python ykman ");
    reveal_strlit(" failed: ");
    reveal_strlit("challenge");
    reveal_strlit("program");
    reveal_strlit("delete");
    reveal_strlit("info");
    reveal_strlit("ykman challenge failed: ");
    reveal_strlit("ykman program failed: ");
    reveal_strlit("ykman delete failed: ");
    reveal_strlit("ykman info failed: ");
    reveal_strlit("python ykman challenge failed: ");
    reveal_strlit("python ykman program failed: ");
    reveal_strlit("python ykman delete failed: ");
    reveal_strlit("python ykman info failed: ");
    assert("ykman "@ + "challenge"@ + " failed: "@ =~= "ykman challenge failed: "@);
    assert("ykman "@ + "program"@ + " failed: "@ =~= "ykman program failed: "@);
    assert("ykman "@ + "delete"@ + " failed: "@ =~= "ykman delete failed: "@);
    assert("ykman "@ + "info"@ + " failed: "@ =~= "ykman info failed: "@);
    assert("python ykman "@ + "challenge"@ + " failed: "@ =~= "python ykman challenge failed: "@);
    assert("python ykman "@ + "program"@ + " failed: "@ =~= "python ykman program failed: "@);
    assert("python ykman "@ + "delete"@ + " failed: "@ =~= "python ykman delete failed: "@);
    assert("python ykman "@ + "info"@ + " failed: "@ =~= "python ykman info failed: "@);
}

/// What is said where no program helped.
pub open spec fn helpless(task: TaskModel) -> Seq<char> {
    match task {
        TaskModel::Challenge(_) =>
            "failed to get YubiKey challenge-response -- is the YubiKey plugged in?"@,
        TaskModel::Program(_) => "failed to program YubiKey -- is the YubiKey plugged in?"@,
        TaskModel::Delete => "failed to delete YubiKey slot"@,
        TaskModel::Info => "failed to get YubiKey info -- is the YubiKey plugged in?"@,
    }
}

/// `ykman` is run first. Where it succeeds, what it wrote is given; where it does
/// not, Python is run, and what that gives is given.
pub proof fn law_programs_are_run_in_turn(
    task: TaskModel,
    reports: Seq<ReportModel>,
    text: Seq<char>,
)
    ensures
        reports.len() == 0 ==> task.next(reports) == YkStepModel::Run(task.command(YkTool::Ykman)),
        reports.len() >= 1 && reports[0] == ReportModel::Succeeded(text) ==> task.next(reports)
            == YkStepModel::Done(Ok(text)),
        reports.len() == 1 && !(reports[0] is Succeeded) ==> task.next(reports) == YkStepModel::Run(
            task.command(YkTool::Python),
        ),
        reports.len() >= 2 && !(reports[0] is Succeeded) && reports[1] == ReportModel::Succeeded(
            text,
        ) ==> task.next(reports) == YkStepModel::Done(Ok(text)),
        reports.len() >= 2 && !(reports[0] is Succeeded) && !(reports[1] is Succeeded)
            ==> task.next(reports) == YkStepModel::Done(
            Err(
                ErrorModel::YubikeyFailed {
                    context: helpless(task),
                    cause: task.attempt(YkTool::Python, reports[1])->Err_0,
                },
            ),
        ),
{
}

/// On Windows only `ykchallenge` is run, and what it gives is given.
pub proof fn law_one_program_is_run_on_windows(
    task: TaskModel,
    reports: Seq<ReportModel>,
    text: Seq<char>,
)
    ensures
        reports.len() == 0 ==> task.next_on_windows(reports) == YkStepModel::Run(
            task.command(YkTool::YkChallenge),
        ),
        reports.len() >= 1 && reports[0] == ReportModel::Succeeded(text) ==> task.next_on_windows(
            reports,
        ) == YkStepModel::Done(Ok(text)),
        reports.len() >= 1 && !(reports[0] is Succeeded) ==> task.next_on_windows(reports)
            == YkStepModel::Done(
            Err(
                ErrorModel::YubikeyFailed {
                    context:
                        "failed to get YubiKey challenge-response -- is ykchallenge.exe on PATH? (~/.local/bin/ykchallenge.exe)"@,
                    cause: task.attempt(YkTool::YkChallenge, reports[0])->Err_0,
                },
            ),
        ),
{
}

// ---------------------------------------------------------------------------
// Challenges
// ---------------------------------------------------------------------------

/// The very challenge given is sent, in hexadecimal, whatever it is: to `ykman` as
/// its last word, to Python in its script, and to `ykchallenge` as its only word.
pub proof fn law_the_challenge_given_is_sent(challenge: Seq<u8>, reports: Seq<ReportModel>)
    ensures
        reports.len() == 0 ==> challenge_next(Platform::Other, challenge, reports)
            == YkStepModel::Run(
            CommandModel {
                program: "ykman"@,
                args: seq!["otp"@, "calculate"@, "2"@, hex_text(challenge)],
            },
        ),
        reports.len() == 1 && !(reports[0] is Succeeded) ==> challenge_next(
            Platform::Other,
            challenge,
            reports,
        ) == YkStepModel::Run(
            CommandModel {
                program: "sudo"@,
                args: seq![
                    "python3"@,
                    "-c"@,
                    script_of(
                        further("otp"@) + further("calculate"@) + further("2"@) + further(
                            hex_text(challenge),
                        ),
                    ),
                ],
            },
        ),
        reports.len() == 0 ==> challenge_next(Platform::Windows, challenge, reports)
            == YkStepModel::Run(
            CommandModel { program: "ykchallenge"@, args: seq![hex_text(challenge)] },
        ),
{
    law_python_is_run_so(hex_text(challenge));
}

/// Different challenges are sent by different commands.
pub proof fn law_challenges_are_told_apart(platform: Platform, a: Seq<u8>, b: Seq<u8>)
    requires
        challenge_next(platform, a, Seq::empty()) == challenge_next(platform, b, Seq::empty()),
    ensures
        a == b,
{
    law_the_challenge_given_is_sent(a, Seq::empty());
    law_the_challenge_given_is_sent(b, Seq::empty());
    match (
        challenge_next(platform, a, Seq::empty()),
        challenge_next(platform, b, Seq::empty()),
    ) {
        (YkStepModel::Run(c), YkStepModel::Run(d)) => {
            assert(c.args.last() == hex_text(a));
            assert(d.args.last() == hex_text(b));
        },
        _ => {},
    }
    law_hex_tells_bytes_apart(a, b);
}

/// What the programs give to a challenge is what they wrote, or why they failed.
pub proof fn law_what_a_challenge_gives(
    challenge: Seq<u8>,
    reports: Seq<ReportModel>,
    text: Seq<char>,
)
    ensures
        reports.len() >= 1 && reports[0] == ReportModel::Succeeded(text) ==> challenge_next(
            Platform::Other,
            challenge,
            reports,
        ) == YkStepModel::Done(Ok(text)) && challenge_next(Platform::Windows, challenge, reports)
            == YkStepModel::Done(Ok(text)),
        reports.len() >= 2 && !(reports[0] is Succeeded) && reports[1] == ReportModel::Succeeded(
            text,
        ) ==> challenge_next(Platform::Other, challenge, reports) == YkStepModel::Done(Ok(text)),
        reports.len() >= 2 && !(reports[0] is Succeeded) && !(reports[1] is Succeeded) ==> (
        challenge_next(Platform::Other, challenge, reports) matches YkStepModel::Done(r) && r
            is Err),
        reports.len() >= 1 && !(reports[0] is Succeeded) ==> (challenge_next(
            Platform::Windows,
            challenge,
            reports,
        ) matches YkStepModel::Done(r) && r is Err),
{
}

/// The response is the 20 bytes that the output has in hexadecimal between white
/// space; other bytes are refused for their number, and other text for what is
/// wrong with it.
pub proof fn law_responses_are_read_so(output: Seq<char>, bytes: Seq<u8>)
    ensures
        hex_bytes(trimmed(output)) == Some(bytes) && bytes.len() == 20 ==> response_of(output)
            == Ok::<Seq<u8>, ErrorModel>(bytes),
        hex_bytes(trimmed(output)) == Some(bytes) && bytes.len() != 20 ==> response_of(output)
            == Err::<Seq<u8>, ErrorModel>(ErrorModel::ResponseLength(bytes.len() as int)),
        hex_bytes(trimmed(output)) is None ==> response_of(output) == Err::<Seq<u8>, ErrorModel>(
            ErrorModel::InvalidHexResponse(hex_refusal(trimmed(output))),
        ),
{
}

// ---------------------------------------------------------------------------
// Availability
// ---------------------------------------------------------------------------

/// A device is asked about itself first; where it does not tell, it is not
/// available. Where it does, slot 2 is sent 32 zero bytes, and what comes of that
/// decides.
pub proof fn law_availability_is_asked_in_turn(
    platform: Platform,
    reports: Seq<ReportModel>,
    zeros: Seq<u8>,
)
    requires
        zeros.len() == 32,
        forall|i: int| 0 <= i < 32 ==> #[trigger] zeros[i] == 0,
    ensures
        reports.len() == 0 ==> availability(platform, reports) == YkStepModel::Run(
            CommandModel { program: "ykman"@, args: seq!["info"@] },
        ),
        reports.len() >= 1 && reports[0] is Succeeded ==> availability(platform, reports)
            == challenge_next(platform, zeros, reports.skip(1)),
        reports.len() == 1 && !(reports[0] is Succeeded) ==> availability(platform, reports)
            == YkStepModel::Run(TaskModel::Info.command(YkTool::Python)),
        reports.len() >= 2 && !(reports[0] is Succeeded) && reports[1] is Succeeded
            ==> availability(platform, reports) == challenge_next(
            platform,
            zeros,
            reports.skip(2),
        ),
        reports.len() >= 2 && !(reports[0] is Succeeded) && !(reports[1] is Succeeded) ==> (
        availability(platform, reports) matches YkStepModel::Done(r) && r is Err),
{
    assert(zeros =~= probe());
}

// ---------------------------------------------------------------------------
// Steps and outcomes as they are
// ---------------------------------------------------------------------------

/// A step that is given out is the one meant: the very program with its very
/// words, or the very result.
pub proof fn law_steps_are_given_as_they_are(
    c: YkCommand,
    m: CommandModel,
    text: Result<String, CredError>,
    bytes: Result<Vec<u8>, CredError>,
    yes: bool,
    d: Result<Seq<char>, ErrorModel>,
)
    ensures
        c@.program == c.program@,
        c@.args == texts(c.args@),
        text_step_is(YkStep::Run(c), YkStepModel::Run(m)) ==> c@ == m,
        hmac_step_is(YkStep::Run(c), YkStepModel::Run(m)) ==> c@ == m,
        availability_step_is(YkStep::Run(c), YkStepModel::Run(m)) ==> c@ == m,
        !text_step_is(YkStep::Run(c), YkStepModel::Done(d)),
        !hmac_step_is(YkStep::Run(c), YkStepModel::Done(d)),
        !availability_step_is(YkStep::Run(c), YkStepModel::Done(d)),
        !text_step_is(YkStep::Done(text), YkStepModel::Run(m)),
        !hmac_step_is(YkStep::Done(bytes), YkStepModel::Run(m)),
        !availability_step_is(YkStep::Done(yes), YkStepModel::Run(m)),
        text_step_is(YkStep::Done(text), YkStepModel::Done(d)) ==> (match (text, d) {
            (Ok(t), Ok(s)) => t@ == s,
            (Err(e), Err(f)) => e@ == f,
            _ => false,
        }),
        hmac_step_is(YkStep::Done(bytes), YkStepModel::Done(d)) ==> (match d {
            Ok(output) => match (bytes, response_of(output)) {
                (Ok(b), Ok(s)) => b@ == s,
                (Err(e), Err(f)) => e@ == f,
                _ => false,
            },
            Err(f) => bytes matches Err(e) && e@ == f,
        }),
        availability_step_is(YkStep::Done(yes), YkStepModel::Done(d)) ==> yes == (d matches Ok(
            output,
        ) && response_of(output) is Ok),
{
}

/// A program that succeeded is reported with what it wrote to its output, one that
/// failed with what it wrote as its complaint; what is text is taken as it is.
pub proof fn law_outcomes_are_reported_as_they_are(
    outcomes: Seq<YkOutcome>,
    out: Vec<u8>,
    err: Vec<u8>,
    text: String,
    hex: String,
)
    ensures
        reported(outcomes).len() == outcomes.len(),
        forall|i: int|
            0 <= i < outcomes.len() ==> #[trigger] reported(outcomes)[i] == outcomes[i]@.report(),
        YkOutcome::NotStarted@.report() == ReportModel::NotStarted,
        (YkOutcome::Exited { success: true, stdout: out, stderr: err })@.report()
            == ReportModel::Succeeded(lossy_text(out@)),
        (YkOutcome::Exited { success: false, stdout: out, stderr: err })@.report()
            == ReportModel::Failed(lossy_text(err@)),
        valid_utf8(out@) ==> wrote_text(
            (YkOutcome::Exited { success: true, stdout: out, stderr: err })@,
        ) && plain_report((YkOutcome::Exited { success: true, stdout: out, stderr: err })@)
            == ReportModel::Succeeded(decode_utf8(out@)),
        valid_utf8(err@) ==> wrote_text(
            (YkOutcome::Exited { success: false, stdout: out, stderr: err })@,
        ) && plain_report((YkOutcome::Exited { success: false, stdout: out, stderr: err })@)
            == ReportModel::Failed(decode_utf8(err@)),
        YkReport::NotStarted@ == ReportModel::NotStarted,
        YkReport::Succeeded(text)@ == ReportModel::Succeeded(text@),
        YkReport::Failed(text)@ == ReportModel::Failed(text@),
        YkTask::Challenge(hex)@ == TaskModel::Challenge(hex@),
        YkTask::Program(hex)@ == TaskModel::Program(hex@),
        YkTask::Delete@ == TaskModel::Delete,
        YkTask::Info@ == TaskModel::Info,
{
}

/// A file of 32 bytes holds the challenge that is kept; any other holds none.
pub proof fn law_a_challenge_has_32_bytes(data: Vec<u8>)
    ensures
        data@.len() == 32 ==> kept_challenge(ChallengeFile::Contents(data)) == Some(data@),
        data@.len() != 32 ==> kept_challenge(ChallengeFile::Contents(data)) is None,
        kept_challenge(ChallengeFile::Missing) is None,
        kept_challenge(ChallengeFile::Unreadable) is None,
        CHALLENGE_LEN == 32,
        HMAC_LEN == 20,
{
}

} // verus!
