//! YubiKey HMAC-SHA1 challenge-response.
//!
//! The YubiKey is reached through programs. Each operation here is told what
//! came of the programs run for it so far, and says which one to run next or
//! what the operation gives.
use crate::backend::{result_view, EnvModel, PathModel, PathParts};
use crate::error::{CredError, ErrorModel};
use crate::order::views;
use crate::outside::{
    hex_bytes, hex_decode, hex_encode, hex_refusal, hex_text, law_hex_round_trip,
    lemma_one_refusal, lossy_text, os_random_bytes, string_from_utf8_lossy,
};
use crate::text::{join, joined, opt_text, texts, trim, trimmed};
use vstd::prelude::*;
use vstd::utf8::*;

verus! {

// ---------------------------------------------------------------------------
// Programs
// ---------------------------------------------------------------------------

/// How many bytes the YubiKey's HMAC and its secret have.
pub const HMAC_LEN: usize = 20;

/// How many bytes a challenge has.
pub const CHALLENGE_LEN: usize = 32;

/// What the YubiKey is asked to do. Slot 2 is used by convention.
pub enum YkTask {
    /// Answer a challenge, given in hexadecimal.
    Challenge(String),
    /// Take a secret, given in hexadecimal, into the slot.
    Program(String),
    /// Clear the slot.
    Delete,
    /// Tell about itself.
    Info,
}

/// How the YubiKey is asked.
#[derive(Debug, Clone, Copy, PartialEq, Eq, Structural)]
pub enum YkTool {
    /// The program `ykman`.
    Ykman,
    /// The Python module of `ykman`, as root.
    Python,
    /// The program `ykchallenge`, which only answers challenges.
    YkChallenge,
}

/// The system that the programs run on.
#[derive(Debug, Clone, Copy, PartialEq, Eq, Structural)]
pub enum Platform {
    Windows,
    Other,
}

/// A program to run, with its arguments.
pub struct YkCommand {
    pub program: String,
    pub args: Vec<String>,
}

/// What came of running a program.
pub enum YkOutcome {
    /// It could not be started.
    NotStarted,
    /// It ended.
    Exited { success: bool, stdout: Vec<u8>, stderr: Vec<u8> },
}

/// What came of running a program, as far as it matters, as text.
#[derive(Debug)]
pub enum YkReport {
    /// It could not be started.
    NotStarted,
    /// It succeeded; what it wrote.
    Succeeded(String),
    /// It failed; its complaint.
    Failed(String),
}

/// What comes next in an operation.
pub enum YkStep<T> {
    /// A program is to be run.
    Run(YkCommand),
    /// The operation is over.
    Done(T),
}

/// What the YubiKey is asked to do, as text.
pub enum TaskModel {
    Challenge(Seq<char>),
    Program(Seq<char>),
    Delete,
    Info,
}

/// A program to run, as text.
pub struct CommandModel {
    pub program: Seq<char>,
    pub args: Seq<Seq<char>>,
}

/// What came of running a program, as bytes.
pub enum OutcomeModel {
    NotStarted,
    Exited { success: bool, stdout: Seq<u8>, stderr: Seq<u8> },
}

/// What came of running a program, as far as it matters.
pub enum ReportModel {
    NotStarted,
    Succeeded(Seq<char>),
    Failed(Seq<char>),
}

impl View for YkTask {
    type V = TaskModel;

    open spec fn view(&self) -> TaskModel {
        match *self {
            YkTask::Challenge(hex) => TaskModel::Challenge(hex@),
            YkTask::Program(hex) => TaskModel::Program(hex@),
            YkTask::Delete => TaskModel::Delete,
            YkTask::Info => TaskModel::Info,
        }
    }
}

impl View for YkCommand {
    type V = CommandModel;

    open spec fn view(&self) -> CommandModel {
        CommandModel { program: self.program@, args: texts(self.args@) }
    }
}

impl View for YkOutcome {
    type V = OutcomeModel;

    open spec fn view(&self) -> OutcomeModel {
        match *self {
            YkOutcome::NotStarted => OutcomeModel::NotStarted,
            YkOutcome::Exited { success, stdout, stderr } => OutcomeModel::Exited {
                success,
                stdout: stdout@,
                stderr: stderr@,
            },
        }
    }
}

impl View for YkReport {
    type V = ReportModel;

    open spec fn view(&self) -> ReportModel {
        match *self {
            YkReport::NotStarted => ReportModel::NotStarted,
            YkReport::Succeeded(text) => ReportModel::Succeeded(text@),
            YkReport::Failed(text) => ReportModel::Failed(text@),
        }
    }
}

impl OutcomeModel {
    /// What matters of the outcome, as text; bytes that are not text are replaced.
    pub open spec fn report(self) -> ReportModel {
        match self {
            OutcomeModel::NotStarted => ReportModel::NotStarted,
            OutcomeModel::Exited { success, stdout, stderr } => if success {
                ReportModel::Succeeded(lossy_text(stdout))
            } else {
                ReportModel::Failed(lossy_text(stderr))
            },
        }
    }
}

/// The reports on the programs run so far.
pub open spec fn reported(outcomes: Seq<YkOutcome>) -> Seq<ReportModel> {
    outcomes.map_values(|o: YkOutcome| o@.report())
}

/// What came of running a program, where what it wrote is text.
pub open spec fn plain_report(outcome: OutcomeModel) -> ReportModel {
    match outcome {
        OutcomeModel::NotStarted => ReportModel::NotStarted,
        OutcomeModel::Exited { success, stdout, stderr } => if success {
            ReportModel::Succeeded(decode_utf8(stdout))
        } else {
            ReportModel::Failed(decode_utf8(stderr))
        },
    }
}

/// What a program wrote is text.
pub open spec fn wrote_text(outcome: OutcomeModel) -> bool {
    match outcome {
        OutcomeModel::NotStarted => true,
        OutcomeModel::Exited { success, stdout, stderr } => if success {
            valid_utf8(stdout)
        } else {
            valid_utf8(stderr)
        },
    }
}

impl YkOutcome {
    /// What matters of the outcome, as text.
    pub fn report(&self) -> (r: YkReport)
        ensures
            r@ == self@.report(),
            wrote_text(self@) ==> r@ == plain_report(self@),
    {
        match self {
            YkOutcome::NotStarted => YkReport::NotStarted,
            YkOutcome::Exited { success, stdout, stderr } => {
                if *success {
                    YkReport::Succeeded(string_from_utf8_lossy(stdout.as_slice()))
                } else {
                    YkReport::Failed(string_from_utf8_lossy(stderr.as_slice()))
                }
            },
        }
    }
}

/// The reports on the programs run so far, without the first `skipped`.
fn reports_after(outcomes: &Vec<YkOutcome>, skipped: usize) -> (r: Vec<YkReport>)
    requires
        skipped <= outcomes@.len(),
    ensures
        views(r@) == reported(outcomes@).skip(skipped as int),
{
    let mut r: Vec<YkReport> = Vec::new();
    let mut i: usize = skipped;
    while i < outcomes.len()
        invariant
            skipped <= i <= outcomes@.len(),
            r@.len() == i - skipped,
            forall|j: int|
                0 <= j < i - skipped ==> (#[trigger] r@[j])@ == outcomes@[skipped + j]@.report(),
        decreases outcomes@.len() - i,
    {
        r.push(outcomes[i].report());
        i = i + 1;
    }
    assert(views(r@) =~= reported(outcomes@).skip(skipped as int));
    r
}

/// The reports on the programs run so far.
fn reports(outcomes: &Vec<YkOutcome>) -> (r: Vec<YkReport>)
    ensures
        views(r@) == reported(outcomes@),
{
    let r = reports_after(outcomes, 0);
    assert(reported(outcomes@).skip(0) =~= reported(outcomes@));
    r
}

/// A word in single quotes.
pub open spec fn quoted(word: Seq<char>) -> Seq<char> {
    "'"@ + word + "'"@
}

/// A script that runs `ykman` with the given arguments.
pub open spec fn script_text(args: Seq<Seq<char>>) -> Seq<char> {
    "\nimport sys\nfrom ykman._cli.__main__ import main\nsys.argv = ["@ + joined(
        (seq!["ykman"@] + args).map_values(|w: Seq<char>| quoted(w)),
        ", "@,
    ) + "]\nmain()\n"@
}

impl TaskModel {
    /// The arguments that `ykman` takes for the task.
    pub open spec fn ykman_args(self) -> Seq<Seq<char>> {
        match self {
            TaskModel::Challenge(hex) => seq!["otp"@, "calculate"@, "2"@, hex],
            TaskModel::Program(hex) => seq!["otp"@, "chalresp"@, "2"@, "--force"@, hex],
            TaskModel::Delete => seq!["otp"@, "delete"@, "2"@, "--force"@],
            TaskModel::Info => seq!["info"@],
        }
    }

    /// The challenge or secret of the task, and nothing where it has none.
    pub open spec fn hex(self) -> Seq<char> {
        match self {
            TaskModel::Challenge(hex) => hex,
            TaskModel::Program(hex) => hex,
            _ => Seq::empty(),
        }
    }

    /// The program to run for the task.
    pub open spec fn command(self, tool: YkTool) -> CommandModel {
        match tool {
            YkTool::Ykman => CommandModel { program: "ykman"@, args: self.ykman_args() },
            YkTool::Python => CommandModel {
                program: "sudo"@,
                args: seq!["python3"@, "-c"@, script_text(self.ykman_args())],
            },
            YkTool::YkChallenge => CommandModel {
                program: "ykchallenge"@,
                args: seq![self.hex()],
            },
        }
    }

    /// What is said of a program that ended without success, before its own
    /// words.
    pub open spec fn failure_prefix(self, tool: YkTool) -> Seq<char> {
        match tool {
            YkTool::YkChallenge => "ykchallenge failed: "@,
            YkTool::Ykman => match self {
                TaskModel::Challenge(_) => "ykman challenge failed: "@,
                TaskModel::Program(_) => "ykman program failed: "@,
                TaskModel::Delete => "ykman delete failed: "@,
                TaskModel::Info => "ykman info failed: "@,
            },
            YkTool::Python => match self {
                TaskModel::Challenge(_) => "python ykman challenge failed: "@,
                TaskModel::Program(_) => "python ykman program failed: "@,
                TaskModel::Delete => "python ykman delete failed: "@,
                TaskModel::Info => "python ykman info failed: "@,
            },
        }
    }

    /// What running a program gives: what it wrote, or why it failed.
    pub open spec fn attempt(self, tool: YkTool, report: ReportModel) -> Result<
        Seq<char>,
        Seq<char>,
    > {
        match report {
            ReportModel::NotStarted => Err(
                match tool {
                    YkTool::Ykman => "ykman not found"@,
                    YkTool::Python => "sudo python3 ykman failed"@,
                    YkTool::YkChallenge =>
                        "ykchallenge.exe not found -- is it in PATH? (~/.local/bin/ykchallenge.exe)"@,
                },
            ),
            ReportModel::Succeeded(text) => Ok(text),
            ReportModel::Failed(text) => Err(self.failure_prefix(tool) + text),
        }
    }

    /// What is said where no program helped.
    pub open spec fn context(self) -> Seq<char> {
        match self {
            TaskModel::Challenge(_) =>
                "failed to get YubiKey challenge-response -- is the YubiKey plugged in?"@,
            TaskModel::Program(_) => "failed to program YubiKey -- is the YubiKey plugged in?"@,
            TaskModel::Delete => "failed to delete YubiKey slot"@,
            TaskModel::Info => "failed to get YubiKey info -- is the YubiKey plugged in?"@,
        }
    }

    /// What comes next where `ykman` is tried first and its Python module after
    /// that: a program to run, or what the task gives.
    pub open spec fn next(self, reports: Seq<ReportModel>) -> YkStepModel {
        if reports.len() == 0 {
            YkStepModel::Run(self.command(YkTool::Ykman))
        } else if let Ok(text) = self.attempt(YkTool::Ykman, reports[0]) {
            YkStepModel::Done(Ok(text))
        } else if reports.len() == 1 {
            YkStepModel::Run(self.command(YkTool::Python))
        } else {
            match self.attempt(YkTool::Python, reports[1]) {
                Ok(text) => YkStepModel::Done(Ok(text)),
                Err(cause) => YkStepModel::Done(
                    Err(ErrorModel::YubikeyFailed { context: self.context(), cause }),
                ),
            }
        }
    }

    /// What comes next on Windows, where only `ykchallenge` answers challenges.
    pub open spec fn next_on_windows(self, reports: Seq<ReportModel>) -> YkStepModel {
        if reports.len() == 0 {
            YkStepModel::Run(self.command(YkTool::YkChallenge))
        } else {
            match self.attempt(YkTool::YkChallenge, reports[0]) {
                Ok(text) => YkStepModel::Done(Ok(text)),
                Err(cause) => YkStepModel::Done(
                    Err(
                        ErrorModel::YubikeyFailed {
                            context:
                                "failed to get YubiKey challenge-response -- is ykchallenge.exe on PATH? (~/.local/bin/ykchallenge.exe)"@,
                            cause,
                        },
                    ),
                ),
            }
        }
    }
}

/// What comes next, as text: a program to run, or what a program wrote.
pub enum YkStepModel {
    Run(CommandModel),
    Done(Result<Seq<char>, ErrorModel>),
}

/// The step is the one modelled.
pub open spec fn text_step_is(step: YkStep<Result<String, CredError>>, model: YkStepModel) -> bool {
    match (step, model) {
        (YkStep::Run(command), YkStepModel::Run(c)) => command@ == c,
        (YkStep::Done(r), YkStepModel::Done(d)) => result_view(r) == d,
        _ => false,
    }
}

/// `word` in single quotes.
fn quote(word: &str) -> (r: String)
    ensures
        r@ == quoted(word@),
{
    let mut r = "'".to_owned();
    r.append(word);
    r.append("'");
    r
}

/// A script that runs `ykman` with the given arguments.
fn script(args: &Vec<String>) -> (r: String)
    ensures
        r@ == script_text(texts(args@)),
{
    let mut words: Vec<String> = Vec::new();
    words.push(quote("ykman"));
    let mut i: usize = 0;
    while i < args.len()
        invariant
            i <= args@.len(),
            words@.len() == i + 1,
            words@[0]@ == quoted("ykman"@),
            forall|j: int| 0 <= j < i ==> (#[trigger] words@[j + 1])@ == quoted(args@[j]@),
        decreases args@.len() - i,
    {
        words.push(quote(args[i].as_str()));
        i = i + 1;
    }
    proof {
        let all = seq!["ykman"@] + texts(args@);
        assert forall|j: int| 0 <= j < all.len() implies texts(words@)[j] == quoted(
            #[trigger] all[j],
        ) by {
            if j > 0 {
                assert(words@[(j - 1) + 1]@ == quoted(args@[j - 1]@));
            }
        }
        assert(texts(words@) =~= all.map_values(|w: Seq<char>| quoted(w)));
    }
    let mut r =
        "\nimport sys\nfrom ykman._cli.__main__ import main\nsys.argv = [".to_owned();
    r.append(join(&words, ", ").as_str());
    r.append("]\nmain()\n");
    r
}

impl YkTask {
    /// The arguments that `ykman` takes for the task.
    fn ykman_args(&self) -> (r: Vec<String>)
        ensures
            texts(r@) == self@.ykman_args(),
    {
        let mut r: Vec<String> = Vec::new();
        match self {
            YkTask::Challenge(hex) => {
                r.push("otp".to_owned());
                r.push("calculate".to_owned());
                r.push("2".to_owned());
                r.push(hex.clone());
            },
            YkTask::Program(hex) => {
                r.push("otp".to_owned());
                r.push("chalresp".to_owned());
                r.push("2".to_owned());
                r.push("--force".to_owned());
                r.push(hex.clone());
            },
            YkTask::Delete => {
                r.push("otp".to_owned());
                r.push("delete".to_owned());
                r.push("2".to_owned());
                r.push("--force".to_owned());
            },
            YkTask::Info => {
                r.push("info".to_owned());
            },
        }
        assert(texts(r@) =~= self@.ykman_args());
        r
    }

    /// The program to run for the task.
    pub fn command(&self, tool: YkTool) -> (r: YkCommand)
        ensures
            r@ == self@.command(tool),
    {
        let mut args: Vec<String> = Vec::new();
        match tool {
            YkTool::Ykman => YkCommand { program: "ykman".to_owned(), args: self.ykman_args() },
            YkTool::Python => {
                args.push("python3".to_owned());
                args.push("-c".to_owned());
                args.push(script(&self.ykman_args()));
                assert(texts(args@) =~= self@.command(tool).args);
                YkCommand { program: "sudo".to_owned(), args }
            },
            YkTool::YkChallenge => {
                let hex = match self {
                    YkTask::Challenge(hex) => hex.clone(),
                    YkTask::Program(hex) => hex.clone(),
                    _ => String::new(),
                };
                args.push(hex);
                assert(texts(args@) =~= self@.command(tool).args);
                YkCommand { program: "ykchallenge".to_owned(), args }
            },
        }
    }

    /// What is said of a program that ended without success.
    fn failure_prefix(&self, tool: YkTool) -> (r: &'static str)
        ensures
            r@ == self@.failure_prefix(tool),
    {
        match tool {
            YkTool::YkChallenge => "ykchallenge failed: ",
            YkTool::Ykman => match self {
                YkTask::Challenge(_) => "ykman challenge failed: ",
                YkTask::Program(_) => "ykman program failed: ",
                YkTask::Delete => "ykman delete failed: ",
                YkTask::Info => "ykman info failed: ",
            },
            YkTool::Python => match self {
                YkTask::Challenge(_) => "python ykman challenge failed: ",
                YkTask::Program(_) => "python ykman program failed: ",
                YkTask::Delete => "python ykman delete failed: ",
                YkTask::Info => "python ykman info failed: ",
            },
        }
    }

    /// What running a program gives: what it wrote, or why it failed.
    pub fn attempt(&self, tool: YkTool, report: &YkReport) -> (r: Result<String, String>)
        ensures
            match r {
                Ok(text) => self@.attempt(tool, report@) == Ok::<Seq<char>, Seq<char>>(text@),
                Err(cause) => self@.attempt(tool, report@) == Err::<Seq<char>, Seq<char>>(cause@),
            },
    {
        match report {
            YkReport::NotStarted => match tool {
                YkTool::Ykman => Err("ykman not found".to_owned()),
                YkTool::Python => Err("sudo python3 ykman failed".to_owned()),
                YkTool::YkChallenge => Err(
                    "ykchallenge.exe not found -- is it in PATH? (~/.local/bin/ykchallenge.exe)".to_owned(),
                ),
            },
            YkReport::Succeeded(text) => Ok(text.clone()),
            YkReport::Failed(text) => {
                let mut cause = self.failure_prefix(tool).to_owned();
                cause.append(text.as_str());
                Err(cause)
            },
        }
    }

    /// What is said where no program helped.
    fn context(&self) -> (r: &'static str)
        ensures
            r@ == self@.context(),
    {
        match self {
            YkTask::Challenge(_) => {
                "failed to get YubiKey challenge-response -- is the YubiKey plugged in?"
            },
            YkTask::Program(_) => "failed to program YubiKey -- is the YubiKey plugged in?",
            YkTask::Delete => "failed to delete YubiKey slot",
            YkTask::Info => "failed to get YubiKey info -- is the YubiKey plugged in?",
        }
    }

    /// Tries `ykman` first, and its Python module where that fails.
    pub fn next(&self, reports: &Vec<YkReport>) -> (r: YkStep<Result<String, CredError>>)
        ensures
            text_step_is(r, self@.next(views(reports@))),
    {
        if reports.len() == 0 {
            return YkStep::Run(self.command(YkTool::Ykman));
        }
        assert(views(reports@)[0] == reports@[0]@);
        if let Ok(text) = self.attempt(YkTool::Ykman, &reports[0]) {
            return YkStep::Done(Ok(text));
        }
        if reports.len() == 1 {
            return YkStep::Run(self.command(YkTool::Python));
        }
        assert(views(reports@)[1] == reports@[1]@);
        match self.attempt(YkTool::Python, &reports[1]) {
            Ok(text) => YkStep::Done(Ok(text)),
            Err(cause) => YkStep::Done(
                Err(CredError::YubikeyFailed { context: self.context().to_owned(), cause }),
            ),
        }
    }

    /// Tries `ykchallenge` alone.
    pub fn next_on_windows(&self, reports: &Vec<YkReport>) -> (r: YkStep<Result<String, CredError>>)
        ensures
            text_step_is(r, self@.next_on_windows(views(reports@))),
    {
        if reports.len() == 0 {
            return YkStep::Run(self.command(YkTool::YkChallenge));
        }
        assert(views(reports@)[0] == reports@[0]@);
        match self.attempt(YkTool::YkChallenge, &reports[0]) {
            Ok(text) => YkStep::Done(Ok(text)),
            Err(cause) => YkStep::Done(
                Err(
                    CredError::YubikeyFailed {
                        context:
                            "failed to get YubiKey challenge-response -- is ykchallenge.exe on PATH? (~/.local/bin/ykchallenge.exe)".to_owned(),
                        cause,
                    },
                ),
            ),
        }
    }
}

// ---------------------------------------------------------------------------
// Operations
// ---------------------------------------------------------------------------

/// The HMAC that a program's output gives.
pub open spec fn response_of(output: Seq<char>) -> Result<Seq<u8>, ErrorModel> {
    match hex_bytes(trimmed(output)) {
        Some(response) => if response.len() == HMAC_LEN {
            Ok(response)
        } else {
            Err(ErrorModel::ResponseLength(response.len() as int))
        },
        None => Err(ErrorModel::InvalidHexResponse(hex_refusal(trimmed(output)))),
    }
}

/// The programs that answer a challenge on the given system.
pub open spec fn challenge_next(
    platform: Platform,
    challenge: Seq<u8>,
    reports: Seq<ReportModel>,
) -> YkStepModel {
    let task = TaskModel::Challenge(hex_text(challenge));
    match platform {
        Platform::Windows => task.next_on_windows(reports),
        Platform::Other => task.next(reports),
    }
}

/// Reads the HMAC from a program's output: hexadecimal of 20 bytes.
pub fn parse_response(output: &str) -> (r: Result<Vec<u8>, CredError>)
    ensures
        result_view(r) == response_of(output@),
{
    match hex_decode(trim(output)) {
        Ok(response) => {
            if response.len() != HMAC_LEN {
                Err(CredError::ResponseLength(response.len()))
            } else {
                Ok(response)
            }
        },
        Err(why) => {
            proof {
                lemma_one_refusal(trimmed(output@), why);
            }
            Err(CredError::InvalidHexResponse(why))
        },
    }
}

/// The step is the one modelled, the program's output read as an HMAC.
pub open spec fn hmac_step_is(step: YkStep<Result<Vec<u8>, CredError>>, model: YkStepModel) -> bool {
    match model {
        YkStepModel::Run(c) => step matches YkStep::Run(command) && command@ == c,
        YkStepModel::Done(Ok(output)) => step matches YkStep::Done(d) && result_view(d)
            == response_of(output),
        YkStepModel::Done(Err(e)) => step matches YkStep::Done(d) && result_view(d) == Err::<
            Seq<u8>,
            ErrorModel,
        >(e),
    }
}

/// What comes next in sending a challenge, by the reports on the programs.
pub fn challenge_step(
    platform: Platform,
    challenge: &[u8],
    reports: &Vec<YkReport>,
) -> (r: YkStep<Result<Vec<u8>, CredError>>)
    ensures
        hmac_step_is(r, challenge_next(platform, challenge@, views(reports@))),
        reports@.len() == 0 ==> (r matches YkStep::Run(command) && command.args@.len() > 0
            && command.args@.last()@ == hex_text(challenge@)),
{
    let task = YkTask::Challenge(hex_encode(challenge));
    let step = match platform {
        Platform::Windows => task.next_on_windows(reports),
        Platform::Other => task.next(reports),
    };
    match step {
        YkStep::Run(command) => {
            proof {
                if reports@.len() == 0 {
                    assert(texts(command.args@).last() == hex_text(challenge@));
                    assert(command.args@.last()@ == texts(command.args@)[command.args@.len() - 1]);
                }
            }
            YkStep::Run(command)
        },
        YkStep::Done(Ok(output)) => YkStep::Done(parse_response(output.as_str())),
        YkStep::Done(Err(e)) => YkStep::Done(Err(e)),
    }
}

/// Sends a challenge to the YubiKey and gets the HMAC-SHA1 response.
/// Gives 20 bytes (160-bit HMAC-SHA1 output).
pub fn challenge_response(
    platform: Platform,
    challenge: &[u8],
    outcomes: &Vec<YkOutcome>,
) -> (r: YkStep<Result<Vec<u8>, CredError>>)
    ensures
        hmac_step_is(r, challenge_next(platform, challenge@, reported(outcomes@))),
        outcomes@.len() == 0 ==> (r matches YkStep::Run(command) && command.args@.len() > 0
            && command.args@.last()@ == hex_text(challenge@)),
{
    let all = reports(outcomes);
    assert(views(all@).len() == all@.len() && reported(outcomes@).len() == outcomes@.len());
    challenge_step(platform, challenge, &all)
}

/// Programs slot 2 with an HMAC-SHA1 secret, which must have 20 bytes.
/// WARNING: This overwrites whatever is currently in the slot.
pub fn program_hmac_secret(secret: &[u8], outcomes: &Vec<YkOutcome>) -> (r: YkStep<
    Result<(), CredError>,
>)
    ensures
        secret@.len() != HMAC_LEN ==> (r matches YkStep::Done(Err(e)) && e@
            == ErrorModel::HmacSecretLength),
        secret@.len() == HMAC_LEN ==> (match TaskModel::Program(hex_text(secret@)).next(
            reported(outcomes@),
        ) {
            YkStepModel::Run(c) => r matches YkStep::Run(command) && command@ == c,
            YkStepModel::Done(Ok(_)) => r matches YkStep::Done(Ok(_)),
            YkStepModel::Done(Err(e)) => r matches YkStep::Done(Err(d)) && d@ == e,
        }),
{
    if secret.len() != HMAC_LEN {
        return YkStep::Done(Err(CredError::HmacSecretLength));
    }
    match YkTask::Program(hex_encode(secret)).next(&reports(outcomes)) {
        YkStep::Run(command) => YkStep::Run(command),
        YkStep::Done(Ok(_)) => YkStep::Done(Ok(())),
        YkStep::Done(Err(e)) => YkStep::Done(Err(e)),
    }
}

/// Deletes the OTP slot configuration.
pub fn delete_slot(outcomes: &Vec<YkOutcome>) -> (r: YkStep<Result<(), CredError>>)
    ensures
        match TaskModel::Delete.next(reported(outcomes@)) {
            YkStepModel::Run(c) => r matches YkStep::Run(command) && command@ == c,
            YkStepModel::Done(Ok(_)) => r matches YkStep::Done(Ok(_)),
            YkStepModel::Done(Err(e)) => r matches YkStep::Done(Err(d)) && d@ == e,
        },
{
    match YkTask::Delete.next(&reports(outcomes)) {
        YkStep::Run(command) => YkStep::Run(command),
        YkStep::Done(Ok(_)) => YkStep::Done(Ok(())),
        YkStep::Done(Err(e)) => YkStep::Done(Err(e)),
    }
}

/// Gets YubiKey device info (serial, firmware, etc.)
pub fn device_info(outcomes: &Vec<YkOutcome>) -> (r: YkStep<Result<String, CredError>>)
    ensures
        text_step_is(r, TaskModel::Info.next(reported(outcomes@))),
{
    YkTask::Info.next(&reports(outcomes))
}

/// The challenge that slot 2 is tried with: zero bytes.
pub open spec fn probe() -> Seq<u8> {
    Seq::new(CHALLENGE_LEN as nat, |i: int| 0u8)
}

/// The challenge that slot 2 is tried with.
fn probe_bytes() -> (r: Vec<u8>)
    ensures
        r@ == probe(),
{
    let mut r: Vec<u8> = Vec::new();
    while r.len() < CHALLENGE_LEN
        invariant
            r@.len() <= CHALLENGE_LEN,
            forall|j: int| 0 <= j < r@.len() ==> #[trigger] r@[j] == 0u8,
        decreases CHALLENGE_LEN - r@.len(),
    {
        r.push(0u8);
    }
    assert(r@ =~= probe());
    r
}

/// How many programs it took until the device told about itself.
pub open spec fn info_programs(reports: Seq<ReportModel>) -> int {
    if TaskModel::Info.attempt(YkTool::Ykman, reports[0]) is Ok {
        1
    } else {
        2
    }
}

/// What comes next in finding out whether a YubiKey is available: it is to tell
/// about itself, and after that to answer a challenge from slot 2.
pub open spec fn availability(platform: Platform, reports: Seq<ReportModel>) -> YkStepModel {
    match TaskModel::Info.next(reports) {
        YkStepModel::Done(Ok(_)) => challenge_next(
            platform,
            probe(),
            reports.skip(info_programs(reports)),
        ),
        other => other,
    }
}

/// The step is the one modelled: a program to run, or whether all came out well,
/// the last output being an HMAC.
pub open spec fn availability_step_is(step: YkStep<bool>, model: YkStepModel) -> bool {
    match model {
        YkStepModel::Run(c) => step matches YkStep::Run(command) && command@ == c,
        YkStepModel::Done(Ok(output)) => step matches YkStep::Done(b) && b == (response_of(
            output,
        ) is Ok),
        YkStepModel::Done(Err(_)) => step matches YkStep::Done(b) && !b,
    }
}

/// Checks if a YubiKey is present and slot 2 is programmed: whether the device
/// tells about itself, and slot 2 answers a challenge.
pub fn is_available(platform: Platform, outcomes: &Vec<YkOutcome>) -> (r: YkStep<bool>)
    ensures
        availability_step_is(r, availability(platform, reported(outcomes@))),
{
    let all = reports(outcomes);
    match YkTask::Info.next(&all) {
        YkStep::Run(command) => YkStep::Run(command),
        YkStep::Done(Err(_)) => YkStep::Done(false),
        YkStep::Done(Ok(_)) => {
            assert(views(all@)[0] == all@[0]@);
            let programs: usize = match YkTask::Info.attempt(YkTool::Ykman, &all[0]) {
                Ok(_) => 1,
                Err(_) => 2,
            };
            let rest = reports_after(outcomes, programs);
            let probe = probe_bytes();
            match challenge_step(platform, probe.as_slice(), &rest) {
                YkStep::Run(command) => YkStep::Run(command),
                YkStep::Done(r) => YkStep::Done(r.is_ok()),
            }
        },
    }
}

// ---------------------------------------------------------------------------
// The challenge
// ---------------------------------------------------------------------------

/// What the file with the challenge was found to be.
pub enum ChallengeFile {
    Missing,
    Unreadable,
    Contents(Vec<u8>),
}

/// The challenge to use.
pub enum ChallengePlan {
    /// The one in the file.
    Keep(Vec<u8>),
    /// A new one, to be written to the file first.
    Save(Vec<u8>),
}

/// The challenge that the file holds, if it holds one.
pub open spec fn kept_challenge(file: ChallengeFile) -> Option<Seq<u8>> {
    match file {
        ChallengeFile::Contents(data) => if data@.len() == CHALLENGE_LEN {
            Some(data@)
        } else {
            None
        },
        _ => None,
    }
}

/// Whether a new challenge is needed.
fn needs_fresh(file: &ChallengeFile) -> (r: bool)
    ensures
        r == (!(*file is Unreadable) && kept_challenge(*file) is None),
{
    match file {
        ChallengeFile::Missing => true,
        ChallengeFile::Unreadable => false,
        ChallengeFile::Contents(data) => data.len() != CHALLENGE_LEN,
    }
}

/// The challenge to use, with `fresh` where the file holds none. There may be no
/// fresh one.
pub fn plan_challenge(file: ChallengeFile, fresh: Option<Vec<u8>>) -> (r: Result<
    ChallengePlan,
    CredError,
>)
    ensures
        match r {
            Ok(ChallengePlan::Keep(data)) => kept_challenge(file) == Some(data@),
            Ok(ChallengePlan::Save(data)) => !(file is Unreadable) && kept_challenge(file) is None
                && fresh == Some(data),
            Err(CredError::ChallengeUnreadable) => file is Unreadable,
            Err(e) => !(file is Unreadable) && kept_challenge(file) is None && fresh is None && e@
                == ErrorModel::NoRandomBytes,
        },
{
    match file {
        ChallengeFile::Unreadable => {
            return Err(CredError::ChallengeUnreadable);
        },
        ChallengeFile::Missing => {},
        ChallengeFile::Contents(data) => {
            if data.len() == CHALLENGE_LEN {
                return Ok(ChallengePlan::Keep(data));
            }
        },
    }
    match fresh {
        Some(data) => Ok(ChallengePlan::Save(data)),
        None => Err(CredError::NoRandomBytes),
    }
}

/// Gets the challenge for key derivation: the one in the file, or a new one of
/// random bytes where the file is missing or holds something else. Whether there
/// are random bytes is up to the operating system.
pub fn get_or_create_challenge(file: ChallengeFile) -> (r: Result<ChallengePlan, CredError>)
    ensures
        match r {
            Ok(ChallengePlan::Keep(data)) => kept_challenge(file) == Some(data@),
            Ok(ChallengePlan::Save(data)) => !(file is Unreadable) && kept_challenge(file) is None
                && data@.len() == CHALLENGE_LEN,
            Err(CredError::ChallengeUnreadable) => file is Unreadable,
            Err(e) => !(file is Unreadable) && kept_challenge(file) is None && e@
                == ErrorModel::NoRandomBytes,
        },
{
    let fresh = if needs_fresh(&file) {
        match os_random_bytes(CHALLENGE_LEN) {
            Ok(bytes) => Some(bytes),
            Err(_) => None,
        }
    } else {
        None
    };
    plan_challenge(file, fresh)
}

/// Where the configuration lies, by the environment variables `XDG_CONFIG_HOME`
/// and `HOME`.
pub open spec fn config_place(xdg: Option<Seq<char>>, home: Option<Seq<char>>) -> PathModel {
    match xdg {
        Some(dir) => PathModel { base: dir, rest: seq!["cred"@] },
        None => match home {
            Some(dir) => PathModel { base: dir, rest: seq![".config"@, "cred"@] },
            None => PathModel { base: "."@, rest: seq!["cred"@] },
        },
    }
}

/// Config directory: ~/.config/cred/
pub fn config_dir(xdg_config_home: Option<String>, home: Option<String>) -> (r: PathParts)
    ensures
        r@ == config_place(opt_text(xdg_config_home), opt_text(home)),
{
    let mut rest: Vec<String> = Vec::new();
    let base = match xdg_config_home {
        Some(dir) => dir,
        None => match home {
            Some(dir) => {
                rest.push(".config".to_owned());
                dir
            },
            None => ".".to_owned(),
        },
    };
    rest.push("cred".to_owned());
    assert(texts(rest@) =~= config_place(opt_text(xdg_config_home), opt_text(home)).rest);
    PathParts { base, rest }
}

// ---------------------------------------------------------------------------
// Laws
// ---------------------------------------------------------------------------

/// An operation runs at most two programs, the second only where the first
/// failed, and it fails only where both did.
pub proof fn law_second_program_after_failure(task: TaskModel, reports: Seq<ReportModel>)
    ensures
        task.next(reports) is Run <==> reports.len() == 0 || (reports.len() == 1 && task.attempt(
            YkTool::Ykman,
            reports[0],
        ) is Err),
        task.next(reports) matches YkStepModel::Done(d) ==> (d is Err <==> task.attempt(
            YkTool::Ykman,
            reports[0],
        ) is Err && task.attempt(YkTool::Python, reports[1]) is Err),
{
}

/// On Windows a challenge takes one program, and fails only where that did.
pub proof fn law_one_program_on_windows(task: TaskModel, reports: Seq<ReportModel>)
    ensures
        task.next_on_windows(reports) is Run <==> reports.len() == 0,
        task.next_on_windows(reports) matches YkStepModel::Done(d) ==> (d is Err <==> task.attempt(
            YkTool::YkChallenge,
            reports[0],
        ) is Err),
{
}

/// A YubiKey is available exactly where it told about itself and slot 2 answered
/// the challenge sent after that with an HMAC; where it did not tell about
/// itself, it is not.
pub proof fn law_available_means_present_and_programmed(
    platform: Platform,
    reports: Seq<ReportModel>,
    step: YkStep<bool>,
)
    requires
        availability_step_is(step, availability(platform, reports)),
        step is Done,
    ensures
        ({
            let told = TaskModel::Info.next(reports) matches YkStepModel::Done(Ok(_));
            let answer = challenge_next(
                platform,
                probe(),
                reports.skip(info_programs(reports)),
            );
            &&& step == YkStep::Done(true) <==> told && (answer matches YkStepModel::Done(Ok(output))
                && response_of(output) is Ok)
            &&& !told ==> step == YkStep::Done(false)
        }),
{
}

/// Once an operation is over, it stays as it came out.
pub proof fn law_settled_stays_settled(
    task: TaskModel,
    reports: Seq<ReportModel>,
    more: Seq<ReportModel>,
)
    requires
        task.next(reports) is Done,
    ensures
        task.next(reports + more) == task.next(reports),
{
    assert((reports + more)[0] == reports[0]);
    if reports.len() > 1 {
        assert((reports + more)[1] == reports[1]);
    }
}

/// The HMAC is read from exactly those outputs that are, between white space,
/// the hexadecimal of 20 bytes.
pub proof fn law_response_is_hex_of_20_bytes(output: Seq<char>, response: Seq<u8>)
    ensures
        response_of(output) == Ok::<Seq<u8>, ErrorModel>(response) <==> hex_bytes(trimmed(output))
            == Some(response) && response.len() == 20,
        response.len() == 20 && trimmed(output) == hex_text(response) ==> response_of(output)
            == Ok::<Seq<u8>, ErrorModel>(response),
{
    law_hex_round_trip(response);
}

/// Where a directory for configuration or a home directory is set, and no other
/// place is named for it, the database lies in the configuration directory.
pub proof fn law_database_lies_with_the_challenge(env: EnvModel)
    requires
        env.db_path is None,
        env.xdg_config_home is Some || env.home is Some,
    ensures
        ({
            let config = config_place(env.xdg_config_home, env.home);
            env.database() == PathModel { rest: config.rest.push("vault.db"@), ..config }
        }),
{
    let config = config_place(env.xdg_config_home, env.home);
    assert(env.database().rest =~= config.rest.push("vault.db"@));
}

/// A new challenge that was written to the file is kept from then on.
pub proof fn law_saved_challenge_is_kept(data: Vec<u8>)
    requires
        data@.len() == CHALLENGE_LEN,
    ensures
        kept_challenge(ChallengeFile::Contents(data)) == Some(data@),
{
}

} // verus!
