//! Unit executor: what to run in a working directory, and what to record
//! once the run is over.
//!
//! Running a process is left to the caller. This module says which command
//! to run ([`plan_command`]) and turns what came of it ([`RunOutcome`]) into
//! the record of that unit ([`PlanResult`]).

use vstd::prelude::*;
use vstd::string::StringExecFns;
use vstd::utf8::{decode_utf8, valid_utf8};
use crate::classifier::{checked_plan_changes, plan_change_count};
use crate::text::chars_of;

verus! {

/// How the run of one unit ended.
#[derive(Debug, Clone, Copy, PartialEq, Eq, Structural)]
pub enum PlanStatus {
    /// The command ran and reported success.
    Success,
    /// The command could not be started, or reported failure.
    Failed,
}

/// The record of one unit's run.
#[derive(Debug, Clone, PartialEq, Eq)]
pub struct PlanResult {
    /// The unit's directory.
    pub path: String,
    pub status: PlanStatus,
    /// Number of planned changes; 0 unless the run succeeded.
    pub changes_count: u32,
    /// Captured standard output.
    pub stdout: String,
    /// Captured standard error.
    pub stderr: String,
    /// Where the plan was written; empty unless the run succeeded.
    pub plan_file: String,
    /// Why the run failed; `None` if it succeeded.
    pub error: Option<String>,
}

/// Mathematical view of a [`PlanResult`].
pub struct PlanReport {
    pub path: Seq<char>,
    pub status: PlanStatus,
    pub changes_count: nat,
    pub stdout: Seq<char>,
    pub stderr: Seq<char>,
    pub plan_file: Seq<char>,
    pub error: Option<Seq<char>>,
}

impl PlanReport {
    /// A successful run names its plan file and carries no error; a failed
    /// one counts no changes, names no plan file and says why it failed.
    pub open spec fn wf(self) -> bool {
        match self.status {
            PlanStatus::Success => self.error is None && self.plan_file.len() > 0,
            PlanStatus::Failed => self.changes_count == 0 && self.plan_file.len() == 0
                && self.error is Some,
        }
    }

    /// The run found the deployed state to differ from the configuration.
    pub open spec fn has_drift(self) -> bool {
        self.status == PlanStatus::Success && self.changes_count > 0
    }
}

impl View for PlanResult {
    type V = PlanReport;

    open spec fn view(&self) -> PlanReport {
        PlanReport {
            path: self.path@,
            status: self.status,
            changes_count: self.changes_count as nat,
            stdout: self.stdout@,
            stderr: self.stderr@,
            plan_file: self.plan_file@,
            error: match self.error {
                Some(message) => Some(message@),
                None => None,
            },
        }
    }
}

impl PlanResult {
    /// Well-formedness: see [`PlanReport::wf`].
    pub open spec fn wf(&self) -> bool {
        self@.wf()
    }

    /// Tells whether the run found drift: it succeeded and counted at least
    /// one change.
    pub fn has_drift(&self) -> (drift: bool)
        ensures
            drift == self@.has_drift(),
    {
        match self.status {
            PlanStatus::Success => self.changes_count > 0,
            PlanStatus::Failed => false,
        }
    }
}

/// The plan file of the unit in `dir`: the file `plan.tfplan` in that
/// directory, with `/` as the separator. No separator is added to an empty
/// `dir` or after a `dir` that already ends with one.
pub open spec fn plan_file_of(dir: Seq<char>) -> Seq<char> {
    if dir.len() == 0 || dir.last() == '/' {
        dir + "plan.tfplan"@
    } else {
        dir + "/"@ + "plan.tfplan"@
    }
}

/// The plan file of any unit has a name.
pub proof fn lemma_plan_file_named(dir: Seq<char>)
    ensures
        plan_file_of(dir).len() > 0,
{
    reveal_strlit("plan.tfplan");
}

/// Builds the path of the plan file of the unit in `dir`.
pub fn plan_file_path(dir: &str) -> (file: String)
    ensures
        file@ == plan_file_of(dir@),
{
    let chars = chars_of(dir);
    let mut file = dir.to_owned();
    let len: usize = chars.len();
    if len > 0 && chars[len - 1] != '/' {
        file.append("/");
    }
    file.append("plan.tfplan");
    file
}

/// The command that plans one unit.
#[derive(Debug, PartialEq, Eq)]
pub struct PlanCommand {
    /// Name of the executable.
    pub program: String,
    /// Its arguments, in order.
    pub args: Vec<String>,
    /// The directory to run it in.
    pub current_dir: String,
    /// Whether what the process writes to standard output and to standard
    /// error is to be captured, rather than passed on or thrown away.
    pub capture_output: bool,
}

/// Builds the command that plans the unit in `dir`: `terragrunt plan -out`
/// and the unit's plan file, run in `dir`, with both output streams of the
/// process captured.
pub fn plan_command(dir: &str) -> (command: PlanCommand)
    ensures
        command.program@ == "terragrunt"@,
        command.args@.len() == 3,
        command.args@[0]@ == "plan"@,
        command.args@[1]@ == "-out"@,
        command.args@[2]@ == plan_file_of(dir@),
        command.current_dir@ == dir@,
        command.capture_output,
{
    let mut args: Vec<String> = Vec::new();
    args.push("plan".to_owned());
    args.push("-out".to_owned());
    args.push(plan_file_path(dir));
    PlanCommand {
        program: "terragrunt".to_owned(),
        args,
        current_dir: dir.to_owned(),
        capture_output: true,
    }
}

/// What came of the attempt to run a unit's command.
#[derive(Debug, PartialEq, Eq)]
pub enum RunOutcome {
    /// The process ran to its end.
    Exited {
        /// Whether it reported success.
        success: bool,
        /// The bytes it wrote to standard output.
        stdout: Vec<u8>,
        /// The bytes it wrote to standard error.
        stderr: Vec<u8>,
    },
    /// The process could not be started.
    LaunchFailed {
        /// Description of the failure.
        reason: String,
    },
}

/// The record of a run that reported failure: it carries what was captured,
/// and its error is the captured standard error, verbatim.
pub open spec fn failed_report(dir: Seq<char>, stdout: Seq<char>, stderr: Seq<char>) -> PlanReport {
    PlanReport {
        path: dir,
        status: PlanStatus::Failed,
        changes_count: 0,
        stdout,
        stderr,
        plan_file: Seq::empty(),
        error: Some(stderr),
    }
}

/// The record of a run that reported success: it names the unit's plan file
/// and counts the changes that the standard output announces.
pub open spec fn succeeded_report(
    dir: Seq<char>,
    stdout: Seq<char>,
    stderr: Seq<char>,
) -> PlanReport {
    PlanReport {
        path: dir,
        status: PlanStatus::Success,
        changes_count: plan_change_count(stdout),
        stdout,
        stderr,
        plan_file: plan_file_of(dir),
        error: None,
    }
}

/// The record of a run that could not be started: nothing was captured, and
/// its error describes the failure.
pub open spec fn unlaunched_report(dir: Seq<char>, reason: Seq<char>) -> PlanReport {
    PlanReport {
        path: dir,
        status: PlanStatus::Failed,
        changes_count: 0,
        stdout: Seq::empty(),
        stderr: Seq::empty(),
        plan_file: Seq::empty(),
        error: Some("Failed to execute: "@ + reason),
    }
}

/// Records the run of the unit in `dir` whose process could not be started.
pub fn launch_failure(dir: &str, reason: &str) -> (result: PlanResult)
    ensures
        result@ == unlaunched_report(dir@, reason@),
        result@.error != Some(result@.stderr),
        result.wf(),
{
    let mut message = "Failed to execute: ".to_owned();
    message.append(reason);
    assert(message@.len() > 0) by {
        reveal_strlit("Failed to execute: ");
    }
    PlanResult {
        path: dir.to_owned(),
        status: PlanStatus::Failed,
        changes_count: 0,
        stdout: String::new(),
        stderr: String::new(),
        plan_file: String::new(),
        error: Some(message),
    }
}

/// Records the run of the unit in `dir` whose process ran to its end, from
/// the text it wrote.
///
/// A run that reported failure is recorded as failed. One that reported
/// success is recorded with its change count; there is no record, `None`,
/// exactly when that count does not fit in a `u32`.
pub fn exit_result(dir: &str, success: bool, stdout: String, stderr: String) -> (result: Option<
    PlanResult,
>)
    ensures
        !success ==> (result matches Some(r) && r@ == failed_report(dir@, stdout@, stderr@)),
        success && plan_change_count(stdout@) <= u32::MAX ==> (result matches Some(r) && r@
            == succeeded_report(dir@, stdout@, stderr@)),
        success && plan_change_count(stdout@) > u32::MAX ==> result is None,
        result matches Some(r) ==> r.wf(),
{
    if success {
        match checked_plan_changes(stdout.as_str()) {
            Some(changes_count) => {
                proof {
                    lemma_plan_file_named(dir@);
                }
                Some(
                    PlanResult {
                        path: dir.to_owned(),
                        status: PlanStatus::Success,
                        changes_count,
                        stdout,
                        stderr,
                        plan_file: plan_file_path(dir),
                        error: None,
                    },
                )
            },
            None => None,
        }
    } else {
        let error = stderr.clone();
        Some(
            PlanResult {
                path: dir.to_owned(),
                status: PlanStatus::Failed,
                changes_count: 0,
                stdout,
                stderr,
                plan_file: String::new(),
                error: Some(error),
            },
        )
    }
}

/// The text that `String::from_utf8_lossy` makes of `bytes`.
pub uninterp spec fn lossy_utf8(bytes: Seq<u8>) -> Seq<char>;

/// Calls `String::from_utf8_lossy` of the standard library, which decodes
/// `bytes` as UTF-8 and puts U+FFFD in place of each sequence that is not
/// valid. Nothing here is proved: it is taken from the documentation of
/// that function that its result depends on `bytes` alone, which gives it
/// the name [`lossy_utf8`], and that it is the decoding of `bytes` where
/// they are valid UTF-8.
#[verifier::external_body]
fn decode_lossy(bytes: &[u8]) -> (text: String)
    ensures
        text@ == lossy_utf8(bytes@),
        valid_utf8(bytes@) ==> text@ == decode_utf8(bytes@),
{
    String::from_utf8_lossy(bytes).into_owned()
}

/// The record of the unit in `dir` whose attempt to run came to `outcome`;
/// `None` where [`exit_result`] has none.
pub open spec fn report_of(dir: Seq<char>, outcome: RunOutcome) -> Option<PlanReport> {
    match outcome {
        RunOutcome::Exited { success, stdout, stderr } => {
            let out = lossy_utf8(stdout@);
            let err = lossy_utf8(stderr@);
            if !success {
                Some(failed_report(dir, out, err))
            } else if plan_change_count(out) <= u32::MAX {
                Some(succeeded_report(dir, out, err))
            } else {
                None
            }
        },
        RunOutcome::LaunchFailed { reason } => Some(unlaunched_report(dir, reason@)),
    }
}

/// Records the run of the unit in `dir` from what came of the attempt to run
/// its command. The captured bytes are read as UTF-8, with U+FFFD in place
/// of what is not.
///
/// Every unit gets a record, with one exception: a successful run whose
/// change count does not fit in a `u32` has none.
pub fn plan_result(dir: &str, outcome: RunOutcome) -> (result: Option<PlanResult>)
    ensures
        result matches Some(r) ==> report_of(dir@, outcome) == Some(r@),
        result is None ==> report_of(dir@, outcome) is None,
        result matches Some(r) ==> r.wf(),
        !(outcome matches RunOutcome::Exited { success: true, .. }) ==> result is Some,
{
    match outcome {
        RunOutcome::Exited { success, stdout, stderr } => {
            let out = decode_lossy(stdout.as_slice());
            let err = decode_lossy(stderr.as_slice());
            exit_result(dir, success, out, err)
        },
        RunOutcome::LaunchFailed { reason } => Some(launch_failure(dir, reason.as_str())),
    }
}

} // verus!
