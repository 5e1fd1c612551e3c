//! The build pipeline's decision core. The pipeline itself alternates
//! filesystem and subprocess work with decisions; here every decision
//! is a pure step of a small state machine, and each step tells the
//! surrounding driver exactly which piece of outside work to do next.
//! The driver performs the action and feeds the observed event back
//! in; every choice the pipeline makes is therefore verified for every
//! possible observation.

use vstd::prelude::*;

use crate::projects::BuildOutcome;

verus! {

/// Wall-clock bound on one run of the external build tool, in seconds.
pub const BUILD_TIMEOUT_SECS: u64 = 300;

/// The decimal digit characters.
pub open spec fn digit_char(d: int) -> char {
    if d == 0 {
        '0'
    } else if d == 1 {
        '1'
    } else if d == 2 {
        '2'
    } else if d == 3 {
        '3'
    } else if d == 4 {
        '4'
    } else if d == 5 {
        '5'
    } else if d == 6 {
        '6'
    } else if d == 7 {
        '7'
    } else if d == 8 {
        '8'
    } else {
        '9'
    }
}

/// The usual decimal rendering of a nonnegative number, no sign and no
/// leading zero except for zero itself.
pub open spec fn spec_decimal(n: int) -> Seq<char>
    decreases n,
{
    if n < 10 {
        seq![digit_char(n)]
    } else {
        spec_decimal(n / 10) + seq![digit_char(n % 10)]
    }
}

/// The workspace directory a project builds in, keyed by its
/// identifier alone, so a re-run lands on the same path.
pub open spec fn spec_workspace_path(project_id: int) -> Seq<char> {
    "builds/"@ + spec_decimal(project_id)
}

/// The entry-point file the submitted source is written to.
pub open spec fn spec_entry_path(project_id: int) -> Seq<char> {
    spec_workspace_path(project_id) + "/main.py"@
}

/// The deploy methods the pipeline knows how to build.
pub open spec fn spec_deploy_supported(method: Seq<char>) -> bool {
    method == "pygbag"@
}

/// Decides whether a deploy method tag is one the pipeline supports.
pub fn deploy_supported(method: &str) -> (r: bool)
    ensures
        r == spec_deploy_supported(method@),
{
    let owned: String = method.to_owned();
    owned == String::from_str("pygbag")
}

/// One decimal digit as a borrowed string.
fn digit_str(d: u64) -> (r: &'static str)
    requires
        d < 10,
    ensures
        r@ == seq![digit_char(d as int)],
{
    if d == 0 {
        proof {
            reveal_strlit("0");
        }
        "0"
    } else if d == 1 {
        proof {
            reveal_strlit("1");
        }
        "1"
    } else if d == 2 {
        proof {
            reveal_strlit("2");
        }
        "2"
    } else if d == 3 {
        proof {
            reveal_strlit("3");
        }
        "3"
    } else if d == 4 {
        proof {
            reveal_strlit("4");
        }
        "4"
    } else if d == 5 {
        proof {
            reveal_strlit("5");
        }
        "5"
    } else if d == 6 {
        proof {
            reveal_strlit("6");
        }
        "6"
    } else if d == 7 {
        proof {
            reveal_strlit("7");
        }
        "7"
    } else if d == 8 {
        proof {
            reveal_strlit("8");
        }
        "8"
    } else {
        proof {
            reveal_strlit("9");
        }
        "9"
    }
}

/// Appends the decimal rendering of `n` to the string.
fn append_decimal(s: &mut String, n: u64)
    ensures
        final(s)@ == old(s)@ + spec_decimal(n as int),
    decreases n,
{
    if n >= 10 {
        append_decimal(s, n / 10);
        s.append(digit_str(n % 10));
        proof {
            assert(final(s)@ =~= old(s)@ + spec_decimal(n as int));
        }
    } else {
        s.append(digit_str(n));
        proof {
            assert(final(s)@ =~= old(s)@ + spec_decimal(n as int));
        }
    }
}

/// Computes the project's workspace path.
pub fn workspace_path(project_id: u64) -> (r: String)
    ensures
        r@ == spec_workspace_path(project_id as int),
{
    let mut s = String::from_str("builds/");
    append_decimal(&mut s, project_id);
    s
}

/// Computes the path of the entry-point file inside the workspace.
pub fn entry_path(project_id: u64) -> (r: String)
    ensures
        r@ == spec_entry_path(project_id as int),
{
    let mut s = workspace_path(project_id);
    s.append("/main.py");
    s
}

/// Which stage of the build the job is in. `Done` is terminal.
pub enum BuildPhase {
    /// Waiting for the workspace to be cleared and recreated.
    Preparing,
    /// Waiting for the entry point to be written.
    Writing,
    /// Waiting for the external build tool to finish or time out.
    Running,
    /// Finished, one way or the other.
    Done { success: bool },
}

/// One detached build job.
pub struct BuildJob {
    pub project_id: u64,
    pub source: String,
    pub phase: BuildPhase,
}

/// What the driver observed while carrying out the last action.
pub enum BuildEvent {
    /// The workspace was removed (if present) and recreated, empty.
    WorkspaceReady,
    /// The filesystem refused; the message says why.
    WorkspaceFailed { message: String },
    /// The submitted source now sits at the entry-point path.
    EntryPointWritten,
    /// The filesystem refused; the message says why.
    EntryPointFailed { message: String },
    /// The tool exited within the timeout. `exit_ok` is a zero exit
    /// status, `output_present` whether the expected output directory
    /// exists, `log` the captured stdout and stderr.
    ToolExited { exit_ok: bool, output_present: bool, log: String },
    /// The timeout elapsed with the tool still running.
    ToolTimedOut,
}

/// The next piece of outside work the driver must do.
pub enum BuildAction {
    /// Remove this directory entirely if it exists, then create it
    /// fresh, so nothing of a prior attempt survives.
    CleanWorkspace { path: String },
    /// Write the contents to this path.
    WriteEntryPoint { path: String, contents: String },
    /// Run the external build tool on the workspace, bounded by the
    /// timeout; capture its output.
    RunTool { workspace: String, timeout_secs: u64 },
    /// Terminate the still-running tool process so it cannot linger,
    /// then persist the failure.
    KillToolAndRecord { outcome: BuildOutcome },
    /// Persist the outcome on the project row.
    Record { outcome: BuildOutcome },
    /// Nothing to do; the job is already done or the event was out of
    /// order.
    Idle,
}

/// Starts a build: an unsupported deploy method fails the job on the
/// spot, with nothing to do but record the failure, before any
/// filesystem or process work; a supported one asks first for a clean
/// workspace at the path keyed by the project identifier.
pub fn start_build(project_id: u64, deploy_method: &str, source: String) -> (r: (
    BuildJob,
    BuildAction,
))
    ensures
        r.0.project_id == project_id,
        r.0.source == source,
        !spec_deploy_supported(deploy_method@) ==> {
            &&& r.0.phase == (BuildPhase::Done { success: false })
            &&& r.1 matches BuildAction::Record { outcome: BuildOutcome::Failure { log } }
                && log@ == "unsupported deploy method"@
        },
        spec_deploy_supported(deploy_method@) ==> {
            &&& r.0.phase is Preparing
            &&& r.1 matches BuildAction::CleanWorkspace { path } && path@ == spec_workspace_path(
                project_id as int,
            )
        },
{
    if !deploy_supported(deploy_method) {
        let log = String::from_str("unsupported deploy method");
        (
            BuildJob { project_id, source, phase: BuildPhase::Done { success: false } },
            BuildAction::Record { outcome: BuildOutcome::Failure { log } },
        )
    } else {
        let path = workspace_path(project_id);
        (
            BuildJob { project_id, source, phase: BuildPhase::Preparing },
            BuildAction::CleanWorkspace { path },
        )
    }
}

/// One decision step of the pipeline: from the current job and the
/// observed event to the next job and the next piece of outside work.
/// A job that is done never moves again; a timed-out tool is always
/// terminated before its failure is recorded; a zero exit status
/// without the expected output directory still fails.
pub fn step_build(job: BuildJob, event: BuildEvent) -> (r: (BuildJob, BuildAction))
    ensures
        r.0.project_id == job.project_id,
        r.0.source == job.source,
        job.phase matches BuildPhase::Done { success } ==> r.0 == job && r.1 is Idle,
        job.phase is Preparing ==> match event {
            BuildEvent::WorkspaceReady => {
                &&& r.0.phase is Writing
                &&& r.1 matches BuildAction::WriteEntryPoint { path, contents } && path@
                    == spec_entry_path(job.project_id as int) && contents == job.source
            },
            BuildEvent::WorkspaceFailed { message } => {
                &&& r.0.phase == (BuildPhase::Done { success: false })
                &&& r.1 == (BuildAction::Record {
                    outcome: BuildOutcome::Failure { log: message },
                })
            },
            _ => r.0 == job && r.1 is Idle,
        },
        job.phase is Writing ==> match event {
            BuildEvent::EntryPointWritten => {
                &&& r.0.phase is Running
                &&& r.1 matches BuildAction::RunTool { workspace, timeout_secs } && workspace@
                    == spec_workspace_path(job.project_id as int) && timeout_secs
                    == BUILD_TIMEOUT_SECS
            },
            BuildEvent::EntryPointFailed { message } => {
                &&& r.0.phase == (BuildPhase::Done { success: false })
                &&& r.1 == (BuildAction::Record {
                    outcome: BuildOutcome::Failure { log: message },
                })
            },
            _ => r.0 == job && r.1 is Idle,
        },
        job.phase is Running ==> match event {
            BuildEvent::ToolExited { exit_ok, output_present, log } => {
                &&& (exit_ok && output_present) ==> {
                    &&& r.0.phase == (BuildPhase::Done { success: true })
                    &&& r.1 == (BuildAction::Record { outcome: BuildOutcome::Success })
                }
                &&& !exit_ok ==> {
                    &&& r.0.phase == (BuildPhase::Done { success: false })
                    &&& r.1 == (BuildAction::Record {
                        outcome: BuildOutcome::Failure { log: log },
                    })
                }
                &&& (exit_ok && !output_present) ==> {
                    &&& r.0.phase == (BuildPhase::Done { success: false })
                    &&& r.1 matches BuildAction::Record {
                        outcome: BuildOutcome::Failure { log: l },
                    } && l@ == "build tool produced no output"@
                }
            },
            BuildEvent::ToolTimedOut => {
                &&& r.0.phase == (BuildPhase::Done { success: false })
                &&& r.1 matches BuildAction::KillToolAndRecord {
                    outcome: BuildOutcome::Failure { log: l },
                } && l@ == "build timed out"@
            },
            _ => r.0 == job && r.1 is Idle,
        },
{
    let BuildJob { project_id, source, phase } = job;
    match phase {
        BuildPhase::Done { success } => (
            BuildJob { project_id, source, phase: BuildPhase::Done { success } },
            BuildAction::Idle,
        ),
        BuildPhase::Preparing => match event {
            BuildEvent::WorkspaceReady => {
                let path = entry_path(project_id);
                let contents = source.clone();
                (
                    BuildJob { project_id, source, phase: BuildPhase::Writing },
                    BuildAction::WriteEntryPoint { path, contents },
                )
            },
            BuildEvent::WorkspaceFailed { message } => (
                BuildJob { project_id, source, phase: BuildPhase::Done { success: false } },
                BuildAction::Record { outcome: BuildOutcome::Failure { log: message } },
            ),
            _ => (
                BuildJob { project_id, source, phase: BuildPhase::Preparing },
                BuildAction::Idle,
            ),
        },
        BuildPhase::Writing => match event {
            BuildEvent::EntryPointWritten => {
                let workspace = workspace_path(project_id);
                (
                    BuildJob { project_id, source, phase: BuildPhase::Running },
                    BuildAction::RunTool { workspace, timeout_secs: BUILD_TIMEOUT_SECS },
                )
            },
            BuildEvent::EntryPointFailed { message } => (
                BuildJob { project_id, source, phase: BuildPhase::Done { success: false } },
                BuildAction::Record { outcome: BuildOutcome::Failure { log: message } },
            ),
            _ => (
                BuildJob { project_id, source, phase: BuildPhase::Writing },
                BuildAction::Idle,
            ),
        },
        BuildPhase::Running => match event {
            BuildEvent::ToolExited { exit_ok, output_present, log } => {
                if exit_ok && output_present {
                    (
                        BuildJob { project_id, source, phase: BuildPhase::Done { success: true } },
                        BuildAction::Record { outcome: BuildOutcome::Success },
                    )
                } else if !exit_ok {
                    (
                        BuildJob {
                            project_id,
                            source,
                            phase: BuildPhase::Done { success: false },
                        },
                        BuildAction::Record { outcome: BuildOutcome::Failure { log } },
                    )
                } else {
                    let l = String::from_str("build tool produced no output");
                    (
                        BuildJob {
                            project_id,
                            source,
                            phase: BuildPhase::Done { success: false },
                        },
                        BuildAction::Record { outcome: BuildOutcome::Failure { log: l } },
                    )
                }
            },
            BuildEvent::ToolTimedOut => {
                let l = String::from_str("build timed out");
                (
                    BuildJob { project_id, source, phase: BuildPhase::Done { success: false } },
                    BuildAction::KillToolAndRecord { outcome: BuildOutcome::Failure { log: l } },
                )
            },
            _ => (
                BuildJob { project_id, source, phase: BuildPhase::Running },
                BuildAction::Idle,
            ),
        },
    }
}

} // verus!
