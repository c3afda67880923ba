//! Reducing a finished process to the caller-facing result.
//!
//! The surrounding binary spawns the external tool and reports what the
//! operating system gave back as an [`ExitEvent`]: the spawn failed, the wait
//! failed, or the process exited with a status and captured output. The
//! functions here decide, for every such event, the exact success or failure
//! value the caller receives. They are total: every event has exactly one
//! terminal outcome.

use vstd::prelude::*;
use vstd::string::StringExecFns;
use crate::decode::{decode_lossy, lossy_text_of};

verus! {

/// What the operating system reported for one invocation of the external
/// tool.
pub enum ExitEvent {
    /// The process could not be started; the payload is the OS error text.
    SpawnFailed(String),
    /// The process started but could not be reaped; the payload is the OS
    /// error text.
    WaitFailed(String),
    /// The process ran to completion with the given status and captured
    /// output bytes.
    Exited { success: bool, stdout: Vec<u8>, stderr: Vec<u8> },
}

/// The mathematical content of an [`ExitEvent`]: the same cases over
/// sequences.
pub enum ExitEventModel {
    SpawnFailed(Seq<char>),
    WaitFailed(Seq<char>),
    Exited { success: bool, stdout: Seq<u8>, stderr: Seq<u8> },
}

impl View for ExitEvent {
    type V = ExitEventModel;

    open spec fn view(&self) -> ExitEventModel {
        match self {
            ExitEvent::SpawnFailed(t) => ExitEventModel::SpawnFailed(t@),
            ExitEvent::WaitFailed(t) => ExitEventModel::WaitFailed(t@),
            ExitEvent::Exited { success, stdout, stderr } => ExitEventModel::Exited {
                success: *success,
                stdout: stdout@,
                stderr: stderr@,
            },
        }
    }
}

/// The views of a result's payloads.
pub open spec fn result_view(r: Result<String, String>) -> Result<Seq<char>, Seq<char>> {
    match r {
        Ok(t) => Ok(t@),
        Err(t) => Err(t@),
    }
}

/// The terminal outcome of a buffered (run-to-completion) invocation, for
/// every possible event: captured stdout as text on a zero exit status,
/// captured stderr as text on a non-zero one, and a distinct diagnostic for
/// each of the two OS-level failures.
pub open spec fn run_outcome_spec(ev: ExitEventModel) -> Result<Seq<char>, Seq<char>> {
    match ev {
        ExitEventModel::SpawnFailed(t) => Err("Failed to spawn command: "@ + t),
        ExitEventModel::WaitFailed(t) => Err("Failed to execute command: "@ + t),
        ExitEventModel::Exited { success, stdout, stderr } => if success {
            Ok(lossy_text_of(stdout))
        } else {
            Err(lossy_text_of(stderr))
        },
    }
}

/// The terminal outcome of a streaming invocation, for every possible event.
/// The captured stdout was already delivered line by line, so success yields
/// a fixed acknowledgement rather than the text; failures are as in
/// [`run_outcome_spec`], with diagnostics naming the streaming mode.
pub open spec fn streaming_outcome_spec(ev: ExitEventModel) -> Result<Seq<char>, Seq<char>> {
    match ev {
        ExitEventModel::SpawnFailed(t) => Err("Failed to spawn streaming command: "@ + t),
        ExitEventModel::WaitFailed(t) => Err("Failed to complete streaming command: "@ + t),
        ExitEventModel::Exited { success, stdout, stderr } => if success {
            Ok("Command completed successfully"@)
        } else {
            Err(lossy_text_of(stderr))
        },
    }
}

/// Reduces a buffered invocation's event to the caller's result: `Ok` with
/// decoded stdout exactly when the process exited with status zero, `Err`
/// with decoded stderr on a non-zero status, and `Err` with a mode-specific
/// diagnostic on a spawn or wait failure.
pub fn run_outcome(ev: ExitEvent) -> (r: Result<String, String>)
    ensures
        result_view(r) == run_outcome_spec(ev@),
{
    match ev {
        ExitEvent::SpawnFailed(t) => Err("Failed to spawn command: ".to_owned().concat(t.as_str())),
        ExitEvent::WaitFailed(t) => Err("Failed to execute command: ".to_owned().concat(t.as_str())),
        ExitEvent::Exited { success, stdout, stderr } => if success {
            Ok(decode_lossy(stdout.as_slice()))
        } else {
            Err(decode_lossy(stderr.as_slice()))
        },
    }
}

/// Reduces a streaming invocation's event to the caller's result: a fixed
/// acknowledgement exactly when the process exited with status zero, and the
/// same failure mapping as [`run_outcome`] otherwise, with diagnostics naming
/// the streaming mode.
pub fn streaming_outcome(ev: ExitEvent) -> (r: Result<String, String>)
    ensures
        result_view(r) == streaming_outcome_spec(ev@),
{
    match ev {
        ExitEvent::SpawnFailed(t) => Err(
            "Failed to spawn streaming command: ".to_owned().concat(t.as_str()),
        ),
        ExitEvent::WaitFailed(t) => Err(
            "Failed to complete streaming command: ".to_owned().concat(t.as_str()),
        ),
        ExitEvent::Exited { success, stdout, stderr } => if success {
            Ok("Command completed successfully".to_owned())
        } else {
            Err(decode_lossy(stderr.as_slice()))
        },
    }
}

/// Law: the run-to-completion outcome is a function of the event's content
/// alone. Two invocations whose processes report identical content — as a
/// deterministic external program does for identical command and arguments —
/// receive identical results, whatever distinct buffers carried that content.
pub proof fn lemma_run_outcome_deterministic(a: ExitEvent, b: ExitEvent)
    requires
        a@ == b@,
    ensures
        run_outcome_spec(a@) == run_outcome_spec(b@),
{
}

} // verus!
