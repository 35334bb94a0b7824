//! The thread-confined execution protocol.
//!
//! Some engines may only be touched by the thread that created them. Such a
//! backend is driven by one dedicated worker thread per plugin instance,
//! which owns the engine exclusively; callers reach it through an ordered
//! command queue and wait on a private reply channel. The decisions of that
//! protocol — what the worker does with each command, and what a caller
//! makes of each delivery outcome — are functions from values to values and
//! are defined here; the loop that spawns the thread and moves the messages
//! runs outside, around these functions.
//!
//! The queue hands the worker one command at a time, in arrival order, so
//! within one plugin instance calls never reorder and never overlap; there
//! is no cancellation — a command once queued runs to completion whether or
//! not the caller still waits for the reply.

use vstd::prelude::*;

use crate::error::PluginError;
use crate::value::Value;

verus! {

/// One message to the worker thread that owns an engine instance.
pub enum RuntimeCommand {
    /// Invoke a named function with the given arguments and send the result
    /// back on the caller's reply channel.
    Call {
        /// The name of the function to invoke inside the engine.
        function_name: String,
        /// The arguments to pass.
        args: Vec<Value>,
    },
    /// Leave the processing loop; the engine is dropped with the thread.
    Shutdown,
}

/// What the worker does in response to one command.
pub enum WorkerAction {
    /// Run the named function in the engine, synchronously, and reply with
    /// its result.
    Invoke {
        /// The name of the function to invoke inside the engine.
        function_name: String,
        /// The arguments to pass.
        args: Vec<Value>,
    },
    /// Exit the processing loop.
    Exit,
}

/// The worker's decision for one received command: a call command becomes
/// exactly one synchronous invocation of the engine, with the name and the
/// arguments passed through unchanged; a shutdown command ends the loop.
pub fn worker_step(command: RuntimeCommand) -> (action: WorkerAction)
    ensures
        command matches RuntimeCommand::Call { function_name, args } ==> (action matches
            WorkerAction::Invoke { function_name: n, args: a } && n == function_name && a == args),
        command is Shutdown ==> action is Exit,
{
    match command {
        RuntimeCommand::Call { function_name, args } => WorkerAction::Invoke {
            function_name,
            args,
        },
        RuntimeCommand::Shutdown => WorkerAction::Exit,
    }
}

/// What a caller makes of one call attempt through the queue.
///
/// `sent` reports whether the command could be handed to the queue at all,
/// and `reply` what came back on the reply channel — `None` when the
/// channel broke because the worker thread had already terminated, for
/// example after a fatal engine error. Either breakage fails with
/// [`PluginError::RuntimeError`] describing the broken channel, rather than
/// hanging; a delivered reply passes through verbatim.
pub fn call_outcome(sent: bool, reply: Option<Result<Value, PluginError>>) -> (r: Result<
    Value,
    PluginError,
>)
    ensures
        !sent ==> (r matches Err(e) && e matches PluginError::RuntimeError(m) && m@
            == "Failed to send command to runtime thread"@),
        sent && reply is None ==> (r matches Err(e) && e matches PluginError::RuntimeError(m)
            && m@ == "Failed to receive response from runtime thread"@),
        sent ==> (reply matches Some(out) ==> r == out),
{
    if !sent {
        return Err(PluginError::RuntimeError(String::from_str(
            "Failed to send command to runtime thread",
        )));
    }
    match reply {
        None => Err(PluginError::RuntimeError(String::from_str(
            "Failed to receive response from runtime thread",
        ))),
        Some(out) => out,
    }
}

} // verus!
