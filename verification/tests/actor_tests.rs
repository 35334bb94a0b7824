//! Tests for the thread-confined execution protocol.

use tosic_plugin::actor::{call_outcome, worker_step, RuntimeCommand, WorkerAction};
use tosic_plugin::error::PluginError;
use tosic_plugin::value::Value;

#[test]
fn worker_step_maps_commands() {
    let action = worker_step(RuntimeCommand::Call {
        function_name: "tick".to_string(),
        args: vec![Value::Int(5)],
    });
    match action {
        WorkerAction::Invoke { function_name, args } => {
            assert_eq!(function_name, "tick");
            assert_eq!(args, vec![Value::Int(5)]);
        }
        WorkerAction::Exit => panic!("a call command must become an invocation"),
    }
    assert!(matches!(worker_step(RuntimeCommand::Shutdown), WorkerAction::Exit));
}

#[test]
fn call_outcome_cases() {
    assert_eq!(
        call_outcome(false, None),
        Err(PluginError::RuntimeError("Failed to send command to runtime thread".to_string()))
    );
    assert_eq!(
        call_outcome(true, None),
        Err(PluginError::RuntimeError(
            "Failed to receive response from runtime thread".to_string()
        ))
    );
    assert_eq!(call_outcome(true, Some(Ok(Value::Int(3)))), Ok(Value::Int(3)));
    assert_eq!(
        call_outcome(true, Some(Err(PluginError::InvalidPluginState))),
        Err(PluginError::InvalidPluginState)
    );
}

/// Drives the protocol over a queued command sequence the way a worker
/// loop does: commands apply to the engine strictly in arrival order, and
/// nothing past the shutdown command runs.
#[test]
fn worker_processes_in_order_until_shutdown() {
    let commands = vec![
        RuntimeCommand::Call { function_name: "push".to_string(), args: vec![Value::Int(1)] },
        RuntimeCommand::Call { function_name: "push".to_string(), args: vec![Value::Int(2)] },
        RuntimeCommand::Call { function_name: "push".to_string(), args: vec![Value::Int(3)] },
        RuntimeCommand::Shutdown,
        RuntimeCommand::Call { function_name: "push".to_string(), args: vec![Value::Int(9)] },
    ];

    // A toy "engine" only the worker touches: an accumulator whose value
    // depends on the order of the pushes.
    let mut accumulator: i64 = 0;
    let mut replies: Vec<Result<Value, PluginError>> = Vec::new();
    for command in commands {
        match worker_step(command) {
            WorkerAction::Invoke { function_name, args } => {
                assert_eq!(function_name, "push");
                accumulator = accumulator * 10 + args[0].as_int().unwrap();
                replies.push(Ok(Value::Int(accumulator)));
            }
            WorkerAction::Exit => break,
        }
    }
    // Strict arrival order: 1 then 2 then 3 builds 123, not any
    // permutation, and the command after shutdown never ran.
    assert_eq!(accumulator, 123);
    assert_eq!(replies.len(), 3);
    assert_eq!(replies[2], Ok(Value::Int(123)));

    // A caller whose worker is gone sees the broken channel, not a hang.
    assert_eq!(
        call_outcome(false, None),
        Err(PluginError::RuntimeError("Failed to send command to runtime thread".to_string()))
    );
}
