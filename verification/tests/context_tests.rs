//! Tests for the capability registry: registration, lookup, shape checking,
//! and dispatch.

use tosic_plugin::context::{check_args, HostCapability, HostContext};
use tosic_plugin::convert::{encode_output, extract_args1, extract_args2};
use tosic_plugin::error::PluginError;
use tosic_plugin::host_function::{HostFunction, HostFunctionType};
use tosic_plugin::value::{Value, ValueKind};

/// The capabilities these tests register: a closed enum, one variant per
/// native callable.
#[derive(Clone)]
enum TestFn {
    Add,
    Negate,
    Greet,
    ConstantOne,
}

impl HostFunction for TestFn {
    fn call(&self, args: &Vec<Value>) -> Result<Value, PluginError> {
        match self {
            TestFn::Add => {
                // The verified marshaling path: typed extraction in
                // declared order, then the result encoder.
                let (a, b): (i64, i64) = extract_args2(args)?;
                encode_output(a + b)
            }
            TestFn::Negate => {
                let a: bool = extract_args1(args)?;
                encode_output(!a)
            }
            TestFn::Greet => {
                let name = args[0].as_str().ok_or(PluginError::InvalidArgumentType)?;
                Ok(Value::String(format!("Hello, {}!", name)))
            }
            TestFn::ConstantOne => Ok(Value::Int(1)),
        }
    }
}

#[test]
fn call_function_scenario() {
    let mut ctx: HostContext<TestFn> = HostContext::new();
    ctx.register("add".to_string(), vec![ValueKind::Int, ValueKind::Int], TestFn::Add);

    let ok = ctx.call_function("add", &vec![Value::Int(2), Value::Int(3)]);
    assert_eq!(ok, Ok(Value::Int(5)));

    let too_few = ctx.call_function("add", &vec![Value::Int(2)]);
    assert_eq!(too_few, Err(PluginError::InvalidArgumentType));

    let missing = ctx.call_function("missing", &vec![]);
    assert_eq!(missing, Err(PluginError::HostFunctionNotFound("missing".to_string())));
}

#[test]
fn ill_typed_argument_at_any_position() {
    let mut ctx: HostContext<TestFn> = HostContext::new();
    ctx.register("add".to_string(), vec![ValueKind::Int, ValueKind::Int], TestFn::Add);
    assert_eq!(
        ctx.call_function("add", &vec![Value::Bool(true), Value::Int(3)]),
        Err(PluginError::InvalidArgumentType)
    );
    assert_eq!(
        ctx.call_function("add", &vec![Value::Int(3), Value::String("x".to_string())]),
        Err(PluginError::InvalidArgumentType)
    );
    assert_eq!(
        ctx.call_function("add", &vec![Value::Int(1), Value::Int(2), Value::Int(3)]),
        Err(PluginError::InvalidArgumentType)
    );
    // Exactly the declared arity and kinds succeeds.
    assert_eq!(ctx.call_function("add", &vec![Value::Int(1), Value::Int(2)]), Ok(Value::Int(3)));
}

#[test]
fn zero_arity_capability() {
    let mut ctx: HostContext<TestFn> = HostContext::new();
    ctx.register("one".to_string(), vec![], TestFn::ConstantOne);
    assert_eq!(ctx.call_function("one", &vec![]), Ok(Value::Int(1)));
    assert_eq!(
        ctx.call_function("one", &vec![Value::Null]),
        Err(PluginError::InvalidArgumentType)
    );
}

#[test]
fn register_overwrites_last_write_wins() {
    let mut ctx: HostContext<TestFn> = HostContext::new();
    ctx.register("f".to_string(), vec![ValueKind::Int, ValueKind::Int], TestFn::Add);
    ctx.register("f".to_string(), vec![ValueKind::Bool], TestFn::Negate);
    assert_eq!(ctx.capability_count(), 1);
    assert_eq!(ctx.call_function("f", &vec![Value::Bool(true)]), Ok(Value::Bool(false)));
    assert_eq!(
        ctx.call_function("f", &vec![Value::Int(1), Value::Int(2)]),
        Err(PluginError::InvalidArgumentType)
    );
}

#[test]
fn names_and_kinds_are_tracked() {
    let mut ctx: HostContext<TestFn> = HostContext::new();
    ctx.register("add".to_string(), vec![ValueKind::Int, ValueKind::Int], TestFn::Add);
    ctx.register_async("greet".to_string(), vec![ValueKind::String], TestFn::Greet);

    assert!(ctx.has_function("add"));
    assert!(ctx.has_function("greet"));
    assert!(!ctx.has_function("absent"));

    assert!(ctx.has_sync_function("add"));
    assert!(!ctx.has_async_function("add"));
    assert!(ctx.has_async_function("greet"));
    assert!(!ctx.has_sync_function("greet"));

    assert_eq!(ctx.function_type("add"), Some(HostFunctionType::Sync));
    assert_eq!(ctx.function_type("greet"), Some(HostFunctionType::Async));
    assert_eq!(ctx.function_type("absent"), None);

    assert_eq!(ctx.function_names(), vec!["add".to_string(), "greet".to_string()]);
    assert_eq!(ctx.sync_function_names(), vec!["add".to_string()]);
    assert_eq!(ctx.async_function_names(), vec!["greet".to_string()]);
    assert_eq!(ctx.functions().len(), 2);
    assert_eq!(ctx.functions()[0].name().as_str(), "add");
}

#[test]
fn async_capability_dispatches_uniformly() {
    let mut ctx: HostContext<TestFn> = HostContext::new();
    ctx.register_async("greet".to_string(), vec![ValueKind::String], TestFn::Greet);
    assert_eq!(
        ctx.call_function("greet", &vec![Value::String("world".to_string())]),
        Ok(Value::String("Hello, world!".to_string()))
    );
}

#[test]
fn check_args_matches_kinds() {
    let params = vec![ValueKind::Int, ValueKind::String];
    assert!(check_args(&params, &vec![Value::Int(0), Value::String("s".to_string())]));
    assert!(!check_args(&params, &vec![Value::Int(0)]));
    assert!(!check_args(&params, &vec![Value::String("s".to_string()), Value::Int(0)]));
    assert!(check_args(&vec![], &vec![]));
}

#[test]
fn test_registry() {
    let context: HostContext<TestFn> = HostContext::with_capabilities(vec![
        HostCapability::new_sync(
            "test_sync_fn".to_string(),
            vec![ValueKind::Int, ValueKind::Int],
            TestFn::Add,
        ),
        HostCapability::new_async(
            "test_async_fn".to_string(),
            vec![ValueKind::Int, ValueKind::Int],
            TestFn::Add,
        ),
    ]);
    assert!(context.has_function("test_sync_fn"));
    assert!(context.has_sync_function("test_sync_fn"));

    let res = context.call_function("test_sync_fn", &vec![Value::Int(1), Value::Int(2)]).unwrap();
    assert_eq!(res.as_int().unwrap(), 3);

    assert!(context.has_function("test_async_fn"));
    assert!(context.has_async_function("test_async_fn"));

    let res = context.call_function("test_async_fn", &vec![Value::Int(3), Value::Int(4)]).unwrap();
    assert_eq!(res.as_int().unwrap(), 7);
}

#[test]
fn seeding_later_entries_win() {
    let context: HostContext<TestFn> = HostContext::with_capabilities(vec![
        HostCapability::new_sync("f".to_string(), vec![ValueKind::Int, ValueKind::Int], TestFn::Add),
        HostCapability::new_sync("f".to_string(), vec![ValueKind::Bool], TestFn::Negate),
    ]);
    assert_eq!(context.capability_count(), 1);
    assert_eq!(context.call_function("f", &vec![Value::Bool(false)]), Ok(Value::Bool(true)));
}

#[test]
fn clone_keeps_registrations() {
    let mut ctx: HostContext<TestFn> = HostContext::new();
    ctx.register("add".to_string(), vec![ValueKind::Int, ValueKind::Int], TestFn::Add);
    ctx.register_async("greet".to_string(), vec![ValueKind::String], TestFn::Greet);
    let copy = ctx.clone();
    assert_eq!(copy.function_names(), ctx.function_names());
    assert_eq!(copy.function_type("add"), Some(HostFunctionType::Sync));
    assert_eq!(copy.function_type("greet"), Some(HostFunctionType::Async));
    assert_eq!(copy.call_function("add", &vec![Value::Int(4), Value::Int(5)]), Ok(Value::Int(9)));
}
