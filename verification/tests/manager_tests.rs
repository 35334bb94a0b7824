//! Tests for the plugin managers: identifier lifecycle, routing, and
//! runtime selection.

use tosic_plugin::context::HostContext;
use tosic_plugin::error::PluginError;
use tosic_plugin::host_function::HostFunction;
use tosic_plugin::manager::{PluginId, PluginManager};
use tosic_plugin::managers::multi::MultiRuntimeManager;
use tosic_plugin::managers::single::SingleRuntimeManager;
use tosic_plugin::runtime::{Plugin, Runtime};
use tosic_plugin::source::PluginSource;
use tosic_plugin::value::Value;

/// A do-nothing capability type for contexts these tests pass around.
struct NoCap;

impl HostFunction for NoCap {
    fn call(&self, _args: &Vec<Value>) -> Result<Value, PluginError> {
        Ok(Value::Null)
    }
}

/// A plugin handle recording which runtime produced it.
struct MockPlugin {
    label: String,
    calls: u64,
}

impl Plugin for MockPlugin {
    fn name(&self) -> Option<&str> {
        Some(self.label.as_str())
    }
}

/// A scriptable backend: accepts either everything or only sources whose
/// path ends in `.mock`, and stamps its own name on every plugin it loads.
struct MockRuntime {
    name: String,
    only_mock: bool,
    fail_loads: bool,
}

impl MockRuntime {
    fn new(name: &str, only_mock: bool) -> Self {
        MockRuntime { name: name.to_string(), only_mock, fail_loads: false }
    }
}

impl Runtime for MockRuntime {
    type Func = NoCap;
    type Plug = MockPlugin;

    fn runtime_name(&self) -> String {
        self.name.clone()
    }

    fn supports_plugin(&self, source: &PluginSource) -> bool {
        if !self.only_mock {
            return true;
        }
        match source {
            PluginSource::FilePath(p) => p.ends_with(".mock"),
            _ => false,
        }
    }

    fn load(
        &mut self,
        _source: &PluginSource,
        _context: &HostContext<NoCap>,
    ) -> Result<MockPlugin, PluginError> {
        if self.fail_loads {
            return Err(PluginError::LoadError("engine refused".to_string()));
        }
        Ok(MockPlugin { label: self.name.clone(), calls: 0 })
    }

    fn call(
        &self,
        plugin: &mut MockPlugin,
        function_name: &str,
        args: &Vec<Value>,
    ) -> Result<Value, PluginError> {
        plugin.calls += 1;
        if function_name == "count" {
            Ok(Value::Int(plugin.calls as i64))
        } else if function_name == "sum" {
            let mut total: i64 = 0;
            for a in args {
                total += a.as_int().ok_or(PluginError::InvalidArgumentType)?;
            }
            Ok(Value::Int(total))
        } else {
            Err(PluginError::FunctionNotFound(function_name.to_string()))
        }
    }
}

fn code(text: &str) -> PluginSource {
    PluginSource::Code(text.to_string())
}

#[test]
fn single_manager_lifecycle() {
    let ctx: HostContext<NoCap> = HostContext::new();
    let mut mgr = SingleRuntimeManager::new(MockRuntime::new("mock", false));
    assert_eq!(mgr.plugin_count(), 0);

    let id = mgr.load_plugin(code("plugin body"), &ctx).unwrap();
    assert!(mgr.is_plugin_loaded(id));
    assert_eq!(mgr.plugin_count(), 1);
    assert_eq!(mgr.plugin_name(id), Some("mock"));
    assert_eq!(mgr.plugin_ids(), vec![id]);

    assert_eq!(mgr.call_plugin(id, "count", &vec![]), Ok(Value::Int(1)));
    assert_eq!(mgr.call_plugin(id, "count", &vec![]), Ok(Value::Int(2)));
    assert_eq!(
        mgr.call_plugin(id, "sum", &vec![Value::Int(20), Value::Int(22)]),
        Ok(Value::Int(42))
    );
    assert_eq!(
        mgr.call_plugin(id, "absent", &vec![]),
        Err(PluginError::FunctionNotFound("absent".to_string()))
    );

    assert_eq!(mgr.unload_plugin(id), Ok(()));
    assert!(!mgr.is_plugin_loaded(id));
    assert_eq!(mgr.plugin_count(), 0);
}

#[test]
fn single_manager_rejects_unsupported_source() {
    let ctx: HostContext<NoCap> = HostContext::new();
    let mut mgr = SingleRuntimeManager::new(MockRuntime::new("picky", true));
    let err = mgr.load_plugin(code("anything"), &ctx).unwrap_err();
    assert_eq!(
        err,
        PluginError::LoadError("Runtime 'picky' does not support this plugin source".to_string())
    );
    assert_eq!(mgr.plugin_count(), 0);

    let id = mgr.load_plugin(PluginSource::FilePath("a.mock".to_string()), &ctx).unwrap();
    assert!(mgr.is_plugin_loaded(id));
}

#[test]
fn single_manager_passes_load_errors_through() {
    let ctx: HostContext<NoCap> = HostContext::new();
    let mut rt = MockRuntime::new("mock", false);
    rt.fail_loads = true;
    let mut mgr = SingleRuntimeManager::new(rt);
    assert_eq!(
        mgr.load_plugin(code("x"), &ctx),
        Err(PluginError::LoadError("engine refused".to_string()))
    );
    assert_eq!(mgr.plugin_count(), 0);
    mgr.runtime_mut().fail_loads = false;
    assert!(mgr.load_plugin(code("x"), &ctx).is_ok());
    assert_eq!(mgr.runtime().name, "mock");
}

#[test]
fn plugin_ids_strictly_increase() {
    let ctx: HostContext<NoCap> = HostContext::new();
    let mut mgr = SingleRuntimeManager::new(MockRuntime::new("mock", false));
    let mut ids: Vec<PluginId> = Vec::new();
    for _ in 0..5 {
        ids.push(mgr.load_plugin(code("same source text"), &ctx).unwrap());
    }
    for i in 0..ids.len() {
        for j in (i + 1)..ids.len() {
            assert!(ids[i].0 < ids[j].0);
            assert_ne!(ids[i], ids[j]);
        }
    }
    // Unloading never makes the counter reuse an identifier.
    mgr.unload_plugin(ids[4]).unwrap();
    let next = mgr.load_plugin(code("more"), &ctx).unwrap();
    assert!(next.0 > ids[4].0);
}

#[test]
fn two_plugins_from_identical_source_get_distinct_ids() {
    let ctx: HostContext<NoCap> = HostContext::new();
    let mut mgr = SingleRuntimeManager::new(MockRuntime::new("mock", false));
    let a = mgr.load_plugin(code("shared inline source"), &ctx).unwrap();
    let b = mgr.load_plugin(code("shared inline source"), &ctx).unwrap();
    assert_ne!(a, b);
    assert!(a.0 < b.0);
    assert!(mgr.is_plugin_loaded(a) && mgr.is_plugin_loaded(b));
}

#[test]
fn post_unload_invariant() {
    let ctx: HostContext<NoCap> = HostContext::new();
    let mut mgr = SingleRuntimeManager::new(MockRuntime::new("mock", false));
    let id = mgr.load_plugin(code("x"), &ctx).unwrap();
    assert_eq!(mgr.unload_plugin(id), Ok(()));
    assert!(!mgr.is_plugin_loaded(id));
    assert_eq!(mgr.call_plugin(id, "count", &vec![]), Err(PluginError::InvalidPluginState));
    assert_eq!(mgr.unload_plugin(id), Err(PluginError::InvalidPluginState));
    assert_eq!(mgr.plugin_name(id), None);
}

#[test]
fn unknown_id_is_invalid_plugin_state() {
    let mut mgr: SingleRuntimeManager<MockRuntime> =
        SingleRuntimeManager::new(MockRuntime::new("mock", false));
    let ghost_id = PluginId(999);
    assert_eq!(mgr.call_plugin(ghost_id, "f", &vec![]), Err(PluginError::InvalidPluginState));
    assert_eq!(mgr.unload_plugin(ghost_id), Err(PluginError::InvalidPluginState));
    assert!(!mgr.is_plugin_loaded(ghost_id));
}

#[test]
fn multi_manager_selects_first_supporting_runtime() {
    let ctx: HostContext<NoCap> = HostContext::new();
    let mut mgr: MultiRuntimeManager<MockRuntime> = MultiRuntimeManager::new();
    mgr.register_runtime(MockRuntime::new("r1", true));
    mgr.register_runtime(MockRuntime::new("r2", false));
    assert_eq!(mgr.runtime_count(), 2);
    assert_eq!(mgr.runtime_names(), vec!["r1".to_string(), "r2".to_string()]);

    // A ".mock" source goes to r1, anything else to r2.
    let a = mgr.load_plugin(PluginSource::FilePath("p.mock".to_string()), &ctx).unwrap();
    assert_eq!(mgr.plugin_name(a), Some("r1"));
    let b = mgr.load_plugin(PluginSource::FilePath("p.wasm".to_string()), &ctx).unwrap();
    assert_eq!(mgr.plugin_name(b), Some("r2"));
    let c = mgr.load_plugin(code("inline"), &ctx).unwrap();
    assert_eq!(mgr.plugin_name(c), Some("r2"));
    assert_eq!(mgr.plugin_count(), 3);
}

#[test]
fn multi_manager_order_decides_ambiguous_sources() {
    let ctx: HostContext<NoCap> = HostContext::new();
    let mut mgr: MultiRuntimeManager<MockRuntime> = MultiRuntimeManager::new();
    // Reversed registration order: the catch-all comes first now.
    mgr.register_runtime(MockRuntime::new("r2", false));
    mgr.register_runtime(MockRuntime::new("r1", true));
    // Both support ".mock" sources; first match wins.
    let a = mgr.load_plugin(PluginSource::FilePath("p.mock".to_string()), &ctx).unwrap();
    assert_eq!(mgr.plugin_name(a), Some("r2"));
}

#[test]
fn multi_manager_without_compatible_runtime() {
    let ctx: HostContext<NoCap> = HostContext::new();
    let mut mgr: MultiRuntimeManager<MockRuntime> = MultiRuntimeManager::new();
    mgr.register_runtime(MockRuntime::new("r1", true));
    let err = mgr.load_plugin(code("not a mock"), &ctx).unwrap_err();
    assert_eq!(
        err,
        PluginError::LoadError("No compatible runtime found for this plugin source".to_string())
    );
    let empty: MultiRuntimeManager<MockRuntime> = MultiRuntimeManager::default();
    assert_eq!(empty.runtime_count(), 0);
    assert_eq!(empty.plugin_count(), 0);
}

#[test]
fn multi_manager_routes_calls_to_owning_runtime() {
    let ctx: HostContext<NoCap> = HostContext::new();
    let mut mgr: MultiRuntimeManager<MockRuntime> = MultiRuntimeManager::new();
    mgr.register_runtime(MockRuntime::new("r1", true));
    mgr.register_runtime(MockRuntime::new("r2", false));
    let a = mgr.load_plugin(PluginSource::FilePath("p.mock".to_string()), &ctx).unwrap();
    let b = mgr.load_plugin(code("inline"), &ctx).unwrap();
    assert_eq!(mgr.call_plugin(a, "count", &vec![]), Ok(Value::Int(1)));
    assert_eq!(mgr.call_plugin(b, "count", &vec![]), Ok(Value::Int(1)));
    assert_eq!(mgr.call_plugin(a, "count", &vec![]), Ok(Value::Int(2)));
    assert_eq!(mgr.unload_plugin(a), Ok(()));
    assert_eq!(mgr.call_plugin(a, "count", &vec![]), Err(PluginError::InvalidPluginState));
    assert_eq!(mgr.call_plugin(b, "count", &vec![]), Ok(Value::Int(2)));
    assert_eq!(mgr.plugin_ids(), vec![b]);
}
