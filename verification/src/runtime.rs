//! Runtime abstraction: the contract each execution backend satisfies.

use vstd::prelude::*;

use crate::context::HostContext;
use crate::error::PluginError;
use crate::host_function::HostFunction;
use crate::source::PluginSource;
use crate::value::{Value, ValueModel};

verus! {

/// Opaque handle to one loaded unit of plugin code, owned exclusively by the
/// runtime or manager that created it.
pub trait Plugin: Sized {
    /// The plugin's display name, if it exposes one. An implementation
    /// overrides this; left alone it makes no claim.
    open spec fn name_model(&self) -> Option<Seq<char>> {
        arbitrary()
    }

    /// Returns metadata about the plugin (optional).
    fn name(&self) -> (r: Option<&str>)
        ensures
            match r {
                Some(s) => self.name_model() matches Some(m) && s@ == m,
                None => self.name_model() is None,
            },
    ;
}

/// A named backend that can check compatibility with a plugin source, load
/// plugin code, and execute named functions inside a loaded plugin.
///
/// An application with several heterogeneous backends implements this on a
/// closed enum with one variant per backend, so that a manager can hold them
/// in one list.
pub trait Runtime: Sized {
    /// The callable type of the host contexts this runtime wires into its
    /// engine at load time.
    type Func: HostFunction;

    /// The concrete representation of this runtime's loaded plugins.
    type Plug: Plugin;

    /// The runtime's name, as characters. An implementation overrides
    /// this; left alone it makes no claim.
    open spec fn name_model(&self) -> Seq<char> {
        arbitrary()
    }

    /// Which sources this runtime accepts: a pure compatibility predicate
    /// over the runtime and the source, so probing it mutates nothing. An
    /// implementation overrides this; left alone it makes no claim.
    open spec fn supports_spec(&self, source: &PluginSource) -> bool {
        arbitrary()
    }

    /// Returns the name of this runtime for identification purposes.
    fn runtime_name(&self) -> (r: String)
        ensures
            r@ == self.name_model(),
    ;

    /// Checks if this runtime can handle the given plugin source, cheaply
    /// and without mutating state, so managers may probe several runtimes.
    fn supports_plugin(&self, source: &PluginSource) -> (b: bool)
        ensures
            b == self.supports_spec(source),
    ;

    /// What this runtime promises of a load: a relation between the
    /// runtime before and after, the source, and the outcome. Left alone it
    /// promises nothing; an implementation that overrides it and proves
    /// [`Self::load`] gives every load routed through a manager that
    /// promise, since the managers' load contracts propagate this relation.
    open spec fn load_post(
        pre: Self,
        post: Self,
        source: &PluginSource,
        r: Result<Self::Plug, PluginError>,
    ) -> bool {
        true
    }

    /// What this runtime promises of a call: a relation between the called
    /// plugin before and after, the function name, the arguments, and the
    /// outcome. Left alone it promises nothing; the managers' call
    /// contracts propagate whatever an implementation states here.
    open spec fn call_post(
        &self,
        plugin_pre: Self::Plug,
        plugin_post: Self::Plug,
        function_name: Seq<char>,
        args: Seq<ValueModel>,
        r: Result<Value, PluginError>,
    ) -> bool {
        true
    }

    /// Loads plugin code from source with the provided host context, wiring
    /// every capability of the context into the backend so that plugin code
    /// can call them by name.
    fn load(&mut self, source: &PluginSource, context: &HostContext<Self::Func>) -> (r: Result<
        Self::Plug,
        PluginError,
    >)
        ensures
            Self::load_post(*old(self), *final(self), source, r),
    ;

    /// Calls a function in the loaded plugin with the given arguments and
    /// returns the plugin function's result.
    fn call(&self, plugin: &mut Self::Plug, function_name: &str, args: &Vec<Value>) -> (r: Result<
        Value,
        PluginError,
    >)
        ensures
            self.call_post(*old(plugin), *final(plugin), function_name@, args.deep_view(), r),
    ;
}

} // verus!
