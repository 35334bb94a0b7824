//! Plugin lifecycle coordination: identifiers and the manager contract.

use vstd::prelude::*;

use crate::context::HostContext;
use crate::error::PluginError;
use crate::host_function::HostFunction;
use crate::source::PluginSource;
use crate::value::Value;

verus! {

/// Unique identifier for a loaded plugin instance. A manager assigns these
/// from a counter that only ever grows, so within one manager's lifetime an
/// identifier is never reassigned to a different live plugin.
#[derive(Debug, Clone, Copy, PartialEq, Eq, Hash, Structural)]
pub struct PluginId(pub u64);

/// Interface for managing plugin instances: loading assigns a fresh
/// [`PluginId`], calls and unloads are routed by it.
///
/// Mutating and reading operations all take the manager by exclusive
/// reference, so a call can never race an in-flight unload of the same
/// identifier: all manager operations on one manager are serialized by the
/// borrow discipline.
pub trait PluginManager: Sized {
    /// The callable type of the host contexts this manager passes to its
    /// runtimes at load time.
    type Func: HostFunction;

    /// Well-formedness of the manager's internal table, established by its
    /// constructor and preserved by every operation.
    spec fn wf(&self) -> bool;

    /// The identifiers of the currently loaded plugins.
    spec fn loaded(&self) -> Set<u64>;

    /// The identifier the next successful load will return. Never decreases,
    /// and never returns to an identifier handed out before.
    spec fn counter(&self) -> u64;

    /// The display name of the plugin loaded under an identifier, if both
    /// the identifier is loaded and the plugin exposes a name.
    spec fn name_model(&self, id: u64) -> Option<Seq<char>>;

    /// Loads a plugin from the given source with the provided host context.
    /// On success the returned identifier is fresh: it equals the manager's
    /// counter, which every earlier identifier is below.
    fn load_plugin(&mut self, source: PluginSource, context: &HostContext<Self::Func>) -> (r:
        Result<PluginId, PluginError>)
        requires
            old(self).wf(),
        ensures
            final(self).wf(),
            old(self).counter() <= final(self).counter(),
            r matches Ok(id) ==> id.0 == old(self).counter() && old(self).counter()
                < final(self).counter() && !old(self).loaded().contains(id.0)
                && final(self).loaded() == old(self).loaded().insert(id.0),
            r is Err ==> final(self).loaded() == old(self).loaded() && final(self).counter()
                == old(self).counter(),
    ;

    /// Calls a function in the plugin loaded under an identifier. An
    /// identifier that is not loaded fails with
    /// [`PluginError::InvalidPluginState`]; otherwise the owning runtime's
    /// result is returned verbatim.
    fn call_plugin(&mut self, id: PluginId, function_name: &str, args: &Vec<Value>) -> (r: Result<
        Value,
        PluginError,
    >)
        requires
            old(self).wf(),
        ensures
            final(self).wf(),
            final(self).loaded() == old(self).loaded(),
            final(self).counter() == old(self).counter(),
            !old(self).loaded().contains(id.0) ==> (r matches Err(e) && e
                == PluginError::InvalidPluginState),
    ;

    /// Unloads the plugin under an identifier, which thereby becomes
    /// invalid: it is removed from the loaded set and the counter never
    /// returns to it.
    fn unload_plugin(&mut self, id: PluginId) -> (r: Result<(), PluginError>)
        requires
            old(self).wf(),
        ensures
            final(self).wf(),
            final(self).counter() == old(self).counter(),
            old(self).loaded().contains(id.0) ==> r is Ok && final(self).loaded()
                == old(self).loaded().remove(id.0),
            !old(self).loaded().contains(id.0) ==> (r matches Err(e) && e
                == PluginError::InvalidPluginState) && final(self).loaded() == old(self).loaded(),
    ;

    /// Returns the name of the plugin with the given identifier, if one is
    /// loaded and exposes a name.
    fn plugin_name(&self, id: PluginId) -> (r: Option<&str>)
        requires
            self.wf(),
        ensures
            match r {
                Some(s) => self.name_model(id.0) matches Some(m) && s@ == m,
                None => self.name_model(id.0) is None,
            },
            !self.loaded().contains(id.0) ==> r is None,
    ;

    /// Returns true if a plugin with the given identifier is currently
    /// loaded.
    fn is_plugin_loaded(&self, id: PluginId) -> (b: bool)
        requires
            self.wf(),
        ensures
            b == self.loaded().contains(id.0),
    ;
}

/// What one successful load does to a manager: the returned identifier
/// equals the old counter, was not loaded before, and is loaded after; the
/// counter strictly grows.
pub open spec fn load_ok_step<M: PluginManager>(pre: &M, post: &M, id: PluginId) -> bool {
    &&& id.0 == pre.counter()
    &&& pre.counter() < post.counter()
    &&& !pre.loaded().contains(id.0)
    &&& post.loaded() == pre.loaded().insert(id.0)
}

/// Identifier uniqueness: over any sequence of successful loads, the
/// identifiers come out strictly increasing in call order — and hence
/// pairwise distinct. `states` is the chain of manager states, `ids[i]` the
/// identifier returned by the load that took `states[i]` to `states[i + 1]`.
pub proof fn lemma_plugin_ids_strictly_increase<M: PluginManager>(states: Seq<M>, ids: Seq<u64>)
    requires
        states.len() == ids.len() + 1,
        forall|i: int|
            0 <= i < ids.len() ==> load_ok_step(&states[i], &states[i + 1], PluginId(
                #[trigger] ids[i],
            )),
    ensures
        forall|i: int, j: int| 0 <= i < j < ids.len() ==> ids[i] < ids[j],
{
    assert forall|i: int, j: int| 0 <= i < j < ids.len() implies ids[i] < ids[j] by {
        assert(load_ok_step(&states[i], &states[i + 1], PluginId(ids[i])));
        assert(load_ok_step(&states[j], &states[j + 1], PluginId(ids[j])));
        lemma_counters_monotone(states, ids, i + 1, j);
    }
}

/// The counter never decreases along a chain of successful loads.
proof fn lemma_counters_monotone<M: PluginManager>(states: Seq<M>, ids: Seq<u64>, a: int, b: int)
    requires
        states.len() == ids.len() + 1,
        forall|k: int|
            0 <= k < ids.len() ==> load_ok_step(&states[k], &states[k + 1], PluginId(
                #[trigger] ids[k],
            )),
        0 <= a <= b < states.len(),
    ensures
        states[a].counter() <= states[b].counter(),
    decreases b - a,
{
    if a < b {
        lemma_counters_monotone(states, ids, a, b - 1);
        assert(load_ok_step(&states[b - 1], &states[b], PluginId(ids[b - 1])));
    }
}

/// Post-unload invariant: once an identifier has been removed from the
/// loaded set, it is not loaded — so `is_plugin_loaded` answers false and a
/// subsequent `call_plugin` on it fails with
/// [`PluginError::InvalidPluginState`], by their contracts.
pub proof fn lemma_post_unload<M: PluginManager>(pre: &M, post: &M, id: PluginId)
    requires
        post.loaded() == pre.loaded().remove(id.0),
    ensures
        !post.loaded().contains(id.0),
{
}

} // verus!
