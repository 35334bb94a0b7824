//! Plugin manager optimized for a single runtime type, known at
//! construction: no per-call backend lookup.

use vstd::prelude::*;

use crate::context::HostContext;
use crate::error::PluginError;
use crate::manager::{PluginId, PluginManager};
use crate::runtime::{Plugin, Runtime};
use crate::source::PluginSource;
use crate::value::Value;

verus! {

broadcast use vstd::std_specs::vec::group_vec_axioms, vstd::seq::group_seq_axioms;

/// Plugin manager parameterized by exactly one concrete runtime. Loading
/// first checks [`Runtime::supports_plugin`] and rejects incompatible
/// sources with [`PluginError::LoadError`] naming the runtime.
pub struct SingleRuntimeManager<R: Runtime> {
    runtime: R,
    plugins: Vec<(u64, R::Plug)>,
    next_id: u64,
}

impl<R: Runtime> SingleRuntimeManager<R> {
    /// The runtime this manager owns.
    pub closed spec fn runtime_model(&self) -> R {
        self.runtime
    }

    /// The identifiers of the loaded plugins, in load order.
    pub closed spec fn ids(&self) -> Seq<u64> {
        Seq::new(self.plugins@.len(), |i: int| self.plugins@[i].0)
    }

    /// The table index holding an identifier, when one does.
    closed spec fn index_of(&self, id: u64) -> int {
        choose|i: int| 0 <= i < self.plugins@.len() && self.plugins@[i].0 == id
    }

    /// The plugin stored under an identifier. Meaningful only for loaded
    /// identifiers.
    pub closed spec fn plugin_model(&self, id: u64) -> R::Plug {
        self.plugins@[self.index_of(id)].1
    }

    /// A loaded identifier's name is its stored plugin's name.
    pub proof fn lemma_name_of_plugin(&self, id: u64)
        requires
            self.wf(),
            self.loaded().contains(id),
        ensures
            self.name_model(id) == self.plugin_model(id).name_model(),
    {
    }

    /// Creates a new single-runtime manager with the provided runtime.
    /// Identifiers start at 1.
    pub fn new(runtime: R) -> (r: Self)
        ensures
            r.wf(),
            r.loaded() == Set::<u64>::empty(),
            r.ids() == Seq::<u64>::empty(),
            r.counter() == 1,
            r.runtime_model() == runtime,
    {
        let r = SingleRuntimeManager { runtime, plugins: Vec::new(), next_id: 1u64 };
        proof {
            assert(r.loaded() =~= Set::<u64>::empty());
            assert(r.ids() =~= Seq::<u64>::empty());
        }
        r
    }

    /// Returns a reference to the underlying runtime.
    pub fn runtime(&self) -> (r: &R)
        ensures
            *r == self.runtime_model(),
    {
        &self.runtime
    }

    /// Returns a mutable reference to the underlying runtime. Only the
    /// runtime is reachable through it: the plugin table and the identifier
    /// counter are untouched however the caller uses the reference.
    pub fn runtime_mut(&mut self) -> (r: &mut R)
        ensures
            *r == old(self).runtime_model(),
            final(self).runtime_model() == *final(r),
            final(self).loaded() == old(self).loaded(),
            final(self).counter() == old(self).counter(),
            final(self).ids() == old(self).ids(),
            final(self).wf() == old(self).wf(),
            forall|id: u64| final(self).name_model(id) == old(self).name_model(id),
    {
        &mut self.runtime
    }

    /// Returns the number of currently loaded plugins.
    pub fn plugin_count(&self) -> (n: usize)
        ensures
            n == self.ids().len(),
    {
        self.plugins.len()
    }

    /// Returns all loaded plugin identifiers, in load order: each loaded
    /// identifier exactly once.
    pub fn plugin_ids(&self) -> (r: Vec<PluginId>)
        requires
            self.wf(),
        ensures
            r@.len() == self.ids().len(),
            forall|i: int| 0 <= i < r@.len() ==> (#[trigger] r@[i]).0 == self.ids()[i],
            forall|i: int, j: int|
                0 <= i < j < r@.len() ==> (#[trigger] r@[i]).0 != (#[trigger] r@[j]).0,
            forall|i: int| 0 <= i < r@.len() ==> self.loaded().contains((#[trigger] r@[i]).0),
            forall|id: u64|
                self.loaded().contains(id) ==> exists|i: int|
                    0 <= i < r@.len() && (#[trigger] r@[i]).0 == id,
    {
        let mut out: Vec<PluginId> = Vec::new();
        let mut idx: usize = 0;
        while idx < self.plugins.len()
            invariant
                idx <= self.plugins@.len(),
                out@.len() == idx,
                forall|i: int| 0 <= i < idx ==> (#[trigger] out@[i]).0 == self.ids()[i],
            decreases self.plugins@.len() - idx,
        {
            out.push(PluginId(self.plugins[idx].0));
            idx += 1;
        }
        proof {
            assert forall|i: int|
                0 <= i < out@.len() implies self.loaded().contains((#[trigger] out@[i]).0) by {
                assert(self.ids()[i] == out@[i].0);
                assert(self.ids().contains(out@[i].0));
            }
            assert forall|id: u64|
                self.loaded().contains(id) implies exists|i: int|
                    0 <= i < out@.len() && (#[trigger] out@[i]).0 == id by {
                let i = choose|i: int| 0 <= i < self.ids().len() && self.ids()[i] == id;
                assert(out@[i].0 == id);
            }
        }
        out
    }

    /// Finds the table index of a plugin identifier, if it is loaded.
    fn find_id(&self, id: u64) -> (r: Option<usize>)
        ensures
            match r {
                Some(i) => i < self.plugins@.len() && self.plugins@[i as int].0 == id,
                None => !self.loaded().contains(id),
            },
    {
        let mut idx: usize = 0;
        while idx < self.plugins.len()
            invariant
                idx <= self.plugins@.len(),
                forall|j: int| 0 <= j < idx ==> self.plugins@[j].0 != id,
            decreases self.plugins@.len() - idx,
        {
            if self.plugins[idx].0 == id {
                return Some(idx);
            }
            idx += 1;
        }
        proof {
            assert forall|i: int| 0 <= i < self.ids().len() implies self.ids()[i] != id by {}
        }
        None
    }

    /// The looked-up entry for a loaded identifier is the entry at its table
    /// index.
    proof fn lemma_entry_at(&self, i: int)
        requires
            self.wf(),
            0 <= i < self.plugins@.len(),
        ensures
            self.loaded().contains(self.plugins@[i].0),
            self.index_of(self.plugins@[i].0) == i,
            self.plugin_model(self.plugins@[i].0) == self.plugins@[i].1,
            self.name_model(self.plugins@[i].0) == self.plugins@[i].1.name_model(),
    {
        let id = self.plugins@[i].0;
        assert(self.ids()[i] == id);
        assert(self.ids().contains(id));
        let j = self.index_of(id);
        assert(0 <= j < self.plugins@.len() && self.plugins@[j].0 == id);
        assert(self.ids()[j] == id);
        assert(j == i);
    }

    /// When one identifier's entry carries the same plugin before and after
    /// an operation, its name is unchanged by it.
    proof fn lemma_same_entry(pre: &Self, post: &Self, i: int, j: int)
        requires
            pre.wf(),
            post.wf(),
            0 <= i < pre.plugins@.len(),
            0 <= j < post.plugins@.len(),
            pre.plugins@[i].0 == post.plugins@[j].0,
            pre.plugins@[i].1 == post.plugins@[j].1,
        ensures
            post.name_model(pre.plugins@[i].0) == pre.name_model(pre.plugins@[i].0),
    {
        pre.lemma_entry_at(i);
        post.lemma_entry_at(j);
    }
}

impl<R: Runtime> PluginManager for SingleRuntimeManager<R> {
    type Func = R::Func;

    /// Identifiers in the table never repeat and are all below the counter.
    closed spec fn wf(&self) -> bool {
        &&& forall|i: int, j: int|
            0 <= i < j < self.ids().len() ==> (#[trigger] self.ids()[i]) != (
            #[trigger] self.ids()[j])
        &&& forall|i: int| 0 <= i < self.ids().len() ==> (#[trigger] self.ids()[i]) < self.next_id
    }

    closed spec fn loaded(&self) -> Set<u64> {
        Set::new(|id: u64| self.ids().contains(id))
    }

    closed spec fn counter(&self) -> u64 {
        self.next_id
    }

    closed spec fn name_model(&self, id: u64) -> Option<Seq<char>> {
        if self.ids().contains(id) {
            self.plugins@[self.index_of(id)].1.name_model()
        } else {
            None
        }
    }

    /// Loading first checks compatibility: a source the runtime does not
    /// support is rejected with a [`PluginError::LoadError`] naming the
    /// runtime, before the runtime is asked to load anything.
    fn load_plugin(&mut self, source: PluginSource, context: &HostContext<R::Func>) -> (r: Result<
        PluginId,
        PluginError,
    >)
        ensures
            !old(self).runtime_model().supports_spec(&source) ==> *final(self) == *old(self),
            !old(self).runtime_model().supports_spec(&source) ==> (r matches Err(e) && e matches
                PluginError::LoadError(m) && m@ == "Runtime '"@
                + old(self).runtime_model().name_model()
                + "' does not support this plugin source"@),
            old(self).runtime_model().supports_spec(&source) && old(self).counter() == u64::MAX
                ==> *final(self) == *old(self) && (r matches Err(e) && e matches
                PluginError::LoadError(m) && m@ == "plugin identifier space exhausted"@),
            r matches Ok(id) ==> final(self).ids() == old(self).ids().push(id.0)
                && final(self).counter() == id.0 + 1,
            r is Err ==> final(self).ids() == old(self).ids(),
            r matches Ok(id) ==> R::load_post(
                old(self).runtime_model(),
                final(self).runtime_model(),
                &source,
                Ok(final(self).plugin_model(id.0)),
            ) && final(self).name_model(id.0) == final(self).plugin_model(id.0).name_model(),
            old(self).runtime_model().supports_spec(&source) && old(self).counter() < u64::MAX
                ==> (r matches Err(e) ==> R::load_post(
                old(self).runtime_model(),
                final(self).runtime_model(),
                &source,
                Err(e),
            )),
            forall|x: u64|
                old(self).loaded().contains(x) ==> #[trigger] final(self).name_model(x)
                    == old(self).name_model(x),
    {
        if !self.runtime.supports_plugin(&source) {
            let mut msg = String::from_str("Runtime '");
            msg.append(self.runtime.runtime_name().as_str());
            msg.append("' does not support this plugin source");
            return Err(PluginError::LoadError(msg));
        }
        if self.next_id == u64::MAX {
            return Err(PluginError::LoadError(String::from_str(
                "plugin identifier space exhausted",
            )));
        }
        let ghost pre = *self;
        match self.runtime.load(&source, context) {
            Err(e) => {
                proof {
                    assert(self.loaded() =~= pre.loaded());
                }
                Err(e)
            },
            Ok(plugin) => {
                let ghost pluging = plugin;
                let id = self.next_id;
                self.next_id = id + 1;
                self.plugins.push((id, plugin));
                proof {
                    assert(self.ids() =~= pre.ids().push(id));
                    assert(!pre.ids().contains(id)) by {
                        if pre.ids().contains(id) {
                            let i = choose|i: int|
                                0 <= i < pre.ids().len() && pre.ids()[i] == id;
                            assert(pre.ids()[i] < pre.next_id);
                        }
                    }
                    assert forall|a: int, b: int|
                        0 <= a < b < self.ids().len() implies (#[trigger] self.ids()[a]) != (
                    #[trigger] self.ids()[b]) by {
                        if b < self.ids().len() - 1 {
                            assert(pre.ids()[a] == self.ids()[a]);
                            assert(pre.ids()[b] == self.ids()[b]);
                        } else {
                            assert(self.ids()[a] == pre.ids()[a]);
                            assert(pre.ids().contains(pre.ids()[a]));
                        }
                    }
                    assert forall|i: int|
                        0 <= i < self.ids().len() implies (#[trigger] self.ids()[i])
                        < self.next_id by {
                        if i < self.ids().len() - 1 {
                            assert(self.ids()[i] == pre.ids()[i]);
                        }
                    }
                    assert(self.loaded() =~= pre.loaded().insert(id)) by {
                        assert forall|x: u64| self.ids().contains(x) implies pre.ids().contains(
                            x,
                        ) || x == id by {
                            let i = choose|i: int|
                                0 <= i < self.ids().len() && self.ids()[i] == x;
                            if i < self.ids().len() - 1 {
                                assert(pre.ids()[i] == x);
                            }
                        }
                        assert forall|x: u64| pre.ids().contains(x) implies self.ids().contains(
                            x,
                        ) by {
                            let i = choose|i: int|
                                0 <= i < pre.ids().len() && pre.ids()[i] == x;
                            assert(self.ids()[i] == x);
                        }
                        assert(self.ids()[self.ids().len() - 1] == id);
                        assert(self.ids().contains(id));
                    }
                    assert forall|x: u64|
                        pre.loaded().contains(x) implies #[trigger] self.name_model(x)
                            == pre.name_model(x) by {
                        let i = choose|i: int| 0 <= i < pre.ids().len() && pre.ids()[i] == x;
                        assert(pre.plugins@[i].0 == x);
                        assert(self.plugins@[i] == pre.plugins@[i]);
                        Self::lemma_same_entry(&pre, self, i, i);
                    }
                    self.lemma_entry_at(self.plugins@.len() - 1);
                    assert(self.plugin_model(id) == pluging);
                }
                Ok(PluginId(id))
            },
        }
    }

    /// Only the called plugin's entry can change: the table's identifiers,
    /// the counter and the runtime are untouched.
    fn call_plugin(&mut self, id: PluginId, function_name: &str, args: &Vec<Value>) -> (r: Result<
        Value,
        PluginError,
    >)
        ensures
            final(self).counter() == old(self).counter(),
            final(self).ids() == old(self).ids(),
            final(self).runtime_model() == old(self).runtime_model(),
            forall|x: u64|
                x != id.0 && old(self).loaded().contains(x) ==> #[trigger] final(self).name_model(
                    x,
                ) == old(self).name_model(x),
            old(self).loaded().contains(id.0) ==> old(self).runtime_model().call_post(
                old(self).plugin_model(id.0),
                final(self).plugin_model(id.0),
                function_name@,
                args.deep_view(),
                r,
            ),
    {
        let ghost pre = *self;
        match self.find_id(id.0) {
            None => Err(PluginError::InvalidPluginState),
            Some(i) => {
                proof {
                    assert(pre.ids()[i as int] == id.0);
                    assert(pre.loaded().contains(id.0));
                    pre.lemma_entry_at(i as int);
                }
                let mut entry = self.plugins.remove(i);
                let res = self.runtime.call(&mut entry.1, function_name, args);
                self.plugins.insert(i, entry);
                proof {
                    assert(self.ids() =~= pre.ids());
                    assert(self.loaded() =~= pre.loaded());
                    self.lemma_entry_at(i as int);
                    assert(self.plugin_model(id.0) == self.plugins@[i as int].1);
                    assert forall|x: u64|
                        x != id.0 && pre.loaded().contains(x) implies #[trigger] self.name_model(
                            x,
                        ) == pre.name_model(x) by {
                        let k = choose|k: int| 0 <= k < pre.ids().len() && pre.ids()[k] == x;
                        assert(pre.plugins@[k].0 == x);
                        assert(k != i);
                        assert(self.plugins@[k] == pre.plugins@[k]);
                        Self::lemma_same_entry(&pre, self, k, k);
                    }
                }
                res
            },
        }
    }

    /// Removal takes exactly the one entry: every other plugin keeps its
    /// place and its name, and the runtime is untouched.
    fn unload_plugin(&mut self, id: PluginId) -> (r: Result<(), PluginError>)
        ensures
            r is Ok ==> final(self).ids().len() == old(self).ids().len() - 1,
            r is Err ==> final(self).ids() == old(self).ids(),
            final(self).runtime_model() == old(self).runtime_model(),
            forall|x: u64|
                x != id.0 && old(self).loaded().contains(x) ==> #[trigger] final(self).name_model(
                    x,
                ) == old(self).name_model(x),
    {
        let ghost pre = *self;
        match self.find_id(id.0) {
            None => Err(PluginError::InvalidPluginState),
            Some(i) => {
                let _ = self.plugins.remove(i);
                proof {
                    assert(pre.ids()[i as int] == id.0);
                    assert(pre.ids().contains(id.0));
                    assert forall|k: int|
                        0 <= k < self.ids().len() implies #[trigger] self.ids()[k] == (if k
                        < i {
                            pre.ids()[k]
                        } else {
                            pre.ids()[k + 1]
                        }) by {}
                    assert forall|a: int, b: int|
                        0 <= a < b < self.ids().len() implies (#[trigger] self.ids()[a]) != (
                    #[trigger] self.ids()[b]) by {}
                    assert forall|k: int|
                        0 <= k < self.ids().len() implies (#[trigger] self.ids()[k])
                        < self.next_id by {}
                    assert(self.loaded() =~= pre.loaded().remove(id.0)) by {
                        assert forall|x: u64| self.ids().contains(x) implies pre.ids().contains(x)
                            && x != id.0 by {
                            let k = choose|k: int|
                                0 <= k < self.ids().len() && self.ids()[k] == x;
                            if k < i {
                                assert(pre.ids()[k] == x);
                            } else {
                                assert(pre.ids()[k + 1] == x);
                            }
                        }
                        assert forall|x: u64|
                            pre.ids().contains(x) && x != id.0 implies self.ids().contains(x) by {
                            let k = choose|k: int|
                                0 <= k < pre.ids().len() && pre.ids()[k] == x;
                            if k < i {
                                assert(self.ids()[k] == x);
                            } else {
                                assert(k != i);
                                assert(self.ids()[k - 1] == x);
                            }
                        }
                    }
                    assert forall|x: u64|
                        x != id.0 && pre.loaded().contains(x) implies #[trigger] self.name_model(
                            x,
                        ) == pre.name_model(x) by {
                        let k = choose|k: int| 0 <= k < pre.ids().len() && pre.ids()[k] == x;
                        assert(pre.plugins@[k].0 == x);
                        assert(k != i);
                        if k < i {
                            assert(self.plugins@[k] == pre.plugins@[k]);
                            Self::lemma_same_entry(&pre, self, k, k);
                        } else {
                            assert(self.plugins@[k - 1] == pre.plugins@[k]);
                            Self::lemma_same_entry(&pre, self, k, k - 1);
                        }
                    }
                }
                Ok(())
            },
        }
    }

    fn plugin_name(&self, id: PluginId) -> (r: Option<&str>)
    {
        match self.find_id(id.0) {
            None => None,
            Some(i) => {
                proof {
                    self.lemma_entry_at(i as int);
                }
                self.plugins[i].1.name()
            },
        }
    }

    fn is_plugin_loaded(&self, id: PluginId) -> (b: bool)
    {
        match self.find_id(id.0) {
            Some(i) => {
                proof {
                    assert(self.ids()[i as int] == id.0);
                }
                true
            },
            None => false,
        }
    }
}

} // verus!
