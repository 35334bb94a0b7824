//! Flexible plugin manager that routes among several registered runtimes.

use vstd::prelude::*;

use crate::context::HostContext;
use crate::error::PluginError;
use crate::manager::{PluginId, PluginManager};
use crate::runtime::{Plugin, Runtime};
use crate::source::PluginSource;
use crate::value::Value;

verus! {

broadcast use vstd::std_specs::vec::group_vec_axioms, vstd::seq::group_seq_axioms;

/// The position of the first runtime in the list that supports a source, if
/// any: the selection rule of [`MultiRuntimeManager::load_plugin`].
pub open spec fn first_supporting<R: Runtime>(rts: Seq<R>, source: &PluginSource) -> Option<int>
    decreases rts.len(),
{
    if rts.len() == 0 {
        None
    } else if rts[0].supports_spec(source) {
        Some(0int)
    } else {
        match first_supporting(rts.drop_first(), source) {
            Some(i) => Some(i + 1),
            None => None,
        }
    }
}

/// When every runtime before position `k` rejects the source, the first
/// supporting position is `k` if the runtime there accepts it — and when no
/// runtime accepts it, there is no supporting position.
proof fn lemma_first_supporting<R: Runtime>(rts: Seq<R>, source: &PluginSource, k: int)
    requires
        0 <= k <= rts.len(),
        forall|j: int| 0 <= j < k ==> !(#[trigger] rts[j]).supports_spec(source),
        k < rts.len() ==> rts[k].supports_spec(source),
    ensures
        k < rts.len() ==> first_supporting(rts, source) == Some(k),
        k == rts.len() ==> first_supporting(rts, source) is None,
    decreases k + 1,
{
    if rts.len() == 0 {
    } else if k == 0 {
    } else {
        let tail = rts.drop_first();
        assert forall|j: int| 0 <= j < k - 1 implies !(#[trigger] tail[j]).supports_spec(
            source,
        ) by {
            assert(tail[j] == rts[j + 1]);
        }
        if k < rts.len() {
            assert(tail[k - 1] == rts[k]);
        }
        lemma_first_supporting(tail, source, k - 1);
    }
}

/// Plugin manager holding an ordered list of registered runtimes. Loading
/// scans the list in registration order and selects the first runtime whose
/// [`Runtime::supports_plugin`] accepts the source — first match wins, so
/// the registration order is significant and under the caller's control.
pub struct MultiRuntimeManager<R: Runtime> {
    runtimes: Vec<R>,
    plugins: Vec<(u64, usize, R::Plug)>,
    next_id: u64,
}

impl<R: Runtime> MultiRuntimeManager<R> {
    /// The registered runtimes, in registration order.
    pub closed spec fn runtimes_model(&self) -> Seq<R> {
        self.runtimes@
    }

    /// The identifiers of the loaded plugins, in load order.
    pub closed spec fn ids(&self) -> Seq<u64> {
        Seq::new(self.plugins@.len(), |i: int| self.plugins@[i].0)
    }

    /// The table index holding an identifier, when one does.
    closed spec fn index_of(&self, id: u64) -> int {
        choose|i: int| 0 <= i < self.plugins@.len() && self.plugins@[i].0 == id
    }

    /// The position of the runtime that loaded a plugin, by its identifier.
    /// Meaningful only for loaded identifiers.
    pub closed spec fn runtime_index_of(&self, id: u64) -> int {
        self.plugins@[self.index_of(id)].1 as int
    }

    /// The plugin stored under an identifier. Meaningful only for loaded
    /// identifiers.
    pub closed spec fn plugin_model(&self, id: u64) -> R::Plug {
        self.plugins@[self.index_of(id)].2
    }

    /// A loaded identifier's name is its stored plugin's name.
    pub proof fn lemma_name_of_plugin(&self, id: u64)
        requires
            self.wf(),
            self.loaded().contains(id),
        ensures
            self.name_model(id) == self.plugin_model(id).name_model(),
    {
    }

    /// Creates a new multi-runtime manager with no registered runtimes.
    /// Identifiers start at 1.
    pub fn new() -> (r: Self)
        ensures
            r.wf(),
            r.loaded() == Set::<u64>::empty(),
            r.ids() == Seq::<u64>::empty(),
            r.counter() == 1,
            r.runtimes_model() == Seq::<R>::empty(),
    {
        let r = MultiRuntimeManager { runtimes: Vec::new(), plugins: Vec::new(), next_id: 1u64 };
        proof {
            assert(r.loaded() =~= Set::<u64>::empty());
            assert(r.ids() =~= Seq::<u64>::empty());
            assert(r.runtimes_model() =~= Seq::<R>::empty());
        }
        r
    }

    /// Registers a runtime at the end of the list. It will be probed after
    /// every runtime registered before it.
    pub fn register_runtime(&mut self, runtime: R)
        requires
            old(self).wf(),
        ensures
            final(self).wf(),
            final(self).runtimes_model() == old(self).runtimes_model().push(runtime),
            final(self).loaded() == old(self).loaded(),
            final(self).counter() == old(self).counter(),
            final(self).ids() == old(self).ids(),
            forall|x: u64| #[trigger] final(self).name_model(x) == old(self).name_model(x),
            forall|x: u64|
                old(self).loaded().contains(x) ==> #[trigger] final(self).runtime_index_of(x)
                    == old(self).runtime_index_of(x),
    {
        let ghost pre = *self;
        self.runtimes.push(runtime);
        proof {
            assert(self.ids() =~= pre.ids());
            assert(self.loaded() =~= pre.loaded());
            assert forall|x: u64| #[trigger] self.name_model(x) == pre.name_model(x) by {
                if pre.ids().contains(x) {
                    let k = choose|k: int| 0 <= k < pre.ids().len() && pre.ids()[k] == x;
                    assert(pre.plugins@[k].0 == x);
                    Self::lemma_same_slot(&pre, self, k, k);
                }
            }
            assert forall|x: u64|
                pre.loaded().contains(x) implies #[trigger] self.runtime_index_of(x)
                    == pre.runtime_index_of(x) by {
                let k = choose|k: int| 0 <= k < pre.ids().len() && pre.ids()[k] == x;
                assert(pre.plugins@[k].0 == x);
                Self::lemma_same_slot(&pre, self, k, k);
            }
        }
    }

    /// Returns the names of all registered runtimes, in registration order.
    pub fn runtime_names(&self) -> (r: Vec<String>)
        ensures
            r@.len() == self.runtimes_model().len(),
            forall|i: int|
                0 <= i < r@.len() ==> (#[trigger] r@[i])@ == self.runtimes_model()[i].name_model(),
    {
        let mut out: Vec<String> = Vec::new();
        let mut idx: usize = 0;
        while idx < self.runtimes.len()
            invariant
                idx <= self.runtimes@.len(),
                out@.len() == idx,
                forall|i: int|
                    0 <= i < idx ==> (#[trigger] out@[i])@ == self.runtimes@[i].name_model(),
            decreases self.runtimes@.len() - idx,
        {
            out.push(self.runtimes[idx].runtime_name());
            idx += 1;
        }
        out
    }

    /// Returns the number of registered runtimes.
    pub fn runtime_count(&self) -> (n: usize)
        ensures
            n == self.runtimes_model().len(),
    {
        self.runtimes.len()
    }

    /// Returns the number of currently loaded plugins.
    pub fn plugin_count(&self) -> (n: usize)
        ensures
            n == self.ids().len(),
    {
        self.plugins.len()
    }

    /// Returns all loaded plugin identifiers, in load order: each loaded
    /// identifier exactly once.
    pub fn plugin_ids(&self) -> (r: Vec<PluginId>)
        requires
            self.wf(),
        ensures
            r@.len() == self.ids().len(),
            forall|i: int| 0 <= i < r@.len() ==> (#[trigger] r@[i]).0 == self.ids()[i],
            forall|i: int, j: int|
                0 <= i < j < r@.len() ==> (#[trigger] r@[i]).0 != (#[trigger] r@[j]).0,
            forall|i: int| 0 <= i < r@.len() ==> self.loaded().contains((#[trigger] r@[i]).0),
            forall|id: u64|
                self.loaded().contains(id) ==> exists|i: int|
                    0 <= i < r@.len() && (#[trigger] r@[i]).0 == id,
    {
        let mut out: Vec<PluginId> = Vec::new();
        let mut idx: usize = 0;
        while idx < self.plugins.len()
            invariant
                idx <= self.plugins@.len(),
                out@.len() == idx,
                forall|i: int| 0 <= i < idx ==> (#[trigger] out@[i]).0 == self.ids()[i],
            decreases self.plugins@.len() - idx,
        {
            out.push(PluginId(self.plugins[idx].0));
            idx += 1;
        }
        proof {
            assert forall|i: int|
                0 <= i < out@.len() implies self.loaded().contains((#[trigger] out@[i]).0) by {
                assert(self.ids()[i] == out@[i].0);
                assert(self.ids().contains(out@[i].0));
            }
            assert forall|id: u64|
                self.loaded().contains(id) implies exists|i: int|
                    0 <= i < out@.len() && (#[trigger] out@[i]).0 == id by {
                let i = choose|i: int| 0 <= i < self.ids().len() && self.ids()[i] == id;
                assert(out@[i].0 == id);
            }
        }
        out
    }

    /// Finds the position of the first runtime that supports the source.
    fn find_compatible_runtime(&self, source: &PluginSource) -> (r: Option<usize>)
        ensures
            match r {
                Some(i) => i < self.runtimes@.len() && self.runtimes@[i as int].supports_spec(
                    source,
                ) && first_supporting(self.runtimes_model(), source) == Some(i as int),
                None => first_supporting(self.runtimes_model(), source) is None,
            },
    {
        let mut idx: usize = 0;
        while idx < self.runtimes.len()
            invariant
                idx <= self.runtimes@.len(),
                forall|j: int| 0 <= j < idx ==> !(#[trigger] self.runtimes@[j]).supports_spec(
                    source,
                ),
            decreases self.runtimes@.len() - idx,
        {
            if self.runtimes[idx].supports_plugin(source) {
                proof {
                    lemma_first_supporting(self.runtimes@, source, idx as int);
                }
                return Some(idx);
            }
            idx += 1;
        }
        proof {
            lemma_first_supporting(self.runtimes@, source, self.runtimes@.len() as int);
        }
        None
    }

    /// Finds the table index of a plugin identifier, if it is loaded.
    fn find_id(&self, id: u64) -> (r: Option<usize>)
        ensures
            match r {
                Some(i) => i < self.plugins@.len() && self.plugins@[i as int].0 == id,
                None => !self.loaded().contains(id),
            },
    {
        let mut idx: usize = 0;
        while idx < self.plugins.len()
            invariant
                idx <= self.plugins@.len(),
                forall|j: int| 0 <= j < idx ==> self.plugins@[j].0 != id,
            decreases self.plugins@.len() - idx,
        {
            if self.plugins[idx].0 == id {
                return Some(idx);
            }
            idx += 1;
        }
        proof {
            assert forall|i: int| 0 <= i < self.ids().len() implies self.ids()[i] != id by {}
        }
        None
    }

    /// The looked-up entry for a loaded identifier is the entry at its table
    /// index.
    proof fn lemma_entry_at(&self, i: int)
        requires
            self.wf(),
            0 <= i < self.plugins@.len(),
        ensures
            self.loaded().contains(self.plugins@[i].0),
            self.index_of(self.plugins@[i].0) == i,
            self.plugin_model(self.plugins@[i].0) == self.plugins@[i].2,
            self.name_model(self.plugins@[i].0) == self.plugins@[i].2.name_model(),
    {
        let id = self.plugins@[i].0;
        assert(self.ids()[i] == id);
        assert(self.ids().contains(id));
        let j = self.index_of(id);
        assert(0 <= j < self.plugins@.len() && self.plugins@[j].0 == id);
        assert(self.ids()[j] == id);
        assert(j == i);
    }

    /// When one identifier's entry keeps its routing position across an
    /// operation, its routing is unchanged; when it also keeps its plugin,
    /// its name is too.
    proof fn lemma_same_slot(pre: &Self, post: &Self, i: int, j: int)
        requires
            pre.wf(),
            post.wf(),
            0 <= i < pre.plugins@.len(),
            0 <= j < post.plugins@.len(),
            pre.plugins@[i].0 == post.plugins@[j].0,
            pre.plugins@[i].1 == post.plugins@[j].1,
        ensures
            post.runtime_index_of(pre.plugins@[i].0) == pre.runtime_index_of(pre.plugins@[i].0),
            pre.plugins@[i].2 == post.plugins@[j].2 ==> post.name_model(pre.plugins@[i].0)
                == pre.name_model(pre.plugins@[i].0),
    {
        pre.lemma_entry_at(i);
        post.lemma_entry_at(j);
    }
}

impl<R: Runtime> Default for MultiRuntimeManager<R> {
    /// The default manager is empty: no runtimes, no plugins.
    fn default() -> (r: Self)
        ensures
            r.wf(),
            r.loaded() == Set::<u64>::empty(),
            r.ids() == Seq::<u64>::empty(),
            r.counter() == 1,
            r.runtimes_model() == Seq::<R>::empty(),
    {
        MultiRuntimeManager::new()
    }
}

impl<R: Runtime> PluginManager for MultiRuntimeManager<R> {
    type Func = R::Func;

    /// Identifiers in the table never repeat and are all below the counter;
    /// every entry's runtime position points into the runtime list.
    closed spec fn wf(&self) -> bool {
        &&& forall|i: int, j: int|
            0 <= i < j < self.ids().len() ==> (#[trigger] self.ids()[i]) != (
            #[trigger] self.ids()[j])
        &&& forall|i: int| 0 <= i < self.ids().len() ==> (#[trigger] self.ids()[i]) < self.next_id
        &&& forall|i: int|
            0 <= i < self.plugins@.len() ==> (#[trigger] self.plugins@[i].1)
                < self.runtimes@.len()
    }

    closed spec fn loaded(&self) -> Set<u64> {
        Set::new(|id: u64| self.ids().contains(id))
    }

    closed spec fn counter(&self) -> u64 {
        self.next_id
    }

    closed spec fn name_model(&self, id: u64) -> Option<Seq<char>> {
        if self.ids().contains(id) {
            self.plugins@[self.index_of(id)].2.name_model()
        } else {
            None
        }
    }

    /// Loading probes the registered runtimes in order and lets the first
    /// one that supports the source load it, recording its position for
    /// later calls. When none supports the source, loading fails with a
    /// [`PluginError::LoadError`] and the manager is unchanged.
    fn load_plugin(&mut self, source: PluginSource, context: &HostContext<R::Func>) -> (r: Result<
        PluginId,
        PluginError,
    >)
        ensures
            first_supporting(old(self).runtimes_model(), &source) is None ==> *final(self) == *old(
                self,
            ) && (r matches Err(e) && e matches PluginError::LoadError(m) && m@
                == "No compatible runtime found for this plugin source"@),
            r matches Ok(id) ==> first_supporting(old(self).runtimes_model(), &source) matches
                Some(k) && final(self).runtime_index_of(id.0) == k,
            final(self).runtimes_model().len() == old(self).runtimes_model().len(),
            first_supporting(old(self).runtimes_model(), &source) is Some && old(self).counter()
                == u64::MAX ==> *final(self) == *old(self) && (r matches Err(e) && e matches
                PluginError::LoadError(m) && m@ == "plugin identifier space exhausted"@),
            r matches Ok(id) ==> final(self).ids() == old(self).ids().push(id.0)
                && final(self).counter() == id.0 + 1,
            r is Err ==> final(self).ids() == old(self).ids(),
            r matches Ok(id) ==> (first_supporting(old(self).runtimes_model(), &source) matches
                Some(k) && R::load_post(
                old(self).runtimes_model()[k],
                final(self).runtimes_model()[k],
                &source,
                Ok(final(self).plugin_model(id.0)),
            ) && final(self).name_model(id.0) == final(self).plugin_model(id.0).name_model()),
            first_supporting(old(self).runtimes_model(), &source) is Some && old(self).counter()
                < u64::MAX ==> (r matches Err(e) ==> R::load_post(
                old(self).runtimes_model()[first_supporting(
                    old(self).runtimes_model(),
                    &source,
                )->Some_0],
                final(self).runtimes_model()[first_supporting(
                    old(self).runtimes_model(),
                    &source,
                )->Some_0],
                &source,
                Err(e),
            )),
            first_supporting(old(self).runtimes_model(), &source) matches Some(k) ==> forall|
                j: int,
            |
                0 <= j < old(self).runtimes_model().len() && j != k
                    ==> final(self).runtimes_model()[j] == old(self).runtimes_model()[j],
            forall|x: u64|
                old(self).loaded().contains(x) ==> #[trigger] final(self).name_model(x)
                    == old(self).name_model(x),
            forall|x: u64|
                old(self).loaded().contains(x) ==> #[trigger] final(self).runtime_index_of(x)
                    == old(self).runtime_index_of(x),
    {
        let ghost pre = *self;
        match self.find_compatible_runtime(&source) {
            None => Err(PluginError::LoadError(String::from_str(
                "No compatible runtime found for this plugin source",
            ))),
            Some(k) => {
                if self.next_id == u64::MAX {
                    return Err(PluginError::LoadError(String::from_str(
                        "plugin identifier space exhausted",
                    )));
                }
                let mut rt = self.runtimes.remove(k);
                let outcome = rt.load(&source, context);
                self.runtimes.insert(k, rt);
                proof {
                    assert(self.runtimes@.len() == pre.runtimes@.len());
                    assert forall|j: int|
                        0 <= j < pre.runtimes@.len() && j != k implies self.runtimes@[j]
                            == pre.runtimes@[j] by {}
                    assert(self.ids() =~= pre.ids());
                    assert(self.loaded() =~= pre.loaded());
                    assert forall|x: u64|
                        pre.loaded().contains(x) implies #[trigger] self.name_model(x)
                            == pre.name_model(x) by {
                        let m = choose|m: int| 0 <= m < pre.ids().len() && pre.ids()[m] == x;
                        assert(pre.plugins@[m].0 == x);
                        assert(self.plugins@[m] == pre.plugins@[m]);
                        Self::lemma_same_slot(&pre, self, m, m);
                    }
                    assert forall|x: u64|
                        pre.loaded().contains(x) implies #[trigger] self.runtime_index_of(x)
                            == pre.runtime_index_of(x) by {
                        let m = choose|m: int| 0 <= m < pre.ids().len() && pre.ids()[m] == x;
                        assert(pre.plugins@[m].0 == x);
                        assert(self.plugins@[m] == pre.plugins@[m]);
                        Self::lemma_same_slot(&pre, self, m, m);
                    }
                }
                match outcome {
                    Err(e) => Err(e),
                    Ok(plugin) => {
                        let id = self.next_id;
                        self.next_id = id + 1;
                        let ghost mid = *self;
                        self.plugins.push((id, k, plugin));
                        proof {
                            assert(self.ids() =~= pre.ids().push(id));
                            assert(!pre.ids().contains(id)) by {
                                if pre.ids().contains(id) {
                                    let i = choose|i: int|
                                        0 <= i < pre.ids().len() && pre.ids()[i] == id;
                                    assert(pre.ids()[i] < pre.next_id);
                                }
                            }
                            assert forall|a: int, b: int|
                                0 <= a < b < self.ids().len() implies (#[trigger] self.ids()[a])
                                != (#[trigger] self.ids()[b]) by {
                                if b < self.ids().len() - 1 {
                                    assert(pre.ids()[a] == self.ids()[a]);
                                    assert(pre.ids()[b] == self.ids()[b]);
                                } else {
                                    assert(self.ids()[a] == pre.ids()[a]);
                                    assert(pre.ids().contains(pre.ids()[a]));
                                }
                            }
                            assert forall|i: int|
                                0 <= i < self.ids().len() implies (#[trigger] self.ids()[i])
                                < self.next_id by {
                                if i < self.ids().len() - 1 {
                                    assert(self.ids()[i] == pre.ids()[i]);
                                }
                            }
                            assert forall|i: int|
                                0 <= i < self.plugins@.len() implies (
                            #[trigger] self.plugins@[i].1) < self.runtimes@.len() by {
                                if i < self.plugins@.len() - 1 {
                                    assert(self.plugins@[i] == mid.plugins@[i]);
                                }
                            }
                            assert(self.loaded() =~= pre.loaded().insert(id)) by {
                                assert forall|x: u64|
                                    self.ids().contains(x) implies pre.ids().contains(x) || x
                                    == id by {
                                    let i = choose|i: int|
                                        0 <= i < self.ids().len() && self.ids()[i] == x;
                                    if i < self.ids().len() - 1 {
                                        assert(pre.ids()[i] == x);
                                    }
                                }
                                assert forall|x: u64|
                                    pre.ids().contains(x) implies self.ids().contains(x) by {
                                    let i = choose|i: int|
                                        0 <= i < pre.ids().len() && pre.ids()[i] == x;
                                    assert(self.ids()[i] == x);
                                }
                                assert(self.ids()[self.ids().len() - 1] == id);
                                assert(self.ids().contains(id));
                            }
                            self.lemma_entry_at(self.plugins@.len() - 1);
                            assert(self.wf());
                            assert(pre.wf());
                            assert forall|x: u64|
                                pre.loaded().contains(x) implies #[trigger] self.name_model(x)
                                    == pre.name_model(x) by {
                                let m = choose|m: int|
                                    0 <= m < pre.ids().len() && pre.ids()[m] == x;
                                assert(pre.plugins@[m].0 == x);
                                assert(mid.plugins@[m] == pre.plugins@[m]);
                                assert(self.plugins@[m] == mid.plugins@[m]);
                                Self::lemma_same_slot(&pre, self, m, m);
                            }
                            assert forall|x: u64|
                                pre.loaded().contains(x) implies #[trigger] self.runtime_index_of(
                                    x,
                                ) == pre.runtime_index_of(x) by {
                                let m = choose|m: int|
                                    0 <= m < pre.ids().len() && pre.ids()[m] == x;
                                assert(pre.plugins@[m].0 == x);
                                assert(mid.plugins@[m] == pre.plugins@[m]);
                                assert(self.plugins@[m] == mid.plugins@[m]);
                                Self::lemma_same_slot(&pre, self, m, m);
                            }
                        }
                        Ok(PluginId(id))
                    },
                }
            },
        }
    }

    /// Only the called plugin's entry can change, and only its plugin
    /// payload: identifiers, routing positions, the counter and the
    /// runtime list are untouched.
    fn call_plugin(&mut self, id: PluginId, function_name: &str, args: &Vec<Value>) -> (r: Result<
        Value,
        PluginError,
    >)
        ensures
            final(self).ids() == old(self).ids(),
            final(self).runtimes_model() == old(self).runtimes_model(),
            forall|x: u64|
                old(self).loaded().contains(x) ==> #[trigger] final(self).runtime_index_of(x)
                    == old(self).runtime_index_of(x),
            forall|x: u64|
                x != id.0 && old(self).loaded().contains(x) ==> #[trigger] final(self).name_model(
                    x,
                ) == old(self).name_model(x),
            old(self).loaded().contains(id.0) ==> old(self).runtimes_model()[old(
                self,
            ).runtime_index_of(id.0)].call_post(
                old(self).plugin_model(id.0),
                final(self).plugin_model(id.0),
                function_name@,
                args.deep_view(),
                r,
            ),
    {
        let ghost pre = *self;
        match self.find_id(id.0) {
            None => Err(PluginError::InvalidPluginState),
            Some(i) => {
                proof {
                    assert(pre.ids()[i as int] == id.0);
                    assert(pre.loaded().contains(id.0));
                    pre.lemma_entry_at(i as int);
                    assert(pre.runtime_index_of(id.0) == pre.plugins@[i as int].1 as int);
                }
                let mut entry = self.plugins.remove(i);
                let res = self.runtimes[entry.1].call(&mut entry.2, function_name, args);
                self.plugins.insert(i, entry);
                proof {
                    assert(self.ids() =~= pre.ids());
                    assert(self.loaded() =~= pre.loaded());
                    self.lemma_entry_at(i as int);
                    assert(self.plugin_model(id.0) == self.plugins@[i as int].2);
                    assert forall|j: int|
                        0 <= j < self.plugins@.len() implies (#[trigger] self.plugins@[j].1)
                        < self.runtimes@.len() by {
                        if j != i {
                            if j < i {
                                assert(self.plugins@[j] == pre.plugins@[j]);
                            } else {
                                assert(self.plugins@[j] == pre.plugins@[j]);
                            }
                        }
                    }
                    assert(self.plugins@[i as int].0 == pre.plugins@[i as int].0);
                    assert(self.plugins@[i as int].1 == pre.plugins@[i as int].1);
                    assert forall|x: u64|
                        pre.loaded().contains(x) implies #[trigger] self.runtime_index_of(x)
                            == pre.runtime_index_of(x) by {
                        let m = choose|m: int| 0 <= m < pre.ids().len() && pre.ids()[m] == x;
                        assert(pre.plugins@[m].0 == x);
                        if m != i {
                            assert(self.plugins@[m] == pre.plugins@[m]);
                        }
                        Self::lemma_same_slot(&pre, self, m, m);
                    }
                    assert forall|x: u64|
                        x != id.0 && pre.loaded().contains(x) implies #[trigger] self.name_model(
                            x,
                        ) == pre.name_model(x) by {
                        let m = choose|m: int| 0 <= m < pre.ids().len() && pre.ids()[m] == x;
                        assert(pre.plugins@[m].0 == x);
                        assert(m != i);
                        assert(self.plugins@[m] == pre.plugins@[m]);
                        Self::lemma_same_slot(&pre, self, m, m);
                    }
                }
                res
            },
        }
    }

    /// Removal takes exactly the one entry: every other plugin keeps its
    /// place, its name and its routing position, and the runtime list is
    /// untouched.
    fn unload_plugin(&mut self, id: PluginId) -> (r: Result<(), PluginError>)
        ensures
            r is Ok ==> final(self).ids().len() == old(self).ids().len() - 1,
            r is Err ==> final(self).ids() == old(self).ids(),
            final(self).runtimes_model() == old(self).runtimes_model(),
            forall|x: u64|
                x != id.0 && old(self).loaded().contains(x) ==> #[trigger] final(self).name_model(
                    x,
                ) == old(self).name_model(x),
            forall|x: u64|
                x != id.0 && old(self).loaded().contains(x)
                    ==> #[trigger] final(self).runtime_index_of(x)
                    == old(self).runtime_index_of(x),
    {
        let ghost pre = *self;
        match self.find_id(id.0) {
            None => Err(PluginError::InvalidPluginState),
            Some(i) => {
                let _ = self.plugins.remove(i);
                proof {
                    assert(pre.ids()[i as int] == id.0);
                    assert(pre.ids().contains(id.0));
                    assert forall|k: int|
                        0 <= k < self.ids().len() implies #[trigger] self.ids()[k] == (if k
                        < i {
                            pre.ids()[k]
                        } else {
                            pre.ids()[k + 1]
                        }) by {}
                    assert forall|a: int, b: int|
                        0 <= a < b < self.ids().len() implies (#[trigger] self.ids()[a]) != (
                    #[trigger] self.ids()[b]) by {}
                    assert forall|k: int|
                        0 <= k < self.ids().len() implies (#[trigger] self.ids()[k])
                        < self.next_id by {}
                    assert forall|k: int|
                        0 <= k < self.plugins@.len() implies (#[trigger] self.plugins@[k].1)
                        < self.runtimes@.len() by {
                        if k < i {
                            assert(self.plugins@[k] == pre.plugins@[k]);
                        } else {
                            assert(self.plugins@[k] == pre.plugins@[k + 1]);
                        }
                    }
                    assert(self.loaded() =~= pre.loaded().remove(id.0)) by {
                        assert forall|x: u64| self.ids().contains(x) implies pre.ids().contains(x)
                            && x != id.0 by {
                            let k = choose|k: int|
                                0 <= k < self.ids().len() && self.ids()[k] == x;
                            if k < i {
                                assert(pre.ids()[k] == x);
                            } else {
                                assert(pre.ids()[k + 1] == x);
                            }
                        }
                        assert forall|x: u64|
                            pre.ids().contains(x) && x != id.0 implies self.ids().contains(x) by {
                            let k = choose|k: int|
                                0 <= k < pre.ids().len() && pre.ids()[k] == x;
                            if k < i {
                                assert(self.ids()[k] == x);
                            } else {
                                assert(k != i);
                                assert(self.ids()[k - 1] == x);
                            }
                        }
                    }
                    assert forall|x: u64|
                        x != id.0 && pre.loaded().contains(x) implies #[trigger] self.name_model(
                            x,
                        ) == pre.name_model(x) by {
                        let k = choose|k: int| 0 <= k < pre.ids().len() && pre.ids()[k] == x;
                        assert(pre.plugins@[k].0 == x);
                        assert(k != i);
                        if k < i {
                            assert(self.plugins@[k] == pre.plugins@[k]);
                            Self::lemma_same_slot(&pre, self, k, k);
                        } else {
                            assert(self.plugins@[k - 1] == pre.plugins@[k]);
                            Self::lemma_same_slot(&pre, self, k, k - 1);
                        }
                    }
                    assert forall|x: u64|
                        x != id.0 && pre.loaded().contains(x) implies #[trigger] self
                        .runtime_index_of(x) == pre.runtime_index_of(x) by {
                        let k = choose|k: int| 0 <= k < pre.ids().len() && pre.ids()[k] == x;
                        assert(pre.plugins@[k].0 == x);
                        assert(k != i);
                        if k < i {
                            assert(self.plugins@[k] == pre.plugins@[k]);
                            Self::lemma_same_slot(&pre, self, k, k);
                        } else {
                            assert(self.plugins@[k - 1] == pre.plugins@[k]);
                            Self::lemma_same_slot(&pre, self, k, k - 1);
                        }
                    }
                }
                Ok(())
            },
        }
    }

    fn plugin_name(&self, id: PluginId) -> (r: Option<&str>)
    {
        match self.find_id(id.0) {
            None => None,
            Some(i) => {
                proof {
                    self.lemma_entry_at(i as int);
                }
                self.plugins[i].2.name()
            },
        }
    }

    fn is_plugin_loaded(&self, id: PluginId) -> (b: bool)
    {
        match self.find_id(id.0) {
            Some(i) => {
                proof {
                    assert(self.ids()[i as int] == id.0);
                }
                true
            },
            None => false,
        }
    }
}

} // verus!
