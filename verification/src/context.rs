//! Capability registry: the named host functions a plugin may call.
//!
//! A [`HostContext`] maps unique string names to capabilities. Each
//! capability records the ordered list of parameter kinds its callable
//! expects, so a call is shape-checked — exact arity, exact kind at every
//! position — before the native callable runs.

use vstd::prelude::*;

use crate::error::PluginError;
use crate::host_function::{HostFunction, HostFunctionType};
use crate::value::{kind_of, Value, ValueKind, ValueModel};

verus! {

broadcast use vstd::std_specs::vec::group_vec_axioms, vstd::seq::group_seq_axioms;

/// Whether a value sequence fits a declared parameter list: exactly as many
/// arguments as parameters, and the kind of every argument equals the
/// declared kind at its position.
pub open spec fn args_match(args: Seq<ValueModel>, params: Seq<ValueKind>) -> bool {
    args.len() == params.len() && forall|i: int|
        0 <= i < args.len() ==> kind_of(#[trigger] args[i]) == params[i]
}

/// Checks a value sequence against a declared parameter list.
pub fn check_args(params: &Vec<ValueKind>, args: &Vec<Value>) -> (ok: bool)
    ensures
        ok == args_match(args.deep_view(), params@),
{
    if args.len() != params.len() {
        return false;
    }
    let mut idx: usize = 0;
    while idx < args.len()
        invariant
            idx <= args.len(),
            args.len() == params.len(),
            forall|i: int| 0 <= i < idx ==> kind_of(#[trigger] args.deep_view()[i]) == params@[i],
        decreases args.len() - idx,
    {
        let arg_kind = args[idx].kind();
        if !(arg_kind == params[idx]) {
            assert(kind_of(args.deep_view()[idx as int]) != params@[idx as int]);
            return false;
        }
        assert(kind_of(args.deep_view()[idx as int]) == params@[idx as int]);
        idx += 1;
    }
    true
}

/// One registered capability: a name, the declared parameter kinds of its
/// callable, whether it is synchronous or asynchronous, and the callable
/// itself. Immutable after construction.
pub struct HostCapability<F> {
    name: String,
    params: Vec<ValueKind>,
    kind: HostFunctionType,
    func: F,
}

/// Ghost summary of a capability: the callable bound to the name, its
/// declared parameter kinds, and whether it was registered as synchronous
/// or asynchronous.
pub struct CapabilityModel<F> {
    /// The declared parameter kinds, in order.
    pub params: Seq<ValueKind>,
    /// Synchronous or asynchronous.
    pub kind: HostFunctionType,
    /// The callable the name is bound to.
    pub func: F,
}

impl<F> HostCapability<F> {
    /// The capability's name, as characters.
    pub closed spec fn name_model(&self) -> Seq<char> {
        self.name@
    }

    /// The capability's ghost summary.
    pub closed spec fn model(&self) -> CapabilityModel<F> {
        CapabilityModel { params: self.params@, kind: self.kind, func: self.func }
    }

    /// Creates a synchronous capability.
    pub fn new_sync(name: String, params: Vec<ValueKind>, func: F) -> (r: Self)
        ensures
            r.name_model() == name@,
            r.model() == (CapabilityModel { params: params@, kind: HostFunctionType::Sync, func }),
    {
        HostCapability { name, params, kind: HostFunctionType::Sync, func }
    }

    /// Creates an asynchronous capability.
    pub fn new_async(name: String, params: Vec<ValueKind>, func: F) -> (r: Self)
        ensures
            r.name_model() == name@,
            r.model() == (CapabilityModel {
                params: params@,
                kind: HostFunctionType::Async,
                func,
            }),
    {
        HostCapability { name, params, kind: HostFunctionType::Async, func }
    }

    /// The capability's name.
    pub fn name(&self) -> (r: &String)
        ensures
            r@ == self.name_model(),
    {
        &self.name
    }
}

impl<F: Clone> Clone for HostCapability<F> {
    /// Cloning keeps the name, the declared parameter kinds and the kind
    /// tag; the cloned callable relates to the original by whatever `F`'s
    /// `Clone` implementation promises.
    fn clone(&self) -> (r: Self)
        ensures
            r.name_model() == self.name_model(),
            r.model().params == self.model().params,
            r.model().kind == self.model().kind,
            cloned::<F>(self.model().func, r.model().func),
    {
        HostCapability {
            name: self.name.clone(),
            params: self.params.clone(),
            kind: self.kind,
            func: self.func.clone(),
        }
    }
}

/// The registry of host capabilities handed to a runtime at load time, so
/// that plugin code can call them by name.
///
/// Registration is expected to finish before any plugin loads; afterwards
/// the context is only read.
pub struct HostContext<F> {
    functions: Vec<HostCapability<F>>,
}

impl<F> HostContext<F> {
    /// Well-formedness: names never repeat, because `register` overwrites in
    /// place instead of appending a duplicate. Established by [`Self::new`]
    /// and preserved by every registration.
    pub closed spec fn wf(&self) -> bool {
        forall|i: int, j: int|
            0 <= i < j < self.names().len() ==> (#[trigger] self.names()[i]) != (
            #[trigger] self.names()[j])
    }

    /// The registered names, in registration order.
    pub closed spec fn names(&self) -> Seq<Seq<char>> {
        Seq::new(self.functions@.len(), |i: int| self.functions@[i].name_model())
    }

    /// Whether a capability is registered under this name.
    pub open spec fn has_capability(&self, name: Seq<char>) -> bool {
        self.names().contains(name)
    }

    /// The capability registered under a name. Meaningful only when
    /// [`Self::has_capability`] holds of that name.
    pub closed spec fn capability(&self, name: Seq<char>) -> CapabilityModel<F> {
        let i = choose|i: int|
            0 <= i < self.functions@.len() && self.functions@[i].name_model() == name;
        self.functions@[i].model()
    }

    /// What a seed list registers under a name: the capability of the last
    /// entry carrying that name, if any — later entries win, as repeated
    /// registration would.
    pub open spec fn seeded(caps: Seq<HostCapability<F>>, name: Seq<char>) -> Option<
        CapabilityModel<F>,
    >
        decreases caps.len(),
    {
        if caps.len() == 0 {
            None
        } else if caps.last().name_model() == name {
            Some(caps.last().model())
        } else {
            Self::seeded(caps.drop_last(), name)
        }
    }

    /// Creates a host context pre-seeded from an explicit capability list,
    /// assembled by the host application at startup. Entries register in
    /// list order, so of two entries sharing a name the later wins.
    pub fn with_capabilities(caps: Vec<HostCapability<F>>) -> (r: Self)
        ensures
            r.wf(),
            forall|n: Seq<char>| r.has_capability(n) == (#[trigger] Self::seeded(caps@, n))
                is Some,
            forall|n: Seq<char>|
                (#[trigger] Self::seeded(caps@, n)) matches Some(m) ==> r.capability(n) == m,
    {
        let ghost orig = caps@;
        let total = caps.len();
        let mut caps = caps;
        let mut ctx = Self::new();
        let mut done: usize = 0;
        while caps.len() > 0
            invariant
                ctx.wf(),
                orig.len() == total,
                done + caps@.len() == orig.len(),
                caps@ == orig.subrange(done as int, orig.len() as int),
                forall|n: Seq<char>| ctx.has_capability(n) == (#[trigger] Self::seeded(
                    orig.subrange(0, done as int),
                    n,
                )) is Some,
                forall|n: Seq<char>|
                    (#[trigger] Self::seeded(orig.subrange(0, done as int), n)) matches Some(m)
                        ==> ctx.capability(n) == m,
            decreases caps@.len(),
        {
            let cap = caps.remove(0);
            let ghost capg = cap;
            proof {
                assert(capg == orig[done as int]);
            }
            let ghost prev_prefix = orig.subrange(0, done as int);
            let ghost next_prefix = orig.subrange(0, done as int + 1);
            let ghost prev_ctx = ctx;
            ctx.register_capability(cap);
            done += 1;
            proof {
                assert(next_prefix.drop_last() =~= prev_prefix);
                assert(next_prefix.last() == capg);
                assert(caps@ =~= orig.subrange(done as int, orig.len() as int));
                assert forall|n: Seq<char>| ctx.has_capability(n) == (#[trigger] Self::seeded(
                    next_prefix,
                    n,
                )) is Some by {
                    if n != capg.name_model() {
                        assert(ctx.has_capability(n) == prev_ctx.has_capability(n));
                        assert(Self::seeded(next_prefix, n) == Self::seeded(prev_prefix, n));
                    }
                }
                assert forall|n: Seq<char>|
                    (#[trigger] Self::seeded(next_prefix, n)) is Some implies ctx.capability(n)
                        == Self::seeded(next_prefix, n)->Some_0 by {
                    if n != capg.name_model() {
                        assert(Self::seeded(next_prefix, n) == Self::seeded(prev_prefix, n));
                        assert(prev_ctx.has_capability(n));
                        assert(ctx.capability(n) == prev_ctx.capability(n));
                    }
                }
            }
        }
        proof {
            assert(orig.subrange(0, orig.len() as int) =~= orig);
        }
        ctx
    }

    /// Creates a new empty host context.
    pub fn new() -> (r: Self)
        ensures
            r.wf(),
            r.names() == Seq::<Seq<char>>::empty(),
    {
        let r = HostContext { functions: Vec::new() };
        proof {
            assert(r.names() =~= Seq::<Seq<char>>::empty());
        }
        r
    }

    /// Finds the index of the capability with this name, if any.
    fn find_index(&self, name: &String) -> (r: Option<usize>)
        ensures
            match r {
                Some(i) => i < self.functions@.len() && self.functions@[i as int].name_model()
                    == name@,
                None => !self.has_capability(name@),
            },
    {
        let mut idx: usize = 0;
        while idx < self.functions.len()
            invariant
                idx <= self.functions@.len(),
                forall|j: int| 0 <= j < idx ==> self.functions@[j].name_model() != name@,
            decreases self.functions@.len() - idx,
        {
            if self.functions[idx].name == *name {
                return Some(idx);
            }
            idx += 1;
        }
        proof {
            assert forall|i: int| 0 <= i < self.names().len() implies self.names()[i] != name@
                by {}
        }
        None
    }

    /// Registers a capability, overwriting any capability already registered
    /// under the same name — last write wins, no error.
    fn register_capability(&mut self, cap: HostCapability<F>)
        requires
            old(self).wf(),
        ensures
            final(self).wf(),
            final(self).has_capability(cap.name_model()),
            final(self).capability(cap.name_model()) == cap.model(),
            forall|n: Seq<char>|
                n != cap.name_model() ==> #[trigger] final(self).has_capability(n)
                    == old(self).has_capability(n),
            forall|n: Seq<char>|
                n != cap.name_model() && old(self).has_capability(n) ==> #[trigger] final(self).capability(n)
                    == old(self).capability(n),
            old(self).has_capability(cap.name_model()) ==> final(self).names()
                == old(self).names(),
            !old(self).has_capability(cap.name_model()) ==> final(self).names()
                == old(self).names().push(cap.name_model()),
    {
        let ghost old_names = self.names();
        match self.find_index(&cap.name) {
            Some(i) => {
                let ghost name = cap.name_model();
                self.functions[i] = cap;
                proof {
                    assert(self.names() =~= old_names);
                    self.lemma_capability_at(i as int);
                    assert(self.wf());
                    assert forall|n: Seq<char>|
                        n != name && old(self).has_capability(n) implies #[trigger] self
                        .capability(n) == old(self).capability(n) by {
                        let j = choose|j: int|
                            0 <= j < old(self).functions@.len()
                                && old(self).functions@[j].name_model() == n;
                        assert(self.functions@[j].name_model() == n);
                        self.lemma_capability_at(j);
                    }
                }
            },
            None => {
                let ghost name = cap.name_model();
                self.functions.push(cap);
                proof {
                    assert(self.names() =~= old_names.push(name));
                    assert forall|a: int, b: int|
                        0 <= a < b < self.names().len() implies (#[trigger] self.names()[a]) != (
                    #[trigger] self.names()[b]) by {
                        if b == self.names().len() - 1 {
                            assert(old_names[a] == self.names()[a]);
                            assert(!old(self).has_capability(name));
                            assert(old(self).names()[a] != name) by {
                                if old_names[a] == name {
                                    assert(old_names.contains(name));
                                }
                            }
                        } else {
                            assert(old_names[a] == self.names()[a]);
                            assert(old_names[b] == self.names()[b]);
                        }
                    }
                    assert(self.wf());
                    self.lemma_capability_at(self.functions@.len() - 1);
                    assert forall|n: Seq<char>|
                        n != name && old(self).has_capability(n) implies #[trigger] self
                        .capability(n) == old(self).capability(n) by {
                        let j = choose|j: int|
                            0 <= j < old(self).functions@.len()
                                && old(self).functions@[j].name_model() == n;
                        assert(self.functions@[j].name_model() == n);
                        self.lemma_capability_at(j);
                    }
                    assert forall|n: Seq<char>|
                        n != name implies self.has_capability(n)
                            == old(self).has_capability(n) by {
                        if self.has_capability(n) {
                            let j = choose|j: int|
                                0 <= j < self.names().len() && self.names()[j] == n;
                            assert(old(self).names()[j] == n);
                        }
                        if old(self).has_capability(n) {
                            let j = choose|j: int|
                                0 <= j < old_names.len() && old_names[j] == n;
                            assert(self.names()[j] == n);
                        }
                    }
                }
            },
        }
    }

    /// When names are unique, the capability looked up under the name at an
    /// index is the capability at that index.
    proof fn lemma_capability_at(&self, i: int)
        requires
            self.wf(),
            0 <= i < self.functions@.len(),
        ensures
            self.has_capability(self.functions@[i].name_model()),
            self.capability(self.functions@[i].name_model()) == self.functions@[i].model(),
    {
        let name = self.functions@[i].name_model();
        assert(self.names()[i] == name);
        let j = choose|j: int|
            0 <= j < self.functions@.len() && self.functions@[j].name_model() == name;
        assert(self.names()[j] == name);
        assert(j == i);
    }

    /// Registers a synchronous host function under a name, with the ordered
    /// parameter kinds its callable expects. Overwrites any capability
    /// already registered under that name.
    pub fn register(&mut self, name: String, params: Vec<ValueKind>, func: F)
        requires
            old(self).wf(),
        ensures
            final(self).wf(),
            final(self).has_capability(name@),
            final(self).capability(name@) == (CapabilityModel {
                params: params@,
                kind: HostFunctionType::Sync,
                func,
            }),
            forall|n: Seq<char>|
                n != name@ ==> #[trigger] final(self).has_capability(n)
                    == old(self).has_capability(n),
            forall|n: Seq<char>|
                n != name@ && old(self).has_capability(n) ==> #[trigger] final(self).capability(n)
                    == old(self).capability(n),
            old(self).has_capability(name@) ==> final(self).names() == old(self).names(),
            !old(self).has_capability(name@) ==> final(self).names()
                == old(self).names().push(name@),
    {
        self.register_capability(HostCapability::new_sync(name, params, func));
    }

    /// Registers an asynchronous host function under a name, with the
    /// ordered parameter kinds its callable expects. Overwrites any
    /// capability already registered under that name.
    pub fn register_async(&mut self, name: String, params: Vec<ValueKind>, func: F)
        requires
            old(self).wf(),
        ensures
            final(self).wf(),
            final(self).has_capability(name@),
            final(self).capability(name@) == (CapabilityModel {
                params: params@,
                kind: HostFunctionType::Async,
                func,
            }),
            forall|n: Seq<char>|
                n != name@ ==> #[trigger] final(self).has_capability(n)
                    == old(self).has_capability(n),
            forall|n: Seq<char>|
                n != name@ && old(self).has_capability(n) ==> #[trigger] final(self).capability(n)
                    == old(self).capability(n),
            old(self).has_capability(name@) ==> final(self).names() == old(self).names(),
            !old(self).has_capability(name@) ==> final(self).names()
                == old(self).names().push(name@),
    {
        self.register_capability(HostCapability::new_async(name, params, func));
    }

    /// Looks up a host function by name and calls it with the provided
    /// arguments.
    ///
    /// An unknown name fails with [`PluginError::HostFunctionNotFound`]; a
    /// known name whose declared parameter kinds the arguments do not fit —
    /// wrong count, or wrong kind at any position — fails with
    /// [`PluginError::InvalidArgumentType`] without invoking the callable.
    /// Otherwise the callable bound to the name runs and its result,
    /// success or failure, is returned verbatim — so whatever relation the
    /// callable's [`HostFunction::call_post`] promises holds of the result.
    pub fn call_function(&self, name: &str, args: &Vec<Value>) -> (r: Result<
        Value,
        PluginError,
    >) where F: HostFunction
        requires
            self.wf(),
        ensures
            !self.has_capability(name@) ==> (r matches Err(e) && e matches
                PluginError::HostFunctionNotFound(n) && n@ == name@),
            self.has_capability(name@) && !args_match(
                args.deep_view(),
                self.capability(name@).params,
            ) ==> (r matches Err(e) && e == PluginError::InvalidArgumentType),
            self.has_capability(name@) && args_match(
                args.deep_view(),
                self.capability(name@).params,
            ) ==> self.capability(name@).func.call_post(args.deep_view(), r),
    {
        let owned = name.to_owned();
        match self.find_index(&owned) {
            Some(i) => {
                proof {
                    self.lemma_capability_at(i as int);
                }
                let entry = &self.functions[i];
                if !check_args(&entry.params, args) {
                    return Err(PluginError::InvalidArgumentType);
                }
                entry.func.call(args)
            },
            None => Err(PluginError::HostFunctionNotFound(owned)),
        }
    }

    /// Returns true if any capability is registered under this name.
    pub fn has_function(&self, name: &str) -> (b: bool)
        ensures
            b == self.has_capability(name@),
    {
        let owned = name.to_owned();
        match self.find_index(&owned) {
            Some(i) => {
                proof {
                    assert(self.names()[i as int] == name@);
                }
                true
            },
            None => false,
        }
    }

    /// Returns the kind — synchronous or asynchronous — of the capability
    /// registered under this name, if any.
    pub fn function_type(&self, name: &str) -> (r: Option<HostFunctionType>)
        requires
            self.wf(),
        ensures
            self.has_capability(name@) ==> r == Some(self.capability(name@).kind),
            !self.has_capability(name@) ==> r is None,
    {
        let owned = name.to_owned();
        match self.find_index(&owned) {
            Some(i) => {
                proof {
                    self.lemma_capability_at(i as int);
                }
                Some(self.functions[i].kind)
            },
            None => None,
        }
    }

    /// Returns true if a synchronous capability is registered under this
    /// name.
    pub fn has_sync_function(&self, name: &str) -> (b: bool)
        requires
            self.wf(),
        ensures
            b == (self.has_capability(name@) && self.capability(name@).kind
                == HostFunctionType::Sync),
    {
        match self.function_type(name) {
            Some(HostFunctionType::Sync) => true,
            _ => false,
        }
    }

    /// Returns true if an asynchronous capability is registered under this
    /// name.
    pub fn has_async_function(&self, name: &str) -> (b: bool)
        requires
            self.wf(),
        ensures
            b == (self.has_capability(name@) && self.capability(name@).kind
                == HostFunctionType::Async),
    {
        match self.function_type(name) {
            Some(HostFunctionType::Async) => true,
            _ => false,
        }
    }

    /// Returns all registered function names, in registration order.
    pub fn function_names(&self) -> (r: Vec<String>)
        ensures
            r.deep_view() == self.names(),
    {
        let mut out: Vec<String> = Vec::new();
        let mut idx: usize = 0;
        while idx < self.functions.len()
            invariant
                idx <= self.functions@.len(),
                out@.len() == idx,
                forall|i: int| 0 <= i < idx ==> out@[i]@ == self.functions@[i].name_model(),
            decreases self.functions@.len() - idx,
        {
            out.push(self.functions[idx].name.clone());
            idx += 1;
        }
        proof {
            assert(out.deep_view() =~= self.names());
        }
        out
    }

    /// The number of registered capabilities.
    pub fn capability_count(&self) -> (n: usize)
        ensures
            n == self.names().len(),
    {
        self.functions.len()
    }

    /// Read access to the registered capabilities, in registration order,
    /// for runtimes that wire every capability into an engine.
    pub fn functions(&self) -> (r: &Vec<HostCapability<F>>)
        requires
            self.wf(),
        ensures
            r@.len() == self.names().len(),
            forall|i: int|
                0 <= i < r@.len() ==> (#[trigger] r@[i].name_model()) == self.names()[i]
                    && r@[i].model() == self.capability(self.names()[i]),
    {
        proof {
            assert forall|i: int| 0 <= i < self.functions@.len() implies self.functions@[
                i].name_model() == self.names()[i] && self.functions@[i].model()
                == self.capability(self.names()[i]) by {
                self.lemma_capability_at(i);
            }
        }
        &self.functions
    }

    /// Returns the names of all registered synchronous functions, in
    /// registration order.
    pub fn sync_function_names(&self) -> (r: Vec<String>)
        requires
            self.wf(),
        ensures
            forall|i: int|
                0 <= i < r.deep_view().len() ==> self.has_capability(
                    #[trigger] r.deep_view()[i],
                ) && self.capability(r.deep_view()[i]).kind == HostFunctionType::Sync,
            forall|n: Seq<char>|
                self.has_capability(n) && self.capability(n).kind == HostFunctionType::Sync
                    ==> r.deep_view().contains(n),
            forall|i: int, j: int|
                0 <= i < j < r.deep_view().len() ==> (#[trigger] r.deep_view()[i]) != (
                #[trigger] r.deep_view()[j]),
    {
        self.function_names_of_kind(true)
    }

    /// Returns the names of all registered asynchronous functions, in
    /// registration order.
    pub fn async_function_names(&self) -> (r: Vec<String>)
        requires
            self.wf(),
        ensures
            forall|i: int|
                0 <= i < r.deep_view().len() ==> self.has_capability(
                    #[trigger] r.deep_view()[i],
                ) && self.capability(r.deep_view()[i]).kind == HostFunctionType::Async,
            forall|n: Seq<char>|
                self.has_capability(n) && self.capability(n).kind == HostFunctionType::Async
                    ==> r.deep_view().contains(n),
            forall|i: int, j: int|
                0 <= i < j < r.deep_view().len() ==> (#[trigger] r.deep_view()[i]) != (
                #[trigger] r.deep_view()[j]),
    {
        self.function_names_of_kind(false)
    }

    /// The names of every capability of one kind, in registration order.
    #[verifier::loop_isolation(false)]
    fn function_names_of_kind(&self, sync: bool) -> (r: Vec<String>)
        requires
            self.wf(),
        ensures
            forall|i: int|
                0 <= i < r.deep_view().len() ==> self.has_capability(
                    #[trigger] r.deep_view()[i],
                ) && self.capability(r.deep_view()[i]).kind == (if sync {
                    HostFunctionType::Sync
                } else {
                    HostFunctionType::Async
                }),
            forall|n: Seq<char>|
                self.has_capability(n) && self.capability(n).kind == (if sync {
                    HostFunctionType::Sync
                } else {
                    HostFunctionType::Async
                }) ==> r.deep_view().contains(n),
            forall|i: int, j: int|
                0 <= i < j < r.deep_view().len() ==> (#[trigger] r.deep_view()[i]) != (
                #[trigger] r.deep_view()[j]),
    {
        let ghost want = if sync {
            HostFunctionType::Sync
        } else {
            HostFunctionType::Async
        };
        let mut out: Vec<String> = Vec::new();
        let mut idx: usize = 0;
        while idx < self.functions.len()
            invariant
                self.wf(),
                idx <= self.functions@.len(),
                forall|i: int|
                    0 <= i < out.deep_view().len() ==> self.has_capability(
                        #[trigger] out.deep_view()[i],
                    ) && self.capability(out.deep_view()[i]).kind == want,
                forall|j: int|
                    0 <= j < idx && self.functions@[j].model().kind == want
                        ==> out.deep_view().contains(#[trigger] self.functions@[j].name_model()),
                forall|i: int|
                    0 <= i < out.deep_view().len() ==> exists|j: int|
                        0 <= j < idx && (#[trigger] out.deep_view()[i])
                            == self.functions@[j].name_model(),
                forall|i: int, j: int|
                    0 <= i < j < out.deep_view().len() ==> (#[trigger] out.deep_view()[i]) != (
                    #[trigger] out.deep_view()[j]),
            decreases self.functions@.len() - idx,
        {
            let matches_kind = if sync {
                match self.functions[idx].kind {
                    HostFunctionType::Sync => true,
                    HostFunctionType::Async => false,
                }
            } else {
                match self.functions[idx].kind {
                    HostFunctionType::Sync => false,
                    HostFunctionType::Async => true,
                }
            };
            let ghost prev = out.deep_view();
            if matches_kind {
                out.push(self.functions[idx].name.clone());
                proof {
                    self.lemma_capability_at(idx as int);
                    assert(out.deep_view() =~= prev.push(self.functions@[idx as int].name_model()));
                    assert forall|j: int|
                        0 <= j < idx + 1 && self.functions@[j].model().kind == want implies out
                        .deep_view().contains(
                        #[trigger] self.functions@[j].name_model(),
                    ) by {
                        if j < idx {
                            let k = choose|k: int|
                                0 <= k < prev.len() && prev[k] == self.functions@[j].name_model();
                            assert(out.deep_view()[k] == self.functions@[j].name_model());
                        } else {
                            assert(out.deep_view()[out.deep_view().len() - 1]
                                == self.functions@[j].name_model());
                        }
                    }
                    assert forall|i: int|
                        0 <= i < out.deep_view().len() implies exists|j: int|
                            0 <= j < idx + 1 && (#[trigger] out.deep_view()[i])
                                == self.functions@[j].name_model() by {
                        if i < out.deep_view().len() - 1 {
                            assert(out.deep_view()[i] == prev[i]);
                            let j = choose|j: int|
                                0 <= j < idx && prev[i] == self.functions@[j].name_model();
                            assert(out.deep_view()[i] == self.functions@[j].name_model());
                        } else {
                            assert(out.deep_view()[i] == self.functions@[idx as int].name_model());
                        }
                    }
                    assert forall|i: int, j: int|
                        0 <= i < j < out.deep_view().len() implies (#[trigger] out.deep_view()[i])
                            != (#[trigger] out.deep_view()[j]) by {
                        if j == out.deep_view().len() - 1 {
                            let a = choose|a: int|
                                0 <= a < idx && (#[trigger] out.deep_view()[i])
                                    == self.functions@[a].name_model();
                            assert(self.names()[a] == out.deep_view()[i]);
                            assert(self.names()[idx as int] == out.deep_view()[j]);
                        } else {
                            assert(out.deep_view()[i] == prev[i]);
                            assert(out.deep_view()[j] == prev[j]);
                        }
                    }
                }
            }
            idx += 1;
        }
        proof {
            assert forall|n: Seq<char>|
                self.has_capability(n) && self.capability(n).kind == want implies out
                .deep_view().contains(n) by {
                let j = choose|j: int| 0 <= j < self.names().len() && self.names()[j] == n;
                assert(self.functions@[j].name_model() == n);
                self.lemma_capability_at(j);
                assert(self.functions@[j].model().kind == want);
            }
        }
        out
    }
}

impl<F: Clone> Clone for HostContext<F> {
    /// Cloning a context keeps every registered name and every capability's
    /// declared shape and kind, in order; each callable clones through
    /// `F`'s own `Clone`, whose promise carries over entry by entry.
    fn clone(&self) -> (r: Self)
        ensures
            r.wf() == self.wf(),
            r.names() == self.names(),
            forall|n: Seq<char>|
                self.wf() && self.has_capability(n) ==> #[trigger] r.capability(n).params
                    == self.capability(n).params && r.capability(n).kind == self.capability(
                    n,
                ).kind && cloned::<F>(self.capability(n).func, r.capability(n).func),
    {
        let mut functions: Vec<HostCapability<F>> = Vec::new();
        let mut idx: usize = 0;
        while idx < self.functions.len()
            invariant
                idx <= self.functions@.len(),
                functions@.len() == idx,
                forall|i: int|
                    0 <= i < idx ==> (#[trigger] functions@[i].name_model())
                        == self.functions@[i].name_model(),
                forall|i: int|
                    0 <= i < idx ==> (#[trigger] functions@[i].model()).params
                        == self.functions@[i].model().params,
                forall|i: int|
                    0 <= i < idx ==> (#[trigger] functions@[i].model()).kind
                        == self.functions@[i].model().kind,
                forall|i: int|
                    0 <= i < idx ==> cloned::<F>(
                        self.functions@[i].model().func,
                        (#[trigger] functions@[i].model()).func,
                    ),
            decreases self.functions@.len() - idx,
        {
            let copy = self.functions[idx].clone();
            let ghost prevf = functions@;
            functions.push(copy);
            proof {
                assert forall|i: int| 0 <= i < idx + 1 implies functions@[i].model().params
                    == self.functions@[i].model().params && functions@[i].model().kind
                    == self.functions@[i].model().kind && cloned::<F>(
                    self.functions@[i].model().func,
                    functions@[i].model().func,
                ) && functions@[i].name_model() == self.functions@[i].name_model() by {
                    if i < idx {
                        assert(functions@[i] == prevf[i]);
                        assert(prevf[i].model() == functions@[i].model());
                    }
                }
            }
            idx += 1;
        }
        let r = HostContext { functions };
        proof {
            assert(r.names() =~= self.names());
            assert forall|n: Seq<char>|
                self.wf() && self.has_capability(n) implies #[trigger] r.capability(n).params
                    == self.capability(n).params && r.capability(n).kind == self.capability(
                    n,
                ).kind && cloned::<F>(self.capability(n).func, r.capability(n).func) by {
                let i = choose|i: int|
                    0 <= i < self.functions@.len() && self.functions@[i].name_model() == n;
                let j = choose|j: int|
                    0 <= j < r.functions@.len() && r.functions@[j].name_model() == n;
                assert(r.functions@[i].name_model() == n);
                assert(r.names()[i] == n && r.names()[j] == n);
                assert(i == j);
            }
        }
        r
    }
}

} // verus!
