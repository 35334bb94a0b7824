//! The callable side of a host capability.

use vstd::prelude::*;

use crate::error::PluginError;
use crate::value::{Value, ValueModel};

verus! {

/// Whether a capability's callable completes immediately or may suspend.
///
/// The call surface is uniform: a host context invokes either kind through
/// [`HostFunction::call`], and a callable registered as asynchronous is
/// expected to block until its work is done when driven from a synchronous
/// caller. The tag lets runtimes that can drive suspending work natively
/// tell the two apart.
#[derive(Clone, Copy, PartialEq, Eq, Structural, Debug)]
pub enum HostFunctionType {
    /// The callable returns as soon as it is invoked.
    Sync,
    /// The callable may suspend before its result is available.
    Async,
}

/// A native callable that plugins may invoke through a host context.
///
/// An application usually implements this once, on a closed enum with one
/// variant per capability it registers; the host context stores such values
/// and dispatches on the registered name.
pub trait HostFunction: Sized {
    /// What this callable promises of its outcomes: a relation between the
    /// argument models and the call's result. Left alone it promises
    /// nothing; an implementation that overrides it and proves [`Self::call`]
    /// thereby gives every successful dispatch through a host context that
    /// promise, since the context's call contract propagates this relation.
    open spec fn call_post(&self, args: Seq<ValueModel>, r: Result<Value, PluginError>) -> bool {
        true
    }

    /// Invokes the callable on already-shape-checked arguments. The host
    /// context calls this only after the arguments have passed the
    /// capability's declared parameter kinds.
    fn call(&self, args: &Vec<Value>) -> (r: Result<Value, PluginError>)
        ensures
            self.call_post(args.deep_view(), r),
    ;
}

} // verus!
