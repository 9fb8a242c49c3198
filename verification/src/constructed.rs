//! The ownership cell for constructed values and the constructor interface.
//!
//! An `Instance` holds a constructed value either exclusively or as a handle
//! into the engine's store of shared instances; the variant is chosen once,
//! when the value is created, and never changes for that instance.  The
//! `Construct` trait is the fixed signature shape of user-supplied
//! constructors, hooks and bridging functions: each implementation states,
//! over views, exactly what it does, and its executable methods are bound to
//! that statement.
use vstd::prelude::*;

use crate::deps::Deps;
use crate::error::Error;
use crate::scope::ScopeChild;

verus! {

/// What one isolated constructor pass gathered: the dependents it
/// constructed, in teardown order.
pub struct Constructed<V> {
    pub children: Vec<ScopeChild<V>>,
}

/// What one shared constructor pass gathered: the dependents it
/// constructed for an instance that lives in shared storage, teardown
/// guards included.
pub struct ConstructedShared<V> {
    pub children: Vec<ScopeChild<V>>,
}

/// The guard a lock hands back: a reference to the value, whichever
/// storage mode it lives in.  For an isolated instance no contention is
/// possible; for a shared one the engine is held exclusively for as long
/// as the guard's reference lives.
pub struct MaybeMutexGuard<'a, T> {
    pub(crate) value: &'a T,
}

impl<'a, T: View> View for MaybeMutexGuard<'a, T> {
    type V = T::V;

    closed spec fn view(&self) -> T::V {
        (*self.value)@
    }
}

impl<'a, T: View> MaybeMutexGuard<'a, T> {
    /// The guarded value.
    pub fn value(&self) -> (r: &'a T)
        ensures
            r@ == self@,
    {
        self.value
    }
}

/// The ownership cell: a value owned exclusively, or the handle of a value
/// kept in the engine's store of shared, lock-protected instances.
#[derive(Debug)]
pub enum Instance<T> {
    /// Exclusive ownership; no contention is possible.
    Isolated(T),
    /// The value is shared: it lives in the engine's store under this
    /// handle, because some bridge pairs instances of its type.
    Shared(usize),
}

/// The mathematical counterpart of `Instance`, over the view of the value.
pub enum InstanceView<M> {
    Isolated(M),
    Shared(usize),
}

impl<T: View> Instance<T> {
    /// A reference to the instance's value: for `Isolated`, the value
    /// itself, with no contention possible; for `Shared`, the value in the
    /// engine's store.  Every handle held by a live scope has a store
    /// entry, so the lookup only fails on a handle that no scope of this
    /// engine handed out.
    pub fn lock<'a, C: Construct<T>>(&'a self, deps: &'a Deps<T, C>) -> (r: Result<
        MaybeMutexGuard<'a, T>,
        Error,
    >)
        ensures
            (match self@ {
                InstanceView::Isolated(m) => r matches Ok(v) && v@ == m,
                InstanceView::Shared(h) => (if h < deps@.store.len() && deps@.store[h as int]
                    is Some {
                    r matches Ok(v) && v@ == deps@.store[h as int]->0.value
                } else {
                    r is Err
                }),
            }),
    {
        match *self {
            Instance::Isolated(ref v) => Ok(MaybeMutexGuard { value: v }),
            Instance::Shared(h) => match deps.shared_value(h) {
                Ok(v) => Ok(MaybeMutexGuard { value: v }),
                Err(e) => Err(e),
            },
        }
    }
}

impl<T: View> View for Instance<T> {
    type V = InstanceView<T::V>;

    open spec fn view(&self) -> InstanceView<T::V> {
        match *self {
            Instance::Isolated(ref v) => InstanceView::Isolated(v@),
            Instance::Shared(h) => InstanceView::Shared(h),
        }
    }
}

/// What one child constructor produced: the parent value as the constructor
/// left it, and either the constructed child value or an error.
pub enum CtorOut<V> {
    Made { value: V, child: V },
    Failed { value: V, error: Error },
}

/// The mathematical counterpart of `CtorOut`, over views.
pub enum CtorStep<M> {
    Made { value: M, child: M },
    Failed { value: M, message: Seq<char> },
}

/// Whether the outcome `r` is the one that `s` describes.
pub open spec fn ctor_out_matches<V: View>(r: CtorOut<V>, s: CtorStep<V::V>) -> bool {
    match r {
        CtorOut::Made { value, child } => match s {
            CtorStep::Made { value: sv, child: sc } => value@ == sv && child@ == sc,
            CtorStep::Failed { .. } => false,
        },
        CtorOut::Failed { value, error } => match s {
            CtorStep::Made { .. } => false,
            CtorStep::Failed { value: sv, message } => value@ == sv && error.message@ == message,
        },
    }
}

/// What one post-create hook did: the value as the hook left it, and whether
/// it failed.
pub enum HookOut<V> {
    Done { value: V },
    Failed { value: V, error: Error },
}

/// The mathematical counterpart of `HookOut`, over views.
pub enum HookStep<M> {
    Done { value: M },
    Failed { value: M, message: Seq<char> },
}

/// Whether the outcome `r` is the one that `s` describes.
pub open spec fn hook_out_matches<V: View>(r: HookOut<V>, s: HookStep<V::V>) -> bool {
    match r {
        HookOut::Done { value } => match s {
            HookStep::Done { value: sv } => value@ == sv,
            HookStep::Failed { .. } => false,
        },
        HookOut::Failed { value, error } => match s {
            HookStep::Done { .. } => false,
            HookStep::Failed { value: sv, message } => value@ == sv && error.message@ == message,
        },
    }
}

/// What one bridging invocation did: both parent values as the function left
/// them, and either the constructed child value or an error.
pub enum PairOut<V> {
    Made { a: V, b: V, child: V },
    Failed { a: V, b: V, error: Error },
}

/// The mathematical counterpart of `PairOut`, over views.
pub enum PairStep<M> {
    Made { a: M, b: M, child: M },
    Failed { a: M, b: M, message: Seq<char> },
}

/// Whether the outcome `r` is the one that `s` describes.
pub open spec fn pair_out_matches<V: View>(r: PairOut<V>, s: PairStep<V::V>) -> bool {
    match r {
        PairOut::Made { a, b, child } => match s {
            PairStep::Made { a: sa, b: sb, child: sc } => a@ == sa && b@ == sb && child@ == sc,
            PairStep::Failed { .. } => false,
        },
        PairOut::Failed { a, b, error } => match s {
            PairStep::Made { .. } => false,
            PairStep::Failed { a: sa, b: sb, message } => a@ == sa && b@ == sb && error.message@
                == message,
        },
    }
}

/// A user-supplied constructor.  One value of an implementing type stands
/// for one registered callback; the engine calls `construct` for child
/// constructors registered with `attach`, `hook` for post-create hooks
/// registered with `when_ready`, and `pair` for bridging functions
/// registered with `bridge`.  The three `_spec` functions fix, over views,
/// what each call does, and the executable methods are bound to them.
pub trait Construct<V: View>: Sized {
    /// The meaning of `construct` on the view of the parent value.
    spec fn construct_spec(&self, value: V::V) -> CtorStep<V::V>;

    /// The meaning of `hook` on the view of the value.
    spec fn hook_spec(&self, value: V::V) -> HookStep<V::V>;

    /// The meaning of `pair` on the views of the two parent values.
    spec fn pair_spec(&self, a: V::V, b: V::V) -> PairStep<V::V>;

    /// Runs the callback as a child constructor for `value`.
    fn construct(&self, value: V) -> (r: CtorOut<V>)
        ensures
            ctor_out_matches(r, self.construct_spec(value@)),
    ;

    /// Runs the callback as a post-create hook on `value`.
    fn hook(&self, value: V) -> (r: HookOut<V>)
        ensures
            hook_out_matches(r, self.hook_spec(value@)),
    ;

    /// Runs the callback as a bridging function on the pair `(a, b)`.
    fn pair(&self, a: V, b: V) -> (r: PairOut<V>)
        ensures
            pair_out_matches(r, self.pair_spec(a@, b@)),
    ;
}

} // verus!
