//! The handle returned to callers of the creation entry point.
//!
//! A scope owns one constructed instance together with every transitively
//! constructed dependent, and enforces that dependents are torn down before
//! the value they depend on.
use vstd::prelude::*;

use crate::constructed::{Construct, Instance, InstanceView, MaybeMutexGuard};
use crate::deps::{
    regs_same, spec_release_children, Deps, DepsView,
};
use crate::error::Error;
use crate::slot_table::{items_viewed, trimmed};

verus! {

/// One owned dependent of a scope, in teardown order.  Dependents of a
/// nested scope appear before the nested scope's own instance, so walking
/// the list front to back tears every child down before its parent.
#[derive(Debug)]
pub enum ScopeChild<V> {
    /// An exclusively owned dependent instance.
    Owned(V),
    /// The scope's reference to a shared dependent instance kept in the
    /// engine's store under this handle.
    SharedRef(usize),
    /// A deferred teardown action for one bridge slot: releasing it clears
    /// slot `id` on side `side` (1 or 2) of the bridge at index `bridge`.
    Guard { bridge: usize, side: usize, id: usize },
}

/// The mathematical counterpart of `ScopeChild`, over the view of the
/// value.
pub enum ChildView<M> {
    Owned(M),
    SharedRef(usize),
    Guard { bridge: usize, side: usize, id: usize },
}

impl<V: View> View for ScopeChild<V> {
    type V = ChildView<V::V>;

    open spec fn view(&self) -> ChildView<V::V> {
        match *self {
            ScopeChild::Owned(ref v) => ChildView::Owned(v@),
            ScopeChild::SharedRef(h) => ChildView::SharedRef(h),
            ScopeChild::Guard { bridge, side, id } => ChildView::Guard { bridge, side, id },
        }
    }
}

/// The mathematical counterpart of `Scope`.
pub struct ScopeView<M> {
    pub obj: InstanceView<M>,
    pub childs: Seq<ChildView<M>>,
}

/// A scope: one instance plus the ordered list of its dependents.  The list
/// is walked front to back on teardown, strictly before the instance itself
/// is given up, in both storage modes.
#[derive(Debug)]
pub struct Scope<V> {
    /// The instance this scope owns.
    pub obj: Instance<V>,
    /// The scope's dependents, in teardown order.
    pub childs: Vec<ScopeChild<V>>,
}

impl<V: View> View for Scope<V> {
    type V = ScopeView<V::V>;

    open spec fn view(&self) -> ScopeView<V::V> {
        ScopeView { obj: self.obj@, childs: items_viewed(self.childs@) }
    }
}

impl<V: View> Scope<V> {
    /// Wraps an instance — in whichever storage mode — and its
    /// already-constructed dependents into a scope.
    pub fn from_any_instance(obj: Instance<V>, childs: Vec<ScopeChild<V>>) -> (r: Scope<V>)
        ensures
            r@.obj == obj@,
            r@.childs == items_viewed(childs@),
    {
        Scope { obj, childs }
    }

    /// The instance this scope owns.
    pub fn get_instance(&self) -> (r: &Instance<V>)
        ensures
            r@ == self@.obj,
    {
        &self.obj
    }

    /// The scope's dependents, in teardown order.
    pub fn childs(&self) -> (r: &Vec<ScopeChild<V>>)
        ensures
            items_viewed(r@) == self@.childs,
    {
        &self.childs
    }

    /// A reference to the owned instance's value, through whichever storage
    /// mode applies: direct for an exclusively owned value, through the
    /// engine's store for a shared one.
    pub fn lock<'a, C: Construct<V>>(&'a self, deps: &'a Deps<V, C>) -> (r: Result<
        MaybeMutexGuard<'a, V>,
        Error,
    >)
        ensures
            (match self@.obj {
                InstanceView::Isolated(m) => r matches Ok(v) && v@ == m,
                InstanceView::Shared(h) => (if h < deps@.store.len() && deps@.store[h as int]
                    is Some {
                    r matches Ok(v) && v@ == deps@.store[h as int]->0.value
                } else {
                    r is Err
                }),
            }),
    {
        self.obj.lock(deps)
    }

    /// Consumes the scope and recovers the bare value: every dependent is
    /// released first, front to back, and only then is the instance given
    /// up.  A shared instance must by then be the last outstanding
    /// reference — its dependents' guards have cleared every bridge slot
    /// that referenced it — which [`explode_ready`] states.
    pub fn explode<C: Construct<V>>(self, deps: &mut Deps<V, C>) -> (r: V)
        requires
            old(deps).tables_wf(),
            explode_ready(old(deps)@, self@),
        ensures
            final(deps).tables_wf(),
            regs_same(old(deps)@, final(deps)@),
            ({
                let d2 = spec_release_children(old(deps)@, self@.childs, 0);
                match self@.obj {
                    InstanceView::Isolated(m) => r@ == m && final(deps)@ == d2,
                    InstanceView::Shared(h) => {
                        &&& r@ == d2.store[h as int]->0.value
                        &&& final(deps)@ == (DepsView {
                            store: trimmed(d2.store.update(h as int, None)),
                            ..d2
                        })
                    },
                }
            }),
    {
        let Scope { obj, childs } = self;
        deps.release_children(childs);
        match obj {
            Instance::Isolated(v) => v,
            Instance::Shared(h) => deps.take_shared(h),
        }
    }
}

/// Whether a scope can be exploded against the engine state `d`: an
/// exclusively owned instance always can; a shared one can when, after its
/// dependents are released, its store entry carries exactly the scope's own
/// reference.  Exploding a shared instance that something else still
/// references would be an ownership-invariant violation, so it is excluded
/// here rather than reported.
pub open spec fn explode_ready<M, C>(d: DepsView<M, C>, s: ScopeView<M>) -> bool {
    match s.obj {
        InstanceView::Isolated(_) => true,
        InstanceView::Shared(h) => {
            let d2 = spec_release_children(d, s.childs, 0);
            &&& h < d2.store.len()
            &&& d2.store[h as int] is Some
            &&& d2.store[h as int]->0.refs == 1
        },
    }
}

} // verus!
