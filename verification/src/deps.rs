//! The engine: the type-keyed registry of constructors and the
//! orchestration that, given a freshly supplied value, decides its storage
//! mode, runs every registered constructor and hook, and assembles the
//! resulting scope.
//!
//! Types are named by plain `u64` keys chosen by the caller; the key the
//! engine was created with as its empty key (see [`Deps::new`]) plays the
//! role of the unit type: a child registered under it is not constructed
//! recursively.  Every registered callback is a value of one constructor
//! type `C` implementing [`Construct`], whose specification functions fix
//! exactly what each callback does; everything the engine promises is
//! derived from them.
use vstd::prelude::*;

use crate::constructed::{
    ctor_out_matches, hook_out_matches, pair_out_matches, Construct, CtorOut, CtorStep, HookOut,
    HookStep, Instance, InstanceView, PairOut, PairStep,
};
use crate::error::Error;
use crate::scope::{ChildView, Scope, ScopeChild, ScopeView};
use crate::slot_table::{first_free, items_viewed, lemma_viewed_trimmed, trimmed, viewed, SlotTable};

verus! {

/// One registered child constructor: when a value keyed `parent_key` is
/// created, `constructor` runs against it, and its result is itself created
/// recursively under `child_key` — unless `child_key` is the engine's empty
/// key, in which case the result is discarded.
pub struct IsolatedReg<C> {
    pub parent_key: u64,
    pub child_key: u64,
    pub constructor: C,
}

/// One registered post-create hook: `constructor` runs against every value
/// keyed `key` after all of that value's constructors have completed.
pub struct HookReg<C> {
    pub key: u64,
    pub constructor: C,
}

/// One registered bridge: every live instance keyed `key1` is paired with
/// every live instance keyed `key2` through `constructor`; each pairing
/// result is created recursively under `child_key` unless that is the
/// engine's empty key.  The two slot tables hold the store handles of the
/// live instances of each side.
pub struct BridgeReg<C> {
    pub key1: u64,
    pub key2: u64,
    pub child_key: u64,
    pub constructor: C,
    pub s1: SlotTable<usize>,
    pub s2: SlotTable<usize>,
}

/// The mathematical counterpart of `BridgeReg`.
#[verifier::ext_equal]
pub struct BridgeView<C> {
    pub key1: u64,
    pub key2: u64,
    pub child_key: u64,
    pub constructor: C,
    pub s1: Seq<Option<usize>>,
    pub s2: Seq<Option<usize>>,
}

impl<C> View for BridgeReg<C> {
    type V = BridgeView<C>;

    open spec fn view(&self) -> BridgeView<C> {
        BridgeView {
            key1: self.key1,
            key2: self.key2,
            child_key: self.child_key,
            constructor: self.constructor,
            s1: self.s1.slots(),
            s2: self.s2.slots(),
        }
    }
}

/// One shared instance in the engine's store: its type key, the number of
/// references to it (its owning scope plus one per bridge slot that holds
/// its handle), and the value itself.
pub struct StoreEntry<V> {
    pub key: u64,
    pub refs: usize,
    pub value: V,
}

/// The mathematical counterpart of `StoreEntry`, over the view of the
/// value.
#[verifier::ext_equal]
pub struct StoreView<M> {
    pub key: u64,
    pub refs: usize,
    pub value: M,
}

impl<V: View> View for StoreEntry<V> {
    type V = StoreView<V::V>;

    open spec fn view(&self) -> StoreView<V::V> {
        StoreView { key: self.key, refs: self.refs, value: self.value@ }
    }
}

/// The mathematical counterpart of `Deps`: the registration lists, the
/// bridges with their slot tables, and the store of shared instances.
#[verifier::ext_equal]
pub struct DepsView<M, C> {
    pub empty_key: u64,
    pub isolated: Seq<IsolatedReg<C>>,
    pub hooks: Seq<HookReg<C>>,
    pub bridges: Seq<BridgeView<C>>,
    pub store: Seq<Option<StoreView<M>>>,
}

/// The engine.  Registration (`attach`, `bridge`, `when_ready`,
/// `collectable`) must happen before creation; creation (`create`,
/// `collect`) takes the engine exclusively, which serializes all bridge
/// activity.
pub struct Deps<V, C> {
    empty_key: u64,
    isolated: Vec<IsolatedReg<C>>,
    hooks: Vec<HookReg<C>>,
    bridges: Vec<BridgeReg<C>>,
    store: SlotTable<StoreEntry<V>>,
}

impl<V: View, C> View for Deps<V, C> {
    type V = DepsView<V::V, C>;

    closed spec fn view(&self) -> DepsView<V::V, C> {
        DepsView {
            empty_key: self.empty_key,
            isolated: self.isolated@,
            hooks: self.hooks@,
            bridges: items_viewed(self.bridges@),
            store: viewed(self.store.slots()),
        }
    }
}

/// Dereferencing a store handle: one reference to the entry at `h` is given
/// up, and an entry losing its last reference is removed (which may shrink
/// the store past trailing empty slots).  A handle with no entry is left
/// alone.
pub open spec fn spec_deref<M, C>(d: DepsView<M, C>, h: usize) -> DepsView<M, C> {
    if h < d.store.len() {
        match d.store[h as int] {
            Some(e) => {
                if e.refs > 1 {
                    DepsView {
                        store: d.store.update(
                            h as int,
                            Some(StoreView { key: e.key, refs: (e.refs - 1) as usize, value: e.value }),
                        ),
                        ..d
                    }
                } else {
                    DepsView { store: trimmed(d.store.update(h as int, None)), ..d }
                }
            },
            None => d,
        }
    } else {
        d
    }
}

/// Releasing one slot guard: slot `id` on side `side` of the bridge at
/// `bridge` is cleared, and the store handle it held, if any, is
/// dereferenced.  An out-of-range bridge, side or slot does nothing.
pub open spec fn spec_release_guard<M, C>(
    d: DepsView<M, C>,
    bridge: usize,
    side: usize,
    id: usize,
) -> DepsView<M, C> {
    if bridge < d.bridges.len() {
        let b = d.bridges[bridge as int];
        if side == 1 && id < b.s1.len() {
            let removed = b.s1[id as int];
            let d2 = DepsView {
                bridges: d.bridges.update(
                    bridge as int,
                    BridgeView { s1: trimmed(b.s1.update(id as int, None)), ..b },
                ),
                ..d
            };
            match removed {
                Some(h) => spec_deref(d2, h),
                None => d2,
            }
        } else if side == 2 && id < b.s2.len() {
            let removed = b.s2[id as int];
            let d2 = DepsView {
                bridges: d.bridges.update(
                    bridge as int,
                    BridgeView { s2: trimmed(b.s2.update(id as int, None)), ..b },
                ),
                ..d
            };
            match removed {
                Some(h) => spec_deref(d2, h),
                None => d2,
            }
        } else {
            d
        }
    } else {
        d
    }
}

/// Releasing one scope child: an owned dependent is simply dropped, a
/// shared reference is dereferenced, and a guard clears its bridge slot.
pub open spec fn spec_release_child<M, C>(d: DepsView<M, C>, c: ChildView<M>) -> DepsView<M, C> {
    match c {
        ChildView::Owned(_) => d,
        ChildView::SharedRef(h) => spec_deref(d, h),
        ChildView::Guard { bridge, side, id } => spec_release_guard(d, bridge, side, id),
    }
}

/// Releasing a scope's dependents from index `i` on, front to back: each
/// dependent is released strictly before any later one, so every child of a
/// nested scope goes before that scope's own instance.
pub open spec fn spec_release_children<M, C>(
    d: DepsView<M, C>,
    childs: Seq<ChildView<M>>,
    i: int,
) -> DepsView<M, C>
    decreases childs.len() - i,
{
    if i < 0 || i >= childs.len() {
        d
    } else {
        spec_release_children(spec_release_child(d, childs[i]), childs, i + 1)
    }
}

/// Releasing a whole instance: an isolated value is dropped; a shared
/// handle is dereferenced.
pub open spec fn spec_release_instance<M, C>(d: DepsView<M, C>, inst: InstanceView<M>) -> DepsView<
    M,
    C,
> {
    match inst {
        InstanceView::Isolated(_) => d,
        InstanceView::Shared(h) => spec_deref(d, h),
    }
}

/// The whole teardown of a scope against engine state `d`: every dependent
/// is released first, front to back, and only then the instance itself.
pub open spec fn spec_teardown<M, C>(d: DepsView<M, C>, s: crate::scope::ScopeView<M>) -> DepsView<
    M,
    C,
> {
    spec_release_instance(spec_release_children(d, s.childs, 0), s.obj)
}

/// Whether `b` keeps the registrations of `a`: creation and teardown only
/// ever touch the store and the bridges' slot tables, never what was
/// registered.
pub open spec fn regs_same<M, C>(a: DepsView<M, C>, b: DepsView<M, C>) -> bool {
    &&& b.empty_key == a.empty_key
    &&& b.isolated == a.isolated
    &&& b.hooks == a.hooks
    &&& b.bridges.len() == a.bridges.len()
    &&& forall|i: int|
        0 <= i < a.bridges.len() ==> (#[trigger] b.bridges[i]).key1 == a.bridges[i].key1
            && b.bridges[i].key2 == a.bridges[i].key2 && b.bridges[i].child_key
            == a.bridges[i].child_key && b.bridges[i].constructor == a.bridges[i].constructor
}

/// Whether some bridge names `key` on either side: if so, values of that
/// key are stored shared.
pub open spec fn has_shared<M, C>(d: DepsView<M, C>, key: u64) -> bool {
    exists|i: int|
        0 <= i < d.bridges.len() && ((#[trigger] d.bridges[i]).key1 == key || d.bridges[i].key2
            == key)
}

/// One more reference to the store entry at `h`.  The count saturates
/// rather than wrap; a handle with no entry is left alone.
pub open spec fn spec_bump_ref<M, C>(d: DepsView<M, C>, h: usize) -> DepsView<M, C> {
    if h < d.store.len() {
        match d.store[h as int] {
            Some(e) => {
                if e.refs < usize::MAX {
                    DepsView {
                        store: d.store.update(
                            h as int,
                            Some(StoreView { key: e.key, refs: (e.refs + 1) as usize, value: e.value }),
                        ),
                        ..d
                    }
                } else {
                    d
                }
            },
            None => d,
        }
    } else {
        d
    }
}

/// The child entry a nested scope's instance leaves behind when the scope
/// is flattened into its parent's child list.
pub open spec fn inst_child<M>(inst: InstanceView<M>) -> ChildView<M> {
    match inst {
        InstanceView::Isolated(m) => ChildView::Owned(m),
        InstanceView::Shared(h) => ChildView::SharedRef(h),
    }
}

/// How a creation phase ended: it ran to completion, a constructor or hook
/// failed with a message, or the recursion depth budget ran out.
pub enum PhaseHalt {
    Go,
    Fail(Seq<char>),
    Depth,
}

/// The outcome of a whole creation call.
pub enum RunResult<M> {
    /// The assembled scope.
    Done(ScopeView<M>),
    /// A constructor or hook failed with this message; dependents already
    /// constructed for this call were released.
    Fail(Seq<char>),
    /// The depth budget ran out: the registrations demand a deeper
    /// dependency chain than the engine allows, which only happens when
    /// they are cyclic.
    Depth,
}

/// A creation call's result together with the engine state it leaves.
#[verifier::ext_equal]
pub struct RunOut<M, C> {
    pub state: DepsView<M, C>,
    pub result: RunResult<M>,
}

/// The state of the isolated-constructor phase: the engine state, the
/// parent value as the constructors have left it, and the dependents
/// gathered so far.
#[verifier::ext_equal]
pub struct IsoPhase<M, C> {
    pub state: DepsView<M, C>,
    pub value: M,
    pub childs: Seq<ChildView<M>>,
    pub halt: PhaseHalt,
}

/// The state of a phase that only gathers dependents.
#[verifier::ext_equal]
pub struct BuildPhase<M, C> {
    pub state: DepsView<M, C>,
    pub childs: Seq<ChildView<M>>,
    pub halt: PhaseHalt,
}

/// The state of one cross-pairing pass: the engine state (pairing mutates
/// the paired values in the store), the bridging results in ascending slot
/// order, and the failure that ended the pass, if one did.
#[verifier::ext_equal]
pub struct PairsPhase<M, C> {
    pub state: DepsView<M, C>,
    pub outputs: Seq<M>,
    pub failure: Option<Seq<char>>,
}

/// The state of the post-create hook phase.
#[verifier::ext_equal]
pub struct HooksPhase<M, C> {
    pub state: DepsView<M, C>,
    pub inst: InstanceView<M>,
    pub failure: Option<Seq<char>>,
}

/// The cross-pairing pass of a freshly shared instance (handle `h`) against
/// the occupied slots of `others`, from `j` on, in ascending order.  When
/// `first_side` holds, `h` is a first-side instance and the partners are
/// second-side ones, so `h`'s value is the bridging function's first
/// argument; otherwise the roles are swapped.  Both paired values are
/// mutated in the store.  A pairing against a missing entry, or of `h`
/// against itself, is skipped; neither arises in an engine that only pairs
/// live instances of two distinct keys.
pub open spec fn spec_bridge_pairs<V: View, C: Construct<V>>(
    d: DepsView<V::V, C>,
    c: C,
    first_side: bool,
    h: usize,
    others: Seq<Option<usize>>,
    j: int,
) -> PairsPhase<V::V, C>
    decreases others.len() - j,
{
    if j < 0 || j >= others.len() {
        PairsPhase { state: d, outputs: Seq::empty(), failure: None }
    } else {
        match others[j] {
            None => spec_bridge_pairs::<V, C>(d, c, first_side, h, others, j + 1),
            Some(h2) => {
                if h2 == h || h >= d.store.len() || h2 >= d.store.len() || d.store[h as int]
                    is None || d.store[h2 as int] is None {
                    spec_bridge_pairs::<V, C>(d, c, first_side, h, others, j + 1)
                } else {
                    let eh = d.store[h as int]->0;
                    let eo = d.store[h2 as int]->0;
                    let av = if first_side {
                        eh.value
                    } else {
                        eo.value
                    };
                    let bv = if first_side {
                        eo.value
                    } else {
                        eh.value
                    };
                    match c.pair_spec(av, bv) {
                        PairStep::Made { a: a2, b: b2, child } => {
                            let nh = if first_side {
                                a2
                            } else {
                                b2
                            };
                            let no = if first_side {
                                b2
                            } else {
                                a2
                            };
                            let d2 = DepsView {
                                store: d.store.update(
                                    h as int,
                                    Some(StoreView { key: eh.key, refs: eh.refs, value: nh }),
                                ).update(
                                    h2 as int,
                                    Some(StoreView { key: eo.key, refs: eo.refs, value: no }),
                                ),
                                ..d
                            };
                            let rest = spec_bridge_pairs::<V, C>(d2, c, first_side, h, others, j + 1);
                            PairsPhase {
                                state: rest.state,
                                outputs: seq![child] + rest.outputs,
                                failure: rest.failure,
                            }
                        },
                        PairStep::Failed { a: a2, b: b2, message } => {
                            let nh = if first_side {
                                a2
                            } else {
                                b2
                            };
                            let no = if first_side {
                                b2
                            } else {
                                a2
                            };
                            PairsPhase {
                                state: DepsView {
                                    store: d.store.update(
                                        h as int,
                                        Some(StoreView { key: eh.key, refs: eh.refs, value: nh }),
                                    ).update(
                                        h2 as int,
                                        Some(StoreView { key: eo.key, refs: eo.refs, value: no }),
                                    ),
                                    ..d
                                },
                                outputs: Seq::empty(),
                                failure: Some(message),
                            }
                        },
                    }
                }
            },
        }
    }
}

/// The post-create hook phase: every hook registered for `key`, in
/// registration order, runs against the instance and may replace its value;
/// the first failure stops the phase.  A shared instance whose store entry
/// is missing is left alone; that does not arise in the engine.
pub open spec fn spec_hooks<V: View, C: Construct<V>>(
    hooks: Seq<HookReg<C>>,
    d: DepsView<V::V, C>,
    key: u64,
    inst: InstanceView<V::V>,
    i: int,
) -> HooksPhase<V::V, C>
    decreases hooks.len() - i,
{
    if i < 0 || i >= hooks.len() {
        HooksPhase { state: d, inst, failure: None }
    } else if hooks[i].key != key {
        spec_hooks::<V, C>(hooks, d, key, inst, i + 1)
    } else {
        match inst {
            InstanceView::Isolated(m) => match hooks[i].constructor.hook_spec(m) {
                HookStep::Done { value } => spec_hooks::<V, C>(
                    hooks,
                    d,
                    key,
                    InstanceView::Isolated(value),
                    i + 1,
                ),
                HookStep::Failed { value, message } => HooksPhase {
                    state: d,
                    inst: InstanceView::Isolated(value),
                    failure: Some(message),
                },
            },
            InstanceView::Shared(h) => {
                if h < d.store.len() && d.store[h as int] is Some {
                    let e = d.store[h as int]->0;
                    match hooks[i].constructor.hook_spec(e.value) {
                        HookStep::Done { value } => spec_hooks::<V, C>(
                            hooks,
                            DepsView {
                                store: d.store.update(
                                    h as int,
                                    Some(StoreView { key: e.key, refs: e.refs, value }),
                                ),
                                ..d
                            },
                            key,
                            inst,
                            i + 1,
                        ),
                        HookStep::Failed { value, message } => HooksPhase {
                            state: DepsView {
                                store: d.store.update(
                                    h as int,
                                    Some(StoreView { key: e.key, refs: e.refs, value }),
                                ),
                                ..d
                            },
                            inst,
                            failure: Some(message),
                        },
                    }
                } else {
                    spec_hooks::<V, C>(hooks, d, key, inst, i + 1)
                }
            },
        }
    }
}

/// The isolated-constructor phase of creating a value keyed `key`: every
/// constructor of `regs` registered for `key`, from index `i` on and in
/// registration order, runs against the value; each result is created
/// recursively under the constructor's child key (unless that is `ek`, the
/// empty key), and the resulting scope's dependents, followed by its
/// instance, are appended to `childs`.  The first failure, or an exhausted
/// depth budget, releases everything gathered so far and halts the phase.
pub open spec fn spec_isolated<V: View, C: Construct<V>>(
    regs: Seq<IsolatedReg<C>>,
    ek: u64,
    d: DepsView<V::V, C>,
    key: u64,
    v: V::V,
    childs: Seq<ChildView<V::V>>,
    i: int,
    fuel: nat,
) -> IsoPhase<V::V, C>
    decreases fuel, 5int, regs.len() - i,
{
    if i < 0 || i >= regs.len() {
        IsoPhase { state: d, value: v, childs, halt: PhaseHalt::Go }
    } else if regs[i].parent_key != key {
        spec_isolated::<V, C>(regs, ek, d, key, v, childs, i + 1, fuel)
    } else {
        match regs[i].constructor.construct_spec(v) {
            CtorStep::Failed { value: v2, message } => IsoPhase {
                state: spec_release_children(d, childs, 0),
                value: v2,
                childs: Seq::empty(),
                halt: PhaseHalt::Fail(message),
            },
            CtorStep::Made { value: v2, child } => {
                if regs[i].child_key == ek {
                    spec_isolated::<V, C>(regs, ek, d, key, v2, childs, i + 1, fuel)
                } else if fuel == 0 {
                    IsoPhase {
                        state: spec_release_children(d, childs, 0),
                        value: v2,
                        childs: Seq::empty(),
                        halt: PhaseHalt::Depth,
                    }
                } else {
                    let sub = spec_create::<V, C>(d, regs[i].child_key, child, (fuel - 1) as nat);
                    match sub.result {
                        RunResult::Done(sv) => spec_isolated::<V, C>(
                            regs,
                            ek,
                            sub.state,
                            key,
                            v2,
                            childs + sv.childs + seq![inst_child(sv.obj)],
                            i + 1,
                            fuel,
                        ),
                        RunResult::Fail(m) => IsoPhase {
                            state: spec_release_children(sub.state, childs, 0),
                            value: v2,
                            childs: Seq::empty(),
                            halt: PhaseHalt::Fail(m),
                        },
                        RunResult::Depth => IsoPhase {
                            state: spec_release_children(sub.state, childs, 0),
                            value: v2,
                            childs: Seq::empty(),
                            halt: PhaseHalt::Depth,
                        },
                    }
                }
            },
        }
    }
}

/// Creating one dependent per bridging output, from index `k` on: each
/// output value is created recursively under `child_key`, and the resulting
/// scope's dependents, followed by its instance, are appended to `childs`.
pub open spec fn spec_make_children<V: View, C: Construct<V>>(
    d: DepsView<V::V, C>,
    child_key: u64,
    outputs: Seq<V::V>,
    childs: Seq<ChildView<V::V>>,
    k: int,
    fuel: nat,
) -> BuildPhase<V::V, C>
    decreases fuel, 3int, outputs.len() - k,
{
    if k < 0 || k >= outputs.len() {
        BuildPhase { state: d, childs, halt: PhaseHalt::Go }
    } else if fuel == 0 {
        BuildPhase {
            state: spec_release_children(d, childs, 0),
            childs: Seq::empty(),
            halt: PhaseHalt::Depth,
        }
    } else {
        let sub = spec_create::<V, C>(d, child_key, outputs[k], (fuel - 1) as nat);
        match sub.result {
            RunResult::Done(sv) => spec_make_children::<V, C>(
                sub.state,
                child_key,
                outputs,
                childs + sv.childs + seq![inst_child(sv.obj)],
                k + 1,
                fuel,
            ),
            RunResult::Fail(m) => BuildPhase {
                state: spec_release_children(sub.state, childs, 0),
                childs: Seq::empty(),
                halt: PhaseHalt::Fail(m),
            },
            RunResult::Depth => BuildPhase {
                state: spec_release_children(sub.state, childs, 0),
                childs: Seq::empty(),
                halt: PhaseHalt::Depth,
            },
        }
    }
}

/// The shared-constructor phase of creating a value keyed `key`, already
/// promoted to the store under handle `h`: for each of the first `nb`
/// bridges, in registration order, that names `key` on one side, the new
/// instance's handle is inserted into that side's slot table, the new
/// instance is paired against every live instance of the other side, each
/// pairing result is created recursively under the bridge's child key
/// (unless that is `ek`), and a teardown guard for the new slot is appended
/// to the dependents.  A failure releases everything gathered, gives up the
/// scope's reference to `h`, and halts.
pub open spec fn spec_shared<V: View, C: Construct<V>>(
    nb: int,
    ek: u64,
    d: DepsView<V::V, C>,
    key: u64,
    h: usize,
    childs: Seq<ChildView<V::V>>,
    bi: int,
    fuel: nat,
) -> BuildPhase<V::V, C>
    decreases fuel, 5int, nb - bi,
{
    if bi < 0 || bi >= nb || bi >= d.bridges.len() {
        BuildPhase { state: d, childs, halt: PhaseHalt::Go }
    } else {
        let b = d.bridges[bi];
        if b.key1 != key && b.key2 != key {
            spec_shared::<V, C>(nb, ek, d, key, h, childs, bi + 1, fuel)
        } else {
            let side_one = b.key1 == key;
            let table = if side_one {
                b.s1
            } else {
                b.s2
            };
            let id = first_free(table);
            let table2 = if id < table.len() {
                table.update(id, Some(h))
            } else {
                table.push(Some(h))
            };
            let b2 = if side_one {
                BridgeView { s1: table2, ..b }
            } else {
                BridgeView { s2: table2, ..b }
            };
            let d1 = DepsView { bridges: d.bridges.update(bi, b2), ..d };
            let d2 = spec_bump_ref(d1, h);
            let pass = spec_bridge_pairs::<V, C>(
                d2,
                b.constructor,
                side_one,
                h,
                if side_one {
                    b.s2
                } else {
                    b.s1
                },
                0,
            );
            match pass.failure {
                Some(m) => BuildPhase {
                    state: spec_deref(spec_release_children(pass.state, childs, 0), h),
                    childs: Seq::empty(),
                    halt: PhaseHalt::Fail(m),
                },
                None => {
                    let mc = if b.child_key == ek {
                        BuildPhase { state: pass.state, childs, halt: PhaseHalt::Go }
                    } else {
                        spec_make_children::<V, C>(pass.state, b.child_key, pass.outputs, childs, 0, fuel)
                    };
                    match mc.halt {
                        PhaseHalt::Go => spec_shared::<V, C>(
                            nb,
                            ek,
                            mc.state,
                            key,
                            h,
                            mc.childs.push(
                                ChildView::Guard {
                                    bridge: bi as usize,
                                    side: if side_one {
                                        1
                                    } else {
                                        2
                                    },
                                    id: id as usize,
                                },
                            ),
                            bi + 1,
                            fuel,
                        ),
                        PhaseHalt::Fail(m) => BuildPhase {
                            state: spec_deref(mc.state, h),
                            childs: Seq::empty(),
                            halt: PhaseHalt::Fail(m),
                        },
                        PhaseHalt::Depth => BuildPhase {
                            state: spec_deref(mc.state, h),
                            childs: Seq::empty(),
                            halt: PhaseHalt::Depth,
                        },
                    }
                },
            }
        }
    }
}

/// The depth budget a creation call starts with: one more than the number
/// of registrations.  An acyclic dependency graph can never nest creation
/// deeper than the number of registered constructors and bridges, so the
/// budget only runs out when the registrations are cyclic.
pub open spec fn create_fuel<M, C>(d: DepsView<M, C>) -> nat {
    d.isolated.len() + d.bridges.len() + 1
}

/// One whole creation call for a value `v` keyed `key`, with `fuel` bounding
/// the depth of recursive creation.  The isolated constructors for `key`
/// run first; then, if any bridge names `key`, the value is promoted to
/// shared storage and the shared phase runs; post-create hooks run last,
/// and the instance and the gathered dependents form the resulting scope.
/// On failure everything gathered for this call is released and the failure
/// is reported.
pub open spec fn spec_create<V: View, C: Construct<V>>(
    d: DepsView<V::V, C>,
    key: u64,
    v: V::V,
    fuel: nat,
) -> RunOut<V::V, C>
    decreases fuel, 9int, 0int,
{
    if fuel == 0 {
        RunOut { state: d, result: RunResult::Depth }
    } else {
        let ek = d.empty_key;
        let iso = spec_isolated::<V, C>(d.isolated, ek, d, key, v, Seq::empty(), 0, fuel);
        match iso.halt {
            PhaseHalt::Fail(m) => RunOut { state: iso.state, result: RunResult::Fail(m) },
            PhaseHalt::Depth => RunOut { state: iso.state, result: RunResult::Depth },
            PhaseHalt::Go => {
                let shared = has_shared(iso.state, key);
                let h = first_free(iso.state.store) as usize;
                let entry = StoreView { key, refs: 1usize, value: iso.value };
                let promoted = DepsView {
                    store: (if (h as int) < iso.state.store.len() {
                        iso.state.store.update(h as int, Some(entry))
                    } else {
                        iso.state.store.push(Some(entry))
                    }),
                    ..iso.state
                };
                let after = if shared {
                    spec_shared::<V, C>(
                        promoted.bridges.len() as int,
                        ek,
                        promoted,
                        key,
                        h,
                        iso.childs,
                        0,
                        fuel,
                    )
                } else {
                    BuildPhase { state: iso.state, childs: iso.childs, halt: PhaseHalt::Go }
                };
                match after.halt {
                    PhaseHalt::Fail(m) => RunOut { state: after.state, result: RunResult::Fail(m) },
                    PhaseHalt::Depth => RunOut { state: after.state, result: RunResult::Depth },
                    PhaseHalt::Go => {
                        let inst = if shared {
                            InstanceView::Shared(h)
                        } else {
                            InstanceView::Isolated(iso.value)
                        };
                        let hp = spec_hooks::<V, C>(d.hooks, after.state, key, inst, 0);
                        match hp.failure {
                            Some(m) => RunOut {
                                state: spec_release_instance(
                                    spec_release_children(hp.state, after.childs, 0),
                                    hp.inst,
                                ),
                                result: RunResult::Fail(m),
                            },
                            None => RunOut {
                                state: hp.state,
                                result: RunResult::Done(
                                    ScopeView { obj: hp.inst, childs: after.childs },
                                ),
                            },
                        }
                    },
                }
            },
        }
    }
}

impl<V: View, C: Construct<V>> Deps<V, C> {
    /// The store and every bridge slot table are well-formed.
    pub closed spec fn tables_wf(&self) -> bool {
        &&& self.store.wf()
        &&& forall|i: int|
            0 <= i < self.bridges@.len() ==> (#[trigger] self.bridges@[i]).s1.wf()
                && self.bridges@[i].s2.wf()
    }

    /// A fresh engine with no registrations, no bridges and no shared
    /// instances.  `empty_key` is the key that stands for the unit type: a
    /// child registered under it is not constructed recursively.
    pub fn new(empty_key: u64) -> (r: Deps<V, C>)
        ensures
            r.tables_wf(),
            r@ == (DepsView {
                empty_key,
                isolated: Seq::<IsolatedReg<C>>::empty(),
                hooks: Seq::<HookReg<C>>::empty(),
                bridges: Seq::<BridgeView<C>>::empty(),
                store: Seq::<Option<StoreView<V::V>>>::empty(),
            }),
    {
        let r = Deps {
            empty_key,
            isolated: Vec::new(),
            hooks: Vec::new(),
            bridges: Vec::new(),
            store: SlotTable::new(),
        };
        proof {
            assert(r@.isolated =~= Seq::<IsolatedReg<C>>::empty());
            assert(r@.hooks =~= Seq::<HookReg<C>>::empty());
            assert(r@.bridges =~= Seq::<BridgeView<C>>::empty());
            assert(r@.store =~= Seq::<Option<StoreView<V::V>>>::empty());
        }
        r
    }

    /// Registers a child constructor: whenever a value keyed `parent_key`
    /// is created, `constructor` runs against it and its result is created
    /// recursively under `child_key` (or discarded, when `child_key` is the
    /// empty key).
    pub fn attach(&mut self, parent_key: u64, child_key: u64, constructor: C)
        requires
            old(self).tables_wf(),
        ensures
            final(self).tables_wf(),
            final(self)@ == (DepsView {
                isolated: old(self)@.isolated.push(
                    IsolatedReg { parent_key, child_key, constructor },
                ),
                ..old(self)@
            }),
    {
        self.isolated.push(IsolatedReg { parent_key, child_key, constructor });
        proof {
            assert(self@.bridges =~= old(self)@.bridges);
        }
    }

    /// Registers a post-create hook for values keyed `key`: it runs, and
    /// may mutate the value, after all constructors for that value have
    /// completed.
    pub fn when_ready(&mut self, key: u64, constructor: C)
        requires
            old(self).tables_wf(),
        ensures
            final(self).tables_wf(),
            final(self)@ == (DepsView {
                hooks: old(self)@.hooks.push(HookReg { key, constructor }),
                ..old(self)@
            }),
    {
        self.hooks.push(HookReg { key, constructor });
        proof {
            assert(self@.bridges =~= old(self)@.bridges);
        }
    }

    /// Registers a bridge between `key1` and `key2`: once either side has a
    /// live instance, every instance created under one key is paired with
    /// every live instance under the other through `constructor`, and each
    /// pairing result is created recursively under `child_key` (or
    /// discarded, when `child_key` is the empty key).  Instances of both
    /// keys are stored shared from then on.  The two keys must differ: a
    /// key cannot be bridged with itself.
    pub fn bridge(&mut self, key1: u64, key2: u64, child_key: u64, constructor: C)
        requires
            old(self).tables_wf(),
            key1 != key2,
        ensures
            final(self).tables_wf(),
            final(self)@ == (DepsView {
                bridges: old(self)@.bridges.push(
                    BridgeView {
                        key1,
                        key2,
                        child_key,
                        constructor,
                        s1: Seq::empty(),
                        s2: Seq::empty(),
                    },
                ),
                ..old(self)@
            }),
    {
        self.bridges.push(
            BridgeReg { key1, key2, child_key, constructor, s1: SlotTable::new(), s2: SlotTable::new() },
        );
        proof {
            assert(self@.bridges =~= old(self)@.bridges.push(
                BridgeView {
                    key1,
                    key2,
                    child_key,
                    constructor,
                    s1: Seq::empty(),
                    s2: Seq::empty(),
                },
            ));
        }
    }

    /// Registers a collectable item for the collection keyed
    /// `collection_key`: creating that collection runs `constructor`
    /// against it, which is expected to push one item into it.  This is the
    /// same as attaching a constructor whose child is discarded.
    pub fn collectable(&mut self, collection_key: u64, constructor: C)
        requires
            old(self).tables_wf(),
        ensures
            final(self).tables_wf(),
            final(self)@ == (DepsView {
                isolated: old(self)@.isolated.push(
                    IsolatedReg {
                        parent_key: collection_key,
                        child_key: old(self)@.empty_key,
                        constructor,
                    },
                ),
                ..old(self)@
            }),
    {
        let child_key = self.empty_key;
        self.attach(collection_key, child_key, constructor);
    }

    /// Gives up one reference to the store entry at `h`; the entry is
    /// removed once its last reference is gone.
    fn deref_handle(&mut self, h: usize)
        requires
            old(self).tables_wf(),
        ensures
            final(self).tables_wf(),
            regs_same(old(self)@, final(self)@),
            final(self)@ == spec_deref(old(self)@, h),
    {
        if h < self.store.len() {
            let mut taken: Option<StoreEntry<V>> = None;
            self.store.swap_slot(h, &mut taken);
            match taken {
                Some(entry) => {
                    if entry.refs > 1 {
                        let mut back: Option<StoreEntry<V>> = Some(
                            StoreEntry {
                                key: entry.key,
                                refs: entry.refs - 1,
                                value: entry.value,
                            },
                        );
                        self.store.swap_slot(h, &mut back);
                        proof {
                            assert(self.store.slots() =~= old(self).store.slots().update(
                                h as int,
                                Some(
                                    StoreEntry {
                                        key: entry.key,
                                        refs: (entry.refs - 1) as usize,
                                        value: entry.value,
                                    },
                                ),
                            ));
                            assert(viewed(self.store.slots()) =~= spec_deref(old(self)@, h).store);
                            assert(self@.bridges =~= old(self)@.bridges);
                        }
                    } else {
                        let mut back: Option<StoreEntry<V>> = Some(entry);
                        self.store.swap_slot(h, &mut back);
                        assert(self.store.slots() =~= old(self).store.slots());
                        let removed = self.store.release(h);
                        proof {
                            lemma_viewed_trimmed(
                                old(self).store.slots().update(h as int, None),
                            );
                            assert(viewed(old(self).store.slots().update(h as int, None))
                                =~= old(self)@.store.update(h as int, None));
                            assert(self@.bridges =~= old(self)@.bridges);
                        }
                    }
                },
                None => {
                    let mut back: Option<StoreEntry<V>> = None;
                    self.store.swap_slot(h, &mut back);
                    proof {
                        assert(self.store.slots() =~= old(self).store.slots());
                        assert(viewed(self.store.slots()) =~= viewed(old(self).store.slots()));
                        assert(old(self)@.store[h as int] is None);
                    }
                },
            }
        }
    }

    /// Takes one more reference to the store entry at `h`, for a bridge
    /// slot about to hold its handle.
    fn bump_ref(&mut self, h: usize)
        requires
            old(self).tables_wf(),
        ensures
            final(self).tables_wf(),
            regs_same(old(self)@, final(self)@),
            final(self)@ == spec_bump_ref(old(self)@, h),
    {
        if h < self.store.len() {
            let mut taken: Option<StoreEntry<V>> = None;
            self.store.swap_slot(h, &mut taken);
            match taken {
                Some(entry) => {
                    if entry.refs < usize::MAX {
                        let mut back: Option<StoreEntry<V>> = Some(
                            StoreEntry {
                                key: entry.key,
                                refs: entry.refs + 1,
                                value: entry.value,
                            },
                        );
                        self.store.swap_slot(h, &mut back);
                        proof {
                            assert(viewed(self.store.slots()) =~= spec_bump_ref(
                                old(self)@,
                                h,
                            ).store);
                        }
                    } else {
                        let mut back: Option<StoreEntry<V>> = Some(entry);
                        self.store.swap_slot(h, &mut back);
                        proof {
                            assert(self.store.slots() =~= old(self).store.slots());
                            assert(viewed(self.store.slots()) =~= viewed(
                                old(self).store.slots(),
                            ));
                        }
                    }
                },
                None => {
                    let mut back: Option<StoreEntry<V>> = None;
                    self.store.swap_slot(h, &mut back);
                    proof {
                        assert(self.store.slots() =~= old(self).store.slots());
                        assert(viewed(self.store.slots()) =~= viewed(old(self).store.slots()));
                        assert(old(self)@.store[h as int] is None);
                    }
                },
            }
        }
    }

    /// Clears slot `id` on side `side` of the bridge at `bridge`, and gives
    /// up the reference the slot held.
    fn release_guard(&mut self, bridge: usize, side: usize, id: usize)
        requires
            old(self).tables_wf(),
        ensures
            final(self).tables_wf(),
            regs_same(old(self)@, final(self)@),
            final(self)@ == spec_release_guard(old(self)@, bridge, side, id),
    {
        if bridge < self.bridges.len() {
            let ghost b = old(self)@.bridges[bridge as int];
            let removed: Option<usize>;
            let ghost d2: DepsView<V::V, C>;
            if side == 1 && id < self.bridges[bridge].s1.len() {
                removed = self.bridges[bridge].s1.release(id);
                proof {
                    d2 = DepsView {
                        bridges: old(self)@.bridges.update(
                            bridge as int,
                            BridgeView { s1: trimmed(b.s1.update(id as int, None)), ..b },
                        ),
                        ..old(self)@
                    };
                    assert(removed == b.s1[id as int]);
                }
            } else if side == 2 && id < self.bridges[bridge].s2.len() {
                removed = self.bridges[bridge].s2.release(id);
                proof {
                    d2 = DepsView {
                        bridges: old(self)@.bridges.update(
                            bridge as int,
                            BridgeView { s2: trimmed(b.s2.update(id as int, None)), ..b },
                        ),
                        ..old(self)@
                    };
                    assert(removed == b.s2[id as int]);
                }
            } else {
                return ;
            }
            proof {
                assert(items_viewed(self.bridges@) =~= d2.bridges);
                assert(self@ =~= d2);
                assert forall|i: int|
                    0 <= i < self.bridges@.len() implies (#[trigger] self.bridges@[i]).s1.wf()
                    && self.bridges@[i].s2.wf() by {
                    if i != bridge {
                        assert(self.bridges@[i] == old(self).bridges@[i]);
                    }
                }
            }
            match removed {
                Some(h) => {
                    self.deref_handle(h);
                },
                None => (),
            }
        }
    }

    /// Releases a scope's dependents front to back: owned dependents are
    /// dropped, shared references given up, and slot guards run, each
    /// strictly before any later one.
    pub(crate) fn release_children(&mut self, childs: Vec<ScopeChild<V>>)
        requires
            old(self).tables_wf(),
        ensures
            final(self).tables_wf(),
            regs_same(old(self)@, final(self)@),
            final(self)@ == spec_release_children(old(self)@, items_viewed(childs@), 0),
    {
        let ghost cv = items_viewed(childs@);
        let mut i: usize = 0;
        while i < childs.len()
            invariant
                i <= childs@.len(),
                cv == items_viewed(childs@),
                self.tables_wf(),
                regs_same(old(self)@, self@),
                spec_release_children(old(self)@, cv, 0) == spec_release_children(
                    self@,
                    cv,
                    i as int,
                ),
            decreases childs@.len() - i,
        {
            match childs[i] {
                ScopeChild::Owned(ref _v) => (),
                ScopeChild::SharedRef(h) => {
                    self.deref_handle(h);
                },
                ScopeChild::Guard { bridge, side, id } => {
                    self.release_guard(bridge, side, id);
                },
            }
            i = i + 1;
        }
    }

    /// The cross-pairing pass for the bridge at `bi`: the freshly shared
    /// instance under `h` is paired against every live instance of the
    /// other side, in ascending slot order, mutating both paired values in
    /// the store.  Returns the bridging outputs, or the first failure;
    /// mutations made before a failure stay in place.
    #[verifier::loop_isolation(false)]
    #[verifier::rlimit(100)]
    fn pair_pass(&mut self, bi: usize, side_one: bool, h: usize) -> (r: Result<Vec<V>, Error>)
        requires
            old(self).tables_wf(),
            bi < old(self)@.bridges.len(),
        ensures
            final(self).tables_wf(),
            regs_same(old(self)@, final(self)@),
            final(self)@.bridges == old(self)@.bridges,
            ({
                let b = old(self)@.bridges[bi as int];
                let others = if side_one {
                    b.s2
                } else {
                    b.s1
                };
                let pass = spec_bridge_pairs::<V, C>(
                    old(self)@,
                    b.constructor,
                    side_one,
                    h,
                    others,
                    0,
                );
                &&& final(self)@ == pass.state
                &&& (match pass.failure {
                    None => r matches Ok(outs) && items_viewed(outs@) == pass.outputs,
                    Some(m) => r matches Err(e) && e.message@ == m,
                })
            }),
    {
        let ghost d2 = self@;
        let ghost b = d2.bridges[bi as int];
        let ghost cc = b.constructor;
        let ghost others = if side_one {
            b.s2
        } else {
            b.s1
        };
        let other_len = if side_one {
            self.bridges[bi].s2.len()
        } else {
            self.bridges[bi].s1.len()
        };
        proof {
            assert(self@.bridges[bi as int] == self.bridges@[bi as int]@);
            assert(others.len() == other_len);
        }
        let mut outputs: Vec<V> = Vec::new();
        let mut j: usize = 0;
        let mut failed: Option<Error> = None;
        proof {
            assert(items_viewed(outputs@) =~= Seq::<V::V>::empty());
            let p0 = spec_bridge_pairs::<V, C>(d2, cc, side_one, h, others, 0);
            assert(items_viewed(outputs@) + p0.outputs =~= p0.outputs);
        }
        while j < other_len && failed.is_none()
            invariant
                self.tables_wf(),
                regs_same(old(self)@, self@),
                j <= other_len,
                others.len() == other_len,
                self@.bridges == d2.bridges,
                self@.isolated == d2.isolated,
                self@.hooks == d2.hooks,
                self@.empty_key == d2.empty_key,
                0 <= (bi as int) < d2.bridges.len(),
                (if side_one {
                    d2.bridges[bi as int].s2
                } else {
                    d2.bridges[bi as int].s1
                }) == others,
                ({
                    let pass0 = spec_bridge_pairs::<V, C>(
                        d2,
                        cc,
                        side_one,
                        h,
                        others,
                        0,
                    );
                    let cont = spec_bridge_pairs::<V, C>(
                        self@,
                        cc,
                        side_one,
                        h,
                        others,
                        j as int,
                    );
                    match failed {
                        None => {
                            &&& pass0.state == cont.state
                            &&& pass0.failure == cont.failure
                            &&& (cont.failure is None ==> pass0.outputs
                                == items_viewed(outputs@) + cont.outputs)
                        },
                        Some(e) => {
                            &&& pass0.failure matches Some(m) && e.message@ == m
                            &&& pass0.state == self@
                        },
                    }
                }),
            decreases other_len - j,
        {
            let ghost d_jh = self@;
            let ghost o_head = items_viewed(outputs@);
            let slot_val: Option<usize> = if side_one {
                *self.bridges[bi].s2.slot(j)
            } else {
                *self.bridges[bi].s1.slot(j)
            };
            proof {
                assert(slot_val == others[j as int]);
            }
            match slot_val {
                None => {
                    proof {
                        assert(spec_bridge_pairs::<V, C>(
                            self@,
                            cc,
                            side_one,
                            h,
                            others,
                            j as int,
                        ) == spec_bridge_pairs::<V, C>(
                            self@,
                            cc,
                            side_one,
                            h,
                            others,
                            j + 1,
                        ));
                    }
                },
                Some(h2) => {
                    proof {
                        if h2 == h || h >= self@.store.len() || h2 >= self@.store.len() {
                            assert(spec_bridge_pairs::<V, C>(
                                self@,
                                cc,
                                side_one,
                                h,
                                others,
                                j as int,
                            ) == spec_bridge_pairs::<V, C>(
                                self@,
                                cc,
                                side_one,
                                h,
                                others,
                                j + 1,
                            ));
                        }
                    }
                    if h2 != h {
                        let sl = self.store.len();
                        if h < sl && h2 < sl {
                            let mut ta: Option<StoreEntry<V>> = None;
                            self.store.swap_slot(h, &mut ta);
                            match ta {
                                None => {
                                    let mut back: Option<StoreEntry<V>> = None;
                                    self.store.swap_slot(h, &mut back);
                                    proof {
                                        assert(viewed(self.store.slots())
                                            =~= d_jh.store);
                                        assert(self@ =~= d_jh);
                                        assert(d_jh.store[h as int] is None);
                                        assert(spec_bridge_pairs::<V, C>(
                                            self@,
                                            cc,
                                            side_one,
                                            h,
                                            others,
                                            j as int,
                                        ) == spec_bridge_pairs::<V, C>(
                                            self@,
                                            cc,
                                            side_one,
                                            h,
                                            others,
                                            j + 1,
                                        ));
                                    }
                                },
                                Some(ea) => {
                                    proof {
                                        assert(d_jh.store[h as int] == Some(ea@));
                                    }
                                    let mut tb: Option<StoreEntry<V>> = None;
                                    self.store.swap_slot(h2, &mut tb);
                                    match tb {
                                        None => {
                                            let mut back: Option<StoreEntry<V>> =
                                                Some(ea);
                                            self.store.swap_slot(h, &mut back);
                                            proof {
                                                assert(viewed(self.store.slots())
                                                    =~= d_jh.store);
                                                assert(self@ =~= d_jh);
                                                assert(d_jh.store[h2 as int] is None);
                                                assert(spec_bridge_pairs::<V, C>(
                                                    self@,
                                                    cc,
                                                    side_one,
                                                    h,
                                                    others,
                                                    j as int,
                                                ) == spec_bridge_pairs::<V, C>(
                                                    self@,
                                                    cc,
                                                    side_one,
                                                    h,
                                                    others,
                                                    j + 1,
                                                ));
                                            }
                                        },
                                        Some(eb) => {
                                            proof {
                                                assert(d_jh.store[h2 as int] == Some(
                                                    eb@,
                                                ));
                                                assert(self@.bridges[bi as int]
                                                    == self.bridges@[bi as int]@);
                                                assert(self@.bridges[bi as int] == b);
                                                assert(self.bridges@[bi as int].constructor
                                                    == cc);
                                            }
                                            let StoreEntry {
                                                key: ka,
                                                refs: ra,
                                                value: va,
                                            } = ea;
                                            let StoreEntry {
                                                key: kb,
                                                refs: rb,
                                                value: vb,
                                            } = eb;
                                            let out = if side_one {
                                                self.bridges[bi].constructor.pair(
                                                    va,
                                                    vb,
                                                )
                                            } else {
                                                self.bridges[bi].constructor.pair(
                                                    vb,
                                                    va,
                                                )
                                            };
                                            match out {
                                                PairOut::Made { a, b: bb, child } => {
                                                    let (nh, no) = if side_one {
                                                        (a, bb)
                                                    } else {
                                                        (bb, a)
                                                    };
                                                    let mut back_h: Option<
                                                        StoreEntry<V>,
                                                    > = Some(
                                                        StoreEntry {
                                                            key: ka,
                                                            refs: ra,
                                                            value: nh,
                                                        },
                                                    );
                                                    self.store.swap_slot(
                                                        h,
                                                        &mut back_h,
                                                    );
                                                    let mut back_o: Option<
                                                        StoreEntry<V>,
                                                    > = Some(
                                                        StoreEntry {
                                                            key: kb,
                                                            refs: rb,
                                                            value: no,
                                                        },
                                                    );
                                                    self.store.swap_slot(
                                                        h2,
                                                        &mut back_o,
                                                    );
                                                    let ghost ob = outputs@;
                                                    outputs.push(child);
                                                    proof {
                                                        crate::slot_table::lemma_items_viewed_push(
                                                            ob,
                                                            child,
                                                        );
                                                        assert(items_viewed(outputs@)
                                                            =~= o_head.push(child@));
                                                        assert(viewed(
                                                            self.store.slots(),
                                                        ) =~= d_jh.store.update(
                                                            h as int,
                                                            Some(
                                                                StoreView {
                                                                    key: ka,
                                                                    refs: ra,
                                                                    value: nh@,
                                                                },
                                                            ),
                                                        ).update(
                                                            h2 as int,
                                                            Some(
                                                                StoreView {
                                                                    key: kb,
                                                                    refs: rb,
                                                                    value: no@,
                                                                },
                                                            ),
                                                        ));
                                                        assert(self@ =~= (DepsView {
                                                            store: d_jh.store.update(
                                                                h as int,
                                                                Some(
                                                                    StoreView {
                                                                        key: ka,
                                                                        refs: ra,
                                                                        value: nh@,
                                                                    },
                                                                ),
                                                            ).update(
                                                                h2 as int,
                                                                Some(
                                                                    StoreView {
                                                                        key: kb,
                                                                        refs: rb,
                                                                        value: no@,
                                                                    },
                                                                ),
                                                            ),
                                                            ..d_jh
                                                        }));
                                                        let cj = spec_bridge_pairs::<
                                                            V,
                                                            C,
                                                        >(d_jh, cc, side_one, h, others, j as int);
                                                        let cj1 = spec_bridge_pairs::<
                                                            V,
                                                            C,
                                                        >(self@, cc, side_one, h, others, j + 1);
                                                        assert(cj.state == cj1.state
                                                            && cj.failure
                                                            == cj1.failure && (
                                                        cj1.failure is None
                                                            ==> cj.outputs == seq![
                                                            child@,
                                                        ] + cj1.outputs));
                                                    }
                                                },
                                                PairOut::Failed { a, b: bb, error } => {
                                                    let (nh, no) = if side_one {
                                                        (a, bb)
                                                    } else {
                                                        (bb, a)
                                                    };
                                                    let mut back_h: Option<
                                                        StoreEntry<V>,
                                                    > = Some(
                                                        StoreEntry {
                                                            key: ka,
                                                            refs: ra,
                                                            value: nh,
                                                        },
                                                    );
                                                    self.store.swap_slot(
                                                        h,
                                                        &mut back_h,
                                                    );
                                                    let mut back_o: Option<
                                                        StoreEntry<V>,
                                                    > = Some(
                                                        StoreEntry {
                                                            key: kb,
                                                            refs: rb,
                                                            value: no,
                                                        },
                                                    );
                                                    self.store.swap_slot(
                                                        h2,
                                                        &mut back_o,
                                                    );
                                                    proof {
                                                        assert(viewed(
                                                            self.store.slots(),
                                                        ) =~= d_jh.store.update(
                                                            h as int,
                                                            Some(
                                                                StoreView {
                                                                    key: ka,
                                                                    refs: ra,
                                                                    value: nh@,
                                                                },
                                                            ),
                                                        ).update(
                                                            h2 as int,
                                                            Some(
                                                                StoreView {
                                                                    key: kb,
                                                                    refs: rb,
                                                                    value: no@,
                                                                },
                                                            ),
                                                        ));
                                                        let cj = spec_bridge_pairs::<
                                                            V,
                                                            C,
                                                        >(d_jh, cc, side_one, h, others, j as int);
                                                        assert(cj.failure matches Some(
                                                            m,
                                                        ) && error.message@ == m);
                                                        assert(cj.state == self@);
                                                    }
                                                    failed = Some(error);
                                                },
                                            }
                                        },
                                    }
                                },
                            }
                        }
                    }
                },
            }
            j = j + 1;
        }
        let ghost pass0 = spec_bridge_pairs::<V, C>(d2, cc, side_one, h, others, 0);
        match failed {
            None => {
                proof {
                    assert(pass0.state == self@ && pass0.failure is None);
                    assert(pass0.outputs =~= items_viewed(outputs@) + Seq::<V::V>::empty());
                    assert(pass0.outputs =~= items_viewed(outputs@));
                }
                Ok(outputs)
            },
            Some(e) => Err(e),
        }
    }

    /// Creates one dependent per bridging output, appending each resulting
    /// scope's dependents and instance to `children` in order.  The first
    /// failure, or an exhausted depth budget, releases everything
    /// `children` holds and leaves it empty.
    #[verifier::loop_isolation(false)]
    #[verifier::rlimit(100)]
    fn build_children(
        &mut self,
        child_key: u64,
        outputs: Vec<V>,
        children: &mut Vec<ScopeChild<V>>,
        fuel: u128,
    ) -> (r: Result<(), Error>)
        requires
            old(self).tables_wf(),
            fuel >= 1,
        ensures
            final(self).tables_wf(),
            regs_same(old(self)@, final(self)@),
            ({
                let mc = spec_make_children::<V, C>(
                    old(self)@,
                    child_key,
                    items_viewed(outputs@),
                    items_viewed(old(children)@),
                    0,
                    fuel as nat,
                );
                &&& final(self)@ == mc.state
                &&& (match mc.halt {
                    PhaseHalt::Go => r is Ok && items_viewed(final(children)@) == mc.childs,
                    PhaseHalt::Fail(m) => r matches Err(e) && e.message@ == m,
                    PhaseHalt::Depth => r is Err,
                })
            }),
        decreases fuel, 0int,
    {
        let ghost fuel_n = fuel as nat;
        let ghost outs_total = items_viewed(outputs@);
        let ghost d_pass = self@;
        let ghost ch_mk0 = items_viewed(children@);
        let total = outputs.len();
        let mut outs = outputs;
        let mut k: usize = 0;
        while k < total
            invariant
                self.tables_wf(),
                regs_same(old(self)@, self@),
                fuel >= 1,
                k <= total,
                outs@.len() + k == total,
                outs_total.len() == total,
                items_viewed(outs@) == outs_total.subrange(k as int, total as int),
                spec_make_children::<V, C>(
                    d_pass,
                    child_key,
                    outs_total,
                    ch_mk0,
                    0,
                    fuel_n,
                ) == spec_make_children::<V, C>(
                    self@,
                    child_key,
                    outs_total,
                    items_viewed(children@),
                    k as int,
                    fuel_n,
                ),
            decreases total - k,
        {
            let ghost d_kh = self@;
            let ghost ch_kh = items_viewed(children@);
            let ghost outs_before = outs@;
            let o = outs.remove(0);
            proof {
                assert(items_viewed(outs_before)[0] == o@);
                assert(outs_total.subrange(k as int, total as int)[0]
                    == outs_total[k as int]);
                assert(o@ == outs_total[k as int]);
                assert(outs@ =~= outs_before.subrange(
                    1,
                    outs_before.len() as int,
                ));
                assert forall|m: int| 0 <= m < outs@.len() implies items_viewed(
                    outs@,
                )[m] == outs_total.subrange(k + 1, total as int)[m] by {
                    assert(items_viewed(outs_before)[m + 1] == outs_before[m
                        + 1]@);
                    assert(outs@[m] == outs_before[m + 1]);
                }
                assert(items_viewed(outs@) =~= outs_total.subrange(
                    k + 1,
                    total as int,
                ));
            }
            let sub = self.create_impl(child_key, o, fuel - 1);
            proof {
                assert((fuel - 1) as nat == (fuel_n - 1) as nat);
            }
            match sub {
                Ok(s) => {
                    let ghost sv = spec_create::<V, C>(
                        d_kh,
                        child_key,
                        outs_total[k as int],
                        (fuel_n - 1) as nat,
                    ).result->Done_0;
                    let Scope { obj: sobj, childs: mut schilds } = s;
                    children.append(&mut schilds);
                    match sobj {
                        Instance::Isolated(v) => {
                            children.push(ScopeChild::Owned(v));
                        },
                        Instance::Shared(hh) => {
                            children.push(ScopeChild::SharedRef(hh));
                        },
                    }
                    proof {
                        assert(items_viewed(children@) =~= ch_kh + sv.childs
                            + seq![inst_child(sv.obj)]);
                    }
                },
                Err(e) => {
                    let ghost d_sube = self@;
                    let mut drained: Vec<ScopeChild<V>> = Vec::new();
                    core::mem::swap(children, &mut drained);
                    self.release_children(drained);
                    proof {
                        let mcs = spec_make_children::<V, C>(
                            d_kh,
                            child_key,
                            outs_total,
                            ch_kh,
                            k as int,
                            fuel_n,
                        );
                        assert(mcs.state == spec_release_children(d_sube, ch_kh, 0));
                        assert(self@ == mcs.state);
                    }
                    return Err(e);
                },
            }
            k = k + 1;
        }
        Ok(())
    }

    /// One creation call with an explicit depth budget; `create` seeds the
    /// budget.  The outcome and the engine state are exactly those of
    /// [`spec_create`].
    #[verifier::loop_isolation(false)]
    #[verifier::rlimit(100)]
    fn create_impl(&mut self, key: u64, obj: V, fuel: u128) -> (r: Result<Scope<V>, Error>)
        requires
            old(self).tables_wf(),
        ensures
            final(self).tables_wf(),
            regs_same(old(self)@, final(self)@),
            ({
                let out = spec_create::<V, C>(old(self)@, key, obj@, fuel as nat);
                &&& final(self)@ == out.state
                &&& (match out.result {
                    RunResult::Done(sv) => r matches Ok(s) && s@ == sv,
                    RunResult::Fail(m) => r matches Err(e) && e.message@ == m,
                    RunResult::Depth => r is Err,
                })
            }),
        decreases fuel, 1int,
    {
        let ghost d0 = self@;
        let ghost fuel_n = fuel as nat;
        let ghost ov = obj@;
        if fuel == 0 {
            return Err(Error::new("creation exceeded the dependency depth budget".to_owned()));
        }
        let ek = self.empty_key;
        // Isolated constructors for `key`, in registration order.
        let mut value = obj;
        let mut children: Vec<ScopeChild<V>> = Vec::new();
        let mut i: usize = 0;
        proof {
            assert(items_viewed(children@) =~= Seq::<ChildView<V::V>>::empty());
        }
        while i < self.isolated.len()
            invariant
                self.tables_wf(),
                regs_same(d0, self@),
                d0 == old(self)@,
                ek == d0.empty_key,
                fuel_n == fuel as nat,
                fuel >= 1,
                i <= self.isolated@.len(),
                spec_isolated::<V, C>(d0.isolated, ek, d0, key, ov, Seq::empty(), 0, fuel_n)
                    == spec_isolated::<V, C>(
                    d0.isolated,
                    ek,
                    self@,
                    key,
                    value@,
                    items_viewed(children@),
                    i as int,
                    fuel_n,
                ),
            decreases self.isolated@.len() - i,
        {
            let ghost d_head = self@;
            let ghost ch_head = items_viewed(children@);
            let ghost vh = value@;
            let reg_parent = self.isolated[i].parent_key;
            proof {
                assert(d0.isolated[i as int] == self.isolated@[i as int]);
            }
            if reg_parent == key {
                let child_key = self.isolated[i].child_key;
                let out = self.isolated[i].constructor.construct(value);
                match out {
                    CtorOut::Failed { value: _v2, error } => {
                        proof {
                            let contp = spec_isolated::<V, C>(
                                d0.isolated,
                                ek,
                                d_head,
                                key,
                                vh,
                                ch_head,
                                i as int,
                                fuel_n,
                            );
                            assert(contp.halt matches PhaseHalt::Fail(m) && m == error.message@);
                            assert(contp.state == spec_release_children(d_head, ch_head, 0));
                        }
                        self.release_children(children);
                        proof {
                            let out0 = spec_create::<V, C>(d0, key, ov, fuel_n);
                            assert(out0.state == self@);
                            assert(out0.result matches RunResult::Fail(m) && m == error.message@);
                        }
                        return Err(error);
                    },
                    CtorOut::Made { value: v2, child } => {
                        let ghost cv = child@;
                        value = v2;
                        if child_key != ek {
                            let sub = self.create_impl(child_key, child, fuel - 1);
                            proof {
                                assert((fuel - 1) as nat == (fuel_n - 1) as nat);
                            }
                            match sub {
                                Ok(s) => {
                                    let ghost sv = spec_create::<V, C>(
                                        d_head,
                                        child_key,
                                        cv,
                                        (fuel_n - 1) as nat,
                                    ).result->Done_0;
                                    let ghost chv = children@;
                                    let Scope { obj: sobj, childs: mut schilds } = s;
                                    let ghost sch0 = schilds@;
                                    children.append(&mut schilds);
                                    let child_item = match sobj {
                                        Instance::Isolated(v) => ScopeChild::Owned(v),
                                        Instance::Shared(hh) => ScopeChild::SharedRef(hh),
                                    };
                                    children.push(child_item);
                                    proof {
                                        crate::slot_table::lemma_items_viewed_concat(chv, sch0);
                                        crate::slot_table::lemma_items_viewed_push(
                                            chv + sch0,
                                            child_item,
                                        );
                                        assert(sv.childs == items_viewed(sch0));
                                        assert(child_item@ == inst_child(sv.obj));
                                        assert(items_viewed(children@) =~= ch_head + sv.childs
                                            + seq![inst_child(sv.obj)]);
                                    }
                                },
                                Err(e) => {
                                    let ghost d_sub = self@;
                                    self.release_children(children);
                                    proof {
                                        let contp = spec_isolated::<V, C>(
                                            d0.isolated,
                                            ek,
                                            d_head,
                                            key,
                                            vh,
                                            ch_head,
                                            i as int,
                                            fuel_n,
                                        );
                                        assert(contp.state == spec_release_children(
                                            d_sub,
                                            ch_head,
                                            0,
                                        ));
                                        assert(self@ == contp.state);
                                        let out0 = spec_create::<V, C>(d0, key, ov, fuel_n);
                                        assert(out0.state == self@);
                                    }
                                    return Err(e);
                                },
                            }
                        }
                    },
                }
            }
            i = i + 1;
        }
        let ghost iso = spec_isolated::<V, C>(d0.isolated, ek, d0, key, ov, Seq::empty(), 0, fuel_n);
        proof {
            assert(iso.halt is Go && iso.state == self@ && iso.value == value@ && iso.childs
                == items_viewed(children@));
        }
        // Storage mode: shared exactly when some bridge names `key`.
        let mut shared = false;
        let mut b0: usize = 0;
        while b0 < self.bridges.len()
            invariant
                b0 <= self.bridges@.len(),
                shared <==> exists|x: int|
                    0 <= x < b0 && ((#[trigger] self@.bridges[x]).key1 == key
                        || self@.bridges[x].key2 == key),
            decreases self.bridges@.len() - b0,
        {
            if self.bridges[b0].key1 == key || self.bridges[b0].key2 == key {
                shared = true;
                proof {
                    assert((b0 as int) < self@.bridges.len() && ((self@.bridges[
                    b0 as int]).key1 == key || self@.bridges[b0 as int].key2 == key));
                }
            }
            b0 = b0 + 1;
        }
        proof {
            assert(shared == has_shared(self@, key));
        }
        let mut inst: Instance<V>;
        let ghost ch_iso = items_viewed(children@);
        let ghost after: BuildPhase<V::V, C>;
        if shared {
            // Promote the value to the store of shared instances.
            let ghost d_iso = self@;
            let ghost pre_store = self.store.slots();
            let h = self.store.insert(StoreEntry { key, refs: 1, value });
            let ghost entry_v = StoreView { key, refs: 1usize, value: iso.value };
            let ghost d_prom = DepsView {
                store: (if (h as int) < d_iso.store.len() {
                    d_iso.store.update(h as int, Some(entry_v))
                } else {
                    d_iso.store.push(Some(entry_v))
                }),
                ..d_iso
            };
            proof {
                crate::slot_table::lemma_first_free_viewed(pre_store);
                assert(h as int == first_free(d_iso.store));
                assert(viewed(self.store.slots()) =~= d_prom.store);
                assert(self@ =~= d_prom);
            }
            let ghost nb = d_prom.bridges.len() as int;
            // Shared constructors: one slot insertion, one pairing pass and
            // one teardown guard per bridge that names `key`.
            let mut bi: usize = 0;
            while bi < self.bridges.len()
                invariant
                    self.tables_wf(),
                    regs_same(d0, self@),
                    d0 == old(self)@,
                    ek == d0.empty_key,
                    fuel_n == fuel as nat,
                    fuel >= 1,
                    bi <= self.bridges@.len(),
                    nb == self@.bridges.len(),
                    spec_shared::<V, C>(nb, ek, d_prom, key, h, ch_iso, 0, fuel_n)
                        == spec_shared::<V, C>(
                        nb,
                        ek,
                        self@,
                        key,
                        h,
                        items_viewed(children@),
                        bi as int,
                        fuel_n,
                    ),
                decreases self.bridges@.len() - bi,
            {
                let ghost d_bh = self@;
                let ghost ch_bh = items_viewed(children@);
                let ghost b = d_bh.bridges[bi as int];
                let k1 = self.bridges[bi].key1;
                let k2 = self.bridges[bi].key2;
                if k1 == key || k2 == key {
                    let side_one = k1 == key;
                    let child_key = self.bridges[bi].child_key;
                    let id = if side_one {
                        self.bridges[bi].s1.insert(h)
                    } else {
                        self.bridges[bi].s2.insert(h)
                    };
                    let ghost b2 = if side_one {
                        BridgeView {
                            s1: (if (id as int) < b.s1.len() {
                                b.s1.update(id as int, Some(h))
                            } else {
                                b.s1.push(Some(h))
                            }),
                            ..b
                        }
                    } else {
                        BridgeView {
                            s2: (if (id as int) < b.s2.len() {
                                b.s2.update(id as int, Some(h))
                            } else {
                                b.s2.push(Some(h))
                            }),
                            ..b
                        }
                    };
                    let ghost d1 = DepsView { bridges: d_bh.bridges.update(bi as int, b2), ..d_bh };
                    proof {
                        assert(items_viewed(self.bridges@) =~= d1.bridges);
                        assert(self@ =~= d1);
                    }
                    self.bump_ref(h);
                    let ghost d2 = spec_bump_ref(d1, h);
                    let ghost others = if side_one {
                        b.s2
                    } else {
                        b.s1
                    };
                    let ghost cc = b.constructor;
                    proof {
                        assert(self@ == d2);
                        assert(d2.bridges =~= d1.bridges);
                        assert(d1.bridges[bi as int] == b2);
                        assert(d2.bridges[bi as int].constructor == cc);
                        if side_one {
                            assert(d2.bridges[bi as int].s2 == b.s2);
                        } else {
                            assert(d2.bridges[bi as int].s1 == b.s1);
                        }
                    }
                    let pr = self.pair_pass(bi, side_one, h);
                    let ghost pass = spec_bridge_pairs::<V, C>(d2, cc, side_one, h, others, 0);
                    let outputs: Vec<V>;
                    match pr {
                        Ok(outs) => {
                            outputs = outs;
                        },
                        Err(e) => {
                            self.release_children(children);
                            self.deref_handle(h);
                            proof {
                                assert(pass.failure matches Some(m) && e.message@ == m);
                                let sh_bi = spec_shared::<V, C>(
                                    nb,
                                    ek,
                                    d_bh,
                                    key,
                                    h,
                                    ch_bh,
                                    bi as int,
                                    fuel_n,
                                );
                                assert(sh_bi.halt matches PhaseHalt::Fail(m2) && e.message@
                                    == m2);
                                assert(sh_bi.state == self@);
                                let out0 = spec_create::<V, C>(d0, key, ov, fuel_n);
                                assert(out0.state == self@);
                                assert(out0.result matches RunResult::Fail(m3) && e.message@
                                    == m3);
                            }
                            return Err(e);
                        },
                    }
                    proof {
                        assert(pass.failure is None && self@ == pass.state && items_viewed(
                            outputs@,
                        ) == pass.outputs);
                    }
                    if child_key != ek {
                        let ghost d_pass2 = self@;
                        let ghost ch_pre = items_viewed(children@);
                        match self.build_children(child_key, outputs, &mut children, fuel) {
                            Ok(_u) => (),
                            Err(e) => {
                                self.deref_handle(h);
                                proof {
                                    let mc = spec_make_children::<V, C>(
                                        d_pass2,
                                        child_key,
                                        pass.outputs,
                                        ch_pre,
                                        0,
                                        fuel_n,
                                    );
                                    let sh_bi = spec_shared::<V, C>(
                                        nb,
                                        ek,
                                        d_bh,
                                        key,
                                        h,
                                        ch_bh,
                                        bi as int,
                                        fuel_n,
                                    );
                                    assert(sh_bi.state == self@);
                                    let out0 = spec_create::<V, C>(d0, key, ov, fuel_n);
                                    assert(out0.state == self@);
                                    assert(match out0.result {
                                        RunResult::Fail(m) => e.message@ == m,
                                        RunResult::Depth => true,
                                        RunResult::Done(_) => false,
                                    });
                                }
                                return Err(e);
                            },
                        }
                    }
                    // The slot's teardown guard joins the dependents.
                    let side_num: usize = if side_one {
                        1
                    } else {
                        2
                    };
                    let ghost ch_pre_guard = items_viewed(children@);
                    children.push(ScopeChild::Guard { bridge: bi, side: side_num, id });
                    proof {
                        assert(items_viewed(children@) =~= ch_pre_guard.push(
                            ChildView::Guard { bridge: bi, side: side_num, id },
                        ));
                    }
                }
                bi = bi + 1;
            }
            proof {
                after = spec_shared::<V, C>(nb, ek, d_prom, key, h, ch_iso, 0, fuel_n);
                assert(after.halt is Go && after.state == self@ && after.childs == items_viewed(
                    children@,
                ));
            }
            inst = Instance::Shared(h);
        } else {
            inst = Instance::Isolated(value);
            proof {
                after =
                BuildPhase { state: self@, childs: items_viewed(children@), halt: PhaseHalt::Go };
            }
        }
        // Post-create hooks for `key`, in registration order.
        let ghost d_hk0 = self@;
        let ghost inst0 = inst@;
        let mut hi: usize = 0;
        let mut hook_fail: Option<Error> = None;
        while hi < self.hooks.len() && hook_fail.is_none()
            invariant
                self.tables_wf(),
                regs_same(d0, self@),
                d0 == old(self)@,
                hi <= self.hooks@.len(),
                ({
                    let hp0 = spec_hooks::<V, C>(d0.hooks, d_hk0, key, inst0, 0);
                    let cont = spec_hooks::<V, C>(d0.hooks, self@, key, inst@, hi as int);
                    match hook_fail {
                        None => {
                            &&& hp0.state == cont.state
                            &&& hp0.inst == cont.inst
                            &&& hp0.failure == cont.failure
                        },
                        Some(e) => {
                            &&& hp0.failure matches Some(m) && e.message@ == m
                            &&& hp0.state == self@
                            &&& hp0.inst == inst@
                        },
                    }
                }),
            decreases self.hooks@.len() - hi,
        {
            let ghost d_hh = self@;
            let hk = self.hooks[hi].key;
            if hk == key {
                match inst {
                    Instance::Isolated(v) => {
                        let out = self.hooks[hi].constructor.hook(v);
                        match out {
                            HookOut::Done { value: nv } => {
                                inst = Instance::Isolated(nv);
                            },
                            HookOut::Failed { value: nv, error } => {
                                inst = Instance::Isolated(nv);
                                hook_fail = Some(error);
                            },
                        }
                    },
                    Instance::Shared(hh) => {
                        let sl = self.store.len();
                        if hh < sl {
                            let mut t: Option<StoreEntry<V>> = None;
                            self.store.swap_slot(hh, &mut t);
                            match t {
                                Some(entry) => {
                                    let StoreEntry { key: ksh, refs: rsh, value: vsh } = entry;
                                    let out = self.hooks[hi].constructor.hook(vsh);
                                    match out {
                                        HookOut::Done { value: nv } => {
                                            let mut back: Option<StoreEntry<V>> = Some(
                                                StoreEntry { key: ksh, refs: rsh, value: nv },
                                            );
                                            self.store.swap_slot(hh, &mut back);
                                            proof {
                                                assert(viewed(self.store.slots())
                                                    =~= d_hh.store.update(
                                                    hh as int,
                                                    Some(
                                                        StoreView {
                                                            key: ksh,
                                                            refs: rsh,
                                                            value: nv@,
                                                        },
                                                    ),
                                                ));
                                            }
                                        },
                                        HookOut::Failed { value: nv, error } => {
                                            let mut back: Option<StoreEntry<V>> = Some(
                                                StoreEntry { key: ksh, refs: rsh, value: nv },
                                            );
                                            self.store.swap_slot(hh, &mut back);
                                            proof {
                                                assert(viewed(self.store.slots())
                                                    =~= d_hh.store.update(
                                                    hh as int,
                                                    Some(
                                                        StoreView {
                                                            key: ksh,
                                                            refs: rsh,
                                                            value: nv@,
                                                        },
                                                    ),
                                                ));
                                            }
                                            hook_fail = Some(error);
                                        },
                                    }
                                },
                                None => {
                                    let mut back: Option<StoreEntry<V>> = None;
                                    self.store.swap_slot(hh, &mut back);
                                    proof {
                                        assert(viewed(self.store.slots()) =~= d_hh.store);
                                        assert(self@ =~= d_hh);
                                    }
                                },
                            }
                        }
                        inst = Instance::Shared(hh);
                    },
                }
            }
            hi = hi + 1;
        }
        match hook_fail {
            Some(e) => {
                self.release_children(children);
                self.release_instance(inst);
                return Err(e);
            },
            None => (),
        }
        let result = Scope { obj: inst, childs: children };
        proof {
            let hp = spec_hooks::<V, C>(d0.hooks, d_hk0, key, inst0, 0);
            assert(hp.failure is None && hp.state == self@ && hp.inst == result@.obj);
            assert(result@.childs == after.childs);
        }
        Ok(result)
    }

    /// Creates dependencies for `obj`, supplied under the type key `key`,
    /// and returns the scope that owns it together with every transitively
    /// constructed dependent.  The outcome is exactly that of
    /// [`spec_create`] with the fuel [`create_fuel`] gives: the call
    /// succeeds if and only if that run completes, in which case the scope's
    /// view is the run's scope; a constructor or hook failure is returned
    /// verbatim; and a registry whose dependencies nest deeper than the fuel
    /// allows — which requires a cyclic registration — fails with an error.
    pub fn create(&mut self, key: u64, obj: V) -> (r: Result<Scope<V>, Error>)
        requires
            old(self).tables_wf(),
        ensures
            final(self).tables_wf(),
            regs_same(old(self)@, final(self)@),
            ({
                let out = spec_create::<V, C>(old(self)@, key, obj@, create_fuel(old(self)@));
                &&& final(self)@ == out.state
                &&& (match out.result {
                    RunResult::Done(sv) => r matches Ok(s) && s@ == sv,
                    RunResult::Fail(m) => r matches Err(e) && e.message@ == m,
                    RunResult::Depth => r is Err,
                })
            }),
    {
        let fuel: u128 = self.isolated.len() as u128 + self.bridges.len() as u128 + 1;
        proof {
            assert(fuel as nat == create_fuel(self@));
        }
        self.create_impl(key, obj, fuel)
    }

    /// Creates the collection keyed `collection_key`, which runs every
    /// constructor registered with `collectable` for it against `empty`,
    /// and hands the filled collection back out of its scope, releasing the
    /// scope's dependents first.  It succeeds exactly when the creation run
    /// completes and leaves the collection exclusively owned; a collection
    /// whose key a bridge names is stored shared and is refused instead of
    /// unwrapped.
    pub fn collect(&mut self, collection_key: u64, empty: V) -> (r: Result<V, Error>)
        requires
            old(self).tables_wf(),
        ensures
            final(self).tables_wf(),
            regs_same(old(self)@, final(self)@),
            ({
                let out = spec_create::<V, C>(
                    old(self)@,
                    collection_key,
                    empty@,
                    create_fuel(old(self)@),
                );
                match out.result {
                    RunResult::Done(sv) => match sv.obj {
                        InstanceView::Isolated(m) => {
                            &&& r matches Ok(v) && v@ == m
                            &&& final(self)@ == spec_release_children(out.state, sv.childs, 0)
                        },
                        InstanceView::Shared(_) => r is Err && final(self)@ == out.state,
                    },
                    RunResult::Fail(m) => r matches Err(e) && e.message@ == m && final(self)@
                        == out.state,
                    RunResult::Depth => r is Err && final(self)@ == out.state,
                }
            }),
    {
        let scope = self.create(collection_key, empty)?;
        let Scope { obj, childs } = scope;
        match obj {
            Instance::Isolated(v) => {
                self.release_children(childs);
                Ok(v)
            },
            Instance::Shared(_h) => Err(
                Error::new("a bridged type cannot be collected".to_owned()),
            ),
        }
    }

    /// Takes the last-referenced shared value out of the store, removing
    /// its entry.
    pub(crate) fn take_shared(&mut self, h: usize) -> (r: V)
        requires
            old(self).tables_wf(),
            h < old(self)@.store.len(),
            old(self)@.store[h as int] is Some,
        ensures
            final(self).tables_wf(),
            regs_same(old(self)@, final(self)@),
            r@ == old(self)@.store[h as int]->0.value,
            final(self)@ == (DepsView {
                store: trimmed(old(self)@.store.update(h as int, None)),
                ..old(self)@
            }),
    {
        let removed = self.store.release(h);
        proof {
            lemma_viewed_trimmed(old(self).store.slots().update(h as int, None));
            assert(viewed(old(self).store.slots().update(h as int, None)) =~= old(
                self,
            )@.store.update(h as int, None));
            assert(self@.bridges =~= old(self)@.bridges);
        }
        match removed {
            Some(entry) => entry.value,
            None => vstd::pervasive::unreached(),
        }
    }

    /// Reads the shared value stored under `h`.  Every handle held by a
    /// live scope has an entry, so this only fails on a handle that no
    /// scope of this engine handed out.
    pub fn shared_value(&self, h: usize) -> (r: Result<&V, Error>)
        ensures
            (if h < self@.store.len() && self@.store[h as int] is Some {
                r matches Ok(v) && v@ == self@.store[h as int]->0.value
            } else {
                r is Err
            }),
    {
        if h < self.store.len() {
            match self.store.slot(h) {
                Some(e) => Ok(&e.value),
                None => Err(Error::new("no shared instance lives under this handle".to_owned())),
            }
        } else {
            Err(Error::new("no shared instance lives under this handle".to_owned()))
        }
    }

    /// Releases a whole instance: an isolated value is dropped, a shared
    /// handle given up.
    pub(crate) fn release_instance(&mut self, inst: Instance<V>)
        requires
            old(self).tables_wf(),
        ensures
            final(self).tables_wf(),
            regs_same(old(self)@, final(self)@),
            final(self)@ == spec_release_instance(old(self)@, inst@),
    {
        match inst {
            Instance::Isolated(_v) => (),
            Instance::Shared(h) => {
                self.deref_handle(h);
            },
        }
    }
}

} // verus!
