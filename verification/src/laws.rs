//! The laws the engine obeys, each proved once and for all.
use vstd::prelude::*;

use crate::constructed::{Construct, CtorStep, HookStep, InstanceView};
use crate::constructed::PairStep;
use crate::deps::{
    create_fuel, spec_create, spec_release_children, spec_release_instance, spec_teardown,
    BridgeView, DepsView, HookReg, IsolatedReg, RunResult, StoreView,
};
use crate::inceptor::{spec_pairs_1, BridgeFn, BridgeStep};
use crate::scope::{ChildView, ScopeView};
use crate::slot_table::{first_free, lemma_first_free_is_least, occupied, trimmed};

verus! {

/// Child-before-parent ordering: when a scope is torn down, each dependent
/// acts on a state in which every earlier dependent has already been
/// released, and the instance itself is given up only after every
/// dependent, in both storage modes.
pub proof fn lemma_child_before_parent<M, C>(d: DepsView<M, C>, s: ScopeView<M>, i: int)
    requires
        0 <= i <= s.childs.len(),
    ensures
        spec_release_children(d, s.childs, 0) == spec_release_children(
            spec_release_children(d, s.childs.subrange(0, i), 0),
            s.childs,
            i,
        ),
        spec_teardown(d, s) == spec_release_instance(spec_release_children(d, s.childs, 0), s.obj),
    decreases i,
{
    if i == 0 {
        assert(s.childs.subrange(0, 0) =~= Seq::<ChildView<M>>::empty());
    } else {
        lemma_child_before_parent(d, s, i - 1);
        let pre = s.childs.subrange(0, i - 1);
        let cur = s.childs.subrange(0, i);
        assert(cur.drop_last() =~= pre);
        assert(cur.last() == s.childs[i - 1]);
        lemma_release_children_snoc(d, cur, 0);
    }
}

/// Releasing a list of dependents handles its last element last.
proof fn lemma_release_children_snoc<M, C>(d: DepsView<M, C>, childs: Seq<ChildView<M>>, i: int)
    requires
        0 <= i < childs.len(),
    ensures
        spec_release_children(d, childs, i) == crate::deps::spec_release_child(
            spec_release_children(d, childs.drop_last(), i),
            childs.last(),
        ),
    decreases childs.len() - i,
{
    if i + 1 < childs.len() {
        assert(childs.drop_last()[i] == childs[i]);
        assert(spec_release_children(d, childs, i) == spec_release_children(
            crate::deps::spec_release_child(d, childs[i]),
            childs,
            i + 1,
        ));
        assert(spec_release_children(d, childs.drop_last(), i) == spec_release_children(
            crate::deps::spec_release_child(d, childs[i]),
            childs.drop_last(),
            i + 1,
        ));
        lemma_release_children_snoc(
            crate::deps::spec_release_child(d, childs[i]),
            childs,
            i + 1,
        );
    } else {
        assert(childs.drop_last().len() == i);
        assert(spec_release_children(d, childs.drop_last(), i) == d);
        assert(spec_release_children(d, childs, i) == spec_release_children(
            crate::deps::spec_release_child(d, childs[i]),
            childs,
            i + 1,
        ));
        assert(spec_release_children(crate::deps::spec_release_child(d, childs[i]), childs, i + 1)
            == crate::deps::spec_release_child(d, childs[i]));
    }
}

/// Recursive attach: registering a child constructor `f` from `kp` to `kc`
/// and another, `g`, from `kc` to `kd`, then creating a value under `kp`,
/// runs `g` exactly once, against exactly the child value `f` produced,
/// and the returned scope owns the two constructed dependents, deepest
/// first, with the parent value as `f` left it.
pub proof fn lemma_recursive_attach<V: View, C: Construct<V>>(
    d: DepsView<V::V, C>,
    kp: u64,
    kc: u64,
    kd: u64,
    f: C,
    g: C,
    v: V::V,
    pv: V::V,
    cv: V::V,
    cv2: V::V,
    dv: V::V,
)
    requires
        d.isolated == seq![
            IsolatedReg { parent_key: kp, child_key: kc, constructor: f },
            IsolatedReg { parent_key: kc, child_key: kd, constructor: g },
        ],
        d.hooks == Seq::<HookReg<C>>::empty(),
        d.bridges.len() == 0,
        kp != kc && kc != kd && kd != kp,
        kc != d.empty_key && kd != d.empty_key,
        f.construct_spec(v) == (CtorStep::Made { value: pv, child: cv }),
        g.construct_spec(cv) == (CtorStep::Made { value: cv2, child: dv }),
    ensures
        ({
            let out = spec_create::<V, C>(d, kp, v, create_fuel(d));
            &&& out.state == d
            &&& out.result == RunResult::<V::V>::Done(
                ScopeView {
                    obj: InstanceView::Isolated(pv),
                    childs: seq![ChildView::Owned(dv), ChildView::Owned(cv2)],
                },
            )
        }),
{
    let regs = d.isolated;
    let ek = d.empty_key;
    let fuel = create_fuel(d);
    assert(fuel == 3);
    assert(!crate::deps::has_shared(d, kd));
    assert(!crate::deps::has_shared(d, kc));
    assert(!crate::deps::has_shared(d, kp));
    let e = Seq::<ChildView<V::V>>::empty();
    // Creating under `kd` matches no registration.
    assert(crate::deps::spec_isolated::<V, C>(regs, ek, d, kd, dv, e, 0, 1)
        == crate::deps::spec_isolated::<V, C>(regs, ek, d, kd, dv, e, 1, 1));
    assert(crate::deps::spec_isolated::<V, C>(regs, ek, d, kd, dv, e, 1, 1)
        == crate::deps::spec_isolated::<V, C>(regs, ek, d, kd, dv, e, 2, 1));
    let inner = spec_create::<V, C>(d, kd, dv, 1);
    assert(inner.state == d && inner.result == RunResult::<V::V>::Done(
        ScopeView { obj: InstanceView::Isolated(dv), childs: e },
    ));
    // Creating under `kc` runs `g` once and wraps the `kd` scope.
    assert(crate::deps::spec_isolated::<V, C>(regs, ek, d, kc, cv, e, 0, 2)
        == crate::deps::spec_isolated::<V, C>(regs, ek, d, kc, cv, e, 1, 2));
    assert(e + e + seq![ChildView::<V::V>::Owned(dv)] =~= seq![ChildView::<V::V>::Owned(dv)]);
    assert(crate::deps::spec_isolated::<V, C>(regs, ek, d, kc, cv, e, 1, 2)
        == crate::deps::spec_isolated::<V, C>(
        regs,
        ek,
        d,
        kc,
        cv2,
        seq![ChildView::<V::V>::Owned(dv)],
        2,
        2,
    ));
    let mid = spec_create::<V, C>(d, kc, cv, 2);
    assert(mid.state == d && mid.result == RunResult::<V::V>::Done(
        ScopeView { obj: InstanceView::Isolated(cv2), childs: seq![ChildView::Owned(dv)] },
    ));
    // Creating under `kp` runs `f` once and wraps the `kc` scope.
    assert(e + seq![ChildView::<V::V>::Owned(dv)] + seq![ChildView::<V::V>::Owned(cv2)] =~= seq![
        ChildView::<V::V>::Owned(dv),
        ChildView::<V::V>::Owned(cv2),
    ]);
    assert(crate::deps::spec_isolated::<V, C>(regs, ek, d, kp, v, e, 0, 3)
        == crate::deps::spec_isolated::<V, C>(
        regs,
        ek,
        d,
        kp,
        pv,
        seq![ChildView::<V::V>::Owned(dv), ChildView::<V::V>::Owned(cv2)],
        1,
        3,
    ));
    assert(crate::deps::spec_isolated::<V, C>(
        regs,
        ek,
        d,
        kp,
        pv,
        seq![ChildView::<V::V>::Owned(dv), ChildView::<V::V>::Owned(cv2)],
        1,
        3,
    ) == crate::deps::spec_isolated::<V, C>(
        regs,
        ek,
        d,
        kp,
        pv,
        seq![ChildView::<V::V>::Owned(dv), ChildView::<V::V>::Owned(cv2)],
        2,
        3,
    ));
}

/// Mutable post-create: what an isolated constructor and then a post-create
/// hook leave in the parent value is exactly what the returned scope holds,
/// so locking the scope yields the mutated value.
pub proof fn lemma_mutation_visible<V: View, C: Construct<V>>(
    d: DepsView<V::V, C>,
    key: u64,
    f: C,
    g: C,
    v: V::V,
    v1: V::V,
    c1: V::V,
    v2: V::V,
)
    requires
        d.isolated == seq![
            IsolatedReg { parent_key: key, child_key: d.empty_key, constructor: f },
        ],
        d.hooks == seq![HookReg { key, constructor: g }],
        d.bridges.len() == 0,
        f.construct_spec(v) == (CtorStep::Made { value: v1, child: c1 }),
        g.hook_spec(v1) == (HookStep::Done { value: v2 }),
    ensures
        ({
            let out = spec_create::<V, C>(d, key, v, create_fuel(d));
            &&& out.state == d
            &&& out.result == RunResult::<V::V>::Done(
                ScopeView { obj: InstanceView::Isolated(v2), childs: Seq::empty() },
            )
        }),
{
    let regs = d.isolated;
    let ek = d.empty_key;
    assert(create_fuel(d) == 2);
    assert(!crate::deps::has_shared(d, key));
    let e = Seq::<ChildView<V::V>>::empty();
    assert(crate::deps::spec_isolated::<V, C>(regs, ek, d, key, v, e, 0, 2)
        == crate::deps::spec_isolated::<V, C>(regs, ek, d, key, v1, e, 1, 2));
    assert(crate::deps::spec_hooks::<V, C>(d.hooks, d, key, InstanceView::Isolated(v1), 0)
        == crate::deps::spec_hooks::<V, C>(d.hooks, d, key, InstanceView::Isolated(v2), 1));
}

/// Bridge cross-product: inserting a new first-side instance pairs it with
/// every live second-side instance exactly once — one bridging result per
/// occupied slot — when the bridging function succeeds with a result on
/// every pair.
pub proof fn lemma_bridge_cross_product<T1: View, T2: View, F: BridgeFn<T1, T2>>(
    constructor: F,
    a: T1::V,
    d2: Seq<Option<T2::V>>,
    j: int,
)
    requires
        0 <= j <= d2.len(),
        forall|x: T1::V, y: T2::V|
            #[trigger] constructor.invoke_spec(x, y) matches BridgeStep::Made { result, .. }
                && result is Some,
    ensures
        spec_pairs_1(constructor, true, a, d2, j).failure is None,
        spec_pairs_1(constructor, true, a, d2, j).results.len() == occupied(
            d2.subrange(j, d2.len() as int),
        ),
    decreases d2.len() - j,
{
    if j < d2.len() {
        let tail = d2.subrange(j, d2.len() as int);
        match d2[j] {
            None => {
                lemma_bridge_cross_product(constructor, a, d2, j + 1);
                lemma_occupied_head(tail);
                assert(tail.subrange(1, tail.len() as int) =~= d2.subrange(
                    j + 1,
                    d2.len() as int,
                ));
            },
            Some(b) => {
                let step = constructor.invoke_spec(a, b);
                match step {
                    BridgeStep::Made { a: a2, b: b2, result } => {
                        lemma_bridge_cross_product(constructor, a2, d2.update(j, Some(b2)), j + 1);
                        lemma_occupied_head(tail);
                        assert(d2.update(j, Some(b2)).subrange(j + 1, d2.len() as int) =~= d2
                            .subrange(j + 1, d2.len() as int));
                        assert(occupied(d2.update(j, Some(b2)).subrange(j + 1, d2.len() as int))
                            == occupied(d2.subrange(j + 1, d2.len() as int)));
                        assert(tail.subrange(1, tail.len() as int) =~= d2.subrange(
                            j + 1,
                            d2.len() as int,
                        ));
                    },
                    BridgeStep::Failed { .. } => {
                        assert(false);
                    },
                }
            },
        }
    } else {
        assert(d2.subrange(j, d2.len() as int) =~= Seq::<Option<T2::V>>::empty());
    }
}

/// Occupancy of a non-empty sequence splits into its head and its tail.
proof fn lemma_occupied_head<T>(s: Seq<Option<T>>)
    requires
        s.len() > 0,
    ensures
        occupied(s) == occupied(s.subrange(1, s.len() as int)) + (if s[0] is Some {
            1int
        } else {
            0int
        }),
    decreases s.len(),
{
    if s.len() == 1 {
        assert(s.drop_last() =~= Seq::<Option<T>>::empty());
        assert(s.subrange(1, s.len() as int) =~= Seq::<Option<T>>::empty());
    } else {
        lemma_occupied_head(s.drop_last());
        assert(s.drop_last().subrange(1, s.drop_last().len() as int) =~= s.subrange(
            1,
            s.len() as int,
        ).drop_last());
        assert(s.subrange(1, s.len() as int).last() == s.last());
        assert(s.drop_last()[0] == s[0]);
    }
}

/// Slot reuse: releasing the most recently occupied slot shrinks the
/// table's high-water mark immediately, while releasing an earlier slot
/// leaves the mark unchanged but frees the slot, and the freed slot is the
/// one a following insertion reuses whenever everything below it is still
/// occupied.
pub proof fn lemma_slot_reuse<T>(s: Seq<Option<T>>, id: int)
    requires
        0 <= id < s.len(),
        s.last() is Some,
    ensures
        id + 1 == s.len() ==> trimmed(s.update(id, None)).len() < s.len(),
        id + 1 < s.len() ==> trimmed(s.update(id, None)) == s.update(id, None),
        id + 1 < s.len() ==> first_free(s.update(id, None)) <= id,
        (forall|k: int| 0 <= k < id ==> s[k] is Some) ==> first_free(s.update(id, None)) == id,
{
    let s2 = s.update(id, None);
    if id + 1 == s.len() {
        assert(s2.last() is None);
        lemma_trimmed_shrinks(s2);
    } else {
        assert(s2.last() is Some);
    }
    lemma_first_free_is_least(s2);
    if id + 1 < s.len() && first_free(s2) > id {
        assert(s2[id] is Some);
        assert(false);
    }
    if forall|k: int| 0 <= k < id ==> s[k] is Some {
        crate::slot_table::lemma_first_free_at(s2, id);
    }
}

/// Trimming a sequence that ends in an empty slot strictly shrinks it.
proof fn lemma_trimmed_shrinks<T>(s: Seq<Option<T>>)
    requires
        s.len() > 0,
        s.last() is None,
    ensures
        trimmed(s).len() < s.len(),
    decreases s.len(),
{
    assert(trimmed(s) == trimmed(s.drop_last()));
    if s.drop_last().len() > 0 && s.drop_last().last() is None {
        lemma_trimmed_shrinks(s.drop_last());
    } else if s.drop_last().len() == 0 {
        assert(trimmed(s.drop_last()).len() == 0);
    } else {
        assert(trimmed(s.drop_last()) == s.drop_last());
    }
}

/// Idempotence of explode: tearing down a scope that owns its value
/// exclusively and has no dependents leaves the engine exactly as it was;
/// together with `Scope::explode`'s contract, the original value comes
/// back unchanged.
pub proof fn lemma_explode_isolated<M, C>(d: DepsView<M, C>, m: M)
    ensures
        spec_teardown(
            d,
            ScopeView { obj: InstanceView::Isolated(m), childs: Seq::<ChildView<M>>::empty() },
        ) == d,
{
}

/// Bridge reactivity: with one bridge registered between `ka` and `kb` and
/// one child constructor mutating every new `ka` value, creating a `ka`
/// value and then a `kb` value invokes the bridging function exactly once,
/// against the `ka` value as its constructor left it — not as it was
/// supplied — and the `kb` scope owns exactly one bridged dependent,
/// carrying exactly the pairing result.
pub proof fn lemma_bridge_pairs_once<V: View, C: Construct<V>>(
    d: DepsView<V::V, C>,
    ka: u64,
    kb: u64,
    kl: u64,
    f: C,
    bc: C,
    va: V::V,
    va2: V::V,
    cu: V::V,
    vb: V::V,
    a2: V::V,
    b2: V::V,
    child: V::V,
)
    requires
        d.isolated == seq![
            IsolatedReg { parent_key: ka, child_key: d.empty_key, constructor: f },
        ],
        d.hooks == Seq::<HookReg<C>>::empty(),
        d.bridges == seq![
            BridgeView {
                key1: ka,
                key2: kb,
                child_key: kl,
                constructor: bc,
                s1: Seq::<Option<usize>>::empty(),
                s2: Seq::<Option<usize>>::empty(),
            },
        ],
        d.store == Seq::<Option<StoreView<V::V>>>::empty(),
        ka != kb && kl != ka && kl != kb,
        kl != d.empty_key,
        f.construct_spec(va) == (CtorStep::Made { value: va2, child: cu }),
        bc.pair_spec(va2, vb) == (PairStep::Made { a: a2, b: b2, child }),
    ensures
        ({
            let out1 = spec_create::<V, C>(d, ka, va, create_fuel(d));
            let d1 = state_after_first(d, ka, va2);
            let out2 = spec_create::<V, C>(d1, kb, vb, create_fuel(d));
            &&& out1.state == d1
            &&& out1.result == RunResult::<V::V>::Done(
                ScopeView {
                    obj: InstanceView::Shared(0),
                    childs: seq![ChildView::Guard { bridge: 0, side: 1, id: 0 }],
                },
            )
            &&& out2.state == state_after_second(d, ka, kb, a2, b2)
            &&& out2.result == RunResult::<V::V>::Done(
                ScopeView {
                    obj: InstanceView::Shared(1),
                    childs: seq![
                        ChildView::Owned(child),
                        ChildView::Guard { bridge: 0, side: 2, id: 0 },
                    ],
                },
            )
        }),
{
    let fuel = create_fuel(d);
    assert(fuel == 3);
    let e = Seq::<ChildView<V::V>>::empty();
    let regs = d.isolated;
    let ek = d.empty_key;
    let b0 = d.bridges[0];
    // --- first creation: the constructor mutates, then the value is
    // promoted and inserted into the bridge's first side; there is nothing
    // to pair against yet.
    assert(crate::deps::has_shared(d, ka)) by {
        assert(d.bridges[0].key1 == ka);
    }
    assert(crate::deps::spec_isolated::<V, C>(regs, ek, d, ka, va, e, 0, fuel)
        == crate::deps::spec_isolated::<V, C>(regs, ek, d, ka, va2, e, 1, fuel));
    let iso1 = crate::deps::spec_isolated::<V, C>(regs, ek, d, ka, va, e, 0, fuel);
    assert(iso1.state == d && iso1.value == va2 && iso1.childs == e);
    let entry1 = StoreView { key: ka, refs: 1usize, value: va2 };
    let prom1 = DepsView { store: d.store.push(Some(entry1)), ..d };
    assert(first_free(d.store) == 0);
    let b0_ins = BridgeView { s1: seq![Some(0usize)], ..b0 };
    let d1_ins = DepsView { bridges: prom1.bridges.update(0, b0_ins), ..prom1 };
    let entry1b = StoreView { key: ka, refs: 2usize, value: va2 };
    let d1_bump = DepsView { store: d1_ins.store.update(0, Some(entry1b)), ..d1_ins };
    assert(crate::deps::spec_bump_ref(d1_ins, 0) == d1_bump) by {
        assert(d1_ins.store[0] is Some);
        assert(d1_ins.store.update(0, Some(entry1b)) =~= d1_bump.store);
    }
    assert(first_free(b0.s1) == 0);
    assert(b0.s1.push(Some(0usize)) =~= seq![Some(0usize)]);
    let pass1 = crate::deps::spec_bridge_pairs::<V, C>(d1_bump, bc, true, 0, b0.s2, 0);
    assert(pass1.state == d1_bump && pass1.failure is None && pass1.outputs == Seq::<V::V>::empty());
    let sh1 = crate::deps::spec_shared::<V, C>(1, ek, prom1, ka, 0, e, 0, fuel);
    assert(prom1.bridges[0] == b0);
    assert(prom1.bridges.update(0, b0_ins) =~= seq![b0_ins]);
    let mc1 = crate::deps::spec_make_children::<V, C>(d1_bump, kl, pass1.outputs, e, 0, fuel);
    assert(mc1.state == d1_bump && mc1.childs == e && mc1.halt is Go);
    let g1 = e.push(ChildView::<V::V>::Guard { bridge: 0, side: 1, id: 0 });
    assert(g1 =~= seq![ChildView::<V::V>::Guard { bridge: 0, side: 1, id: 0 }]);
    assert(crate::deps::spec_shared::<V, C>(1, ek, d1_bump, ka, 0, g1, 1, fuel)
        == crate::deps::BuildPhase::<V::V, C> { state: d1_bump, childs: g1, halt: crate::deps::PhaseHalt::Go });
    assert(sh1.state == d1_bump && sh1.childs == g1 && sh1.halt is Go);
    let hp1 = crate::deps::spec_hooks::<V, C>(d.hooks, d1_bump, ka, InstanceView::Shared(0), 0);
    assert(hp1.state == d1_bump && hp1.failure is None);
    let out1 = spec_create::<V, C>(d, ka, va, fuel);
    assert(out1.state == d1_bump);
    assert(d1_bump == state_after_first(d, ka, va2)) by {
        assert(d1_bump.store =~= state_after_first(d, ka, va2).store);
        assert(d1_bump.bridges =~= state_after_first(d, ka, va2).bridges);
        assert(d1_bump =~= state_after_first(d, ka, va2));
    }
    assert(out1.result == RunResult::<V::V>::Done(
        ScopeView { obj: InstanceView::Shared(0), childs: g1 },
    ));
    // --- second creation: the new value is inserted on the second side and
    // paired exactly once, against the mutated first value.
    let dd = d1_bump;
    assert(crate::deps::spec_isolated::<V, C>(regs, ek, dd, kb, vb, e, 0, fuel)
        == crate::deps::spec_isolated::<V, C>(regs, ek, dd, kb, vb, e, 1, fuel));
    assert(crate::deps::has_shared(dd, kb)) by {
        assert(dd.bridges[0].key2 == kb);
    }
    assert(first_free(dd.store) == 1) by {
        assert(dd.store[0] is Some);
        crate::slot_table::lemma_first_free_at(dd.store, 1);
    }
    let entry2 = StoreView { key: kb, refs: 1usize, value: vb };
    let prom2 = DepsView { store: dd.store.push(Some(entry2)), ..dd };
    let b1 = dd.bridges[0];
    assert(first_free(b1.s2) == 0);
    let b1_ins = BridgeView { s2: seq![Some(1usize)], ..b1 };
    assert(b1.s2.push(Some(1usize)) =~= seq![Some(1usize)]);
    let d2_ins = DepsView { bridges: prom2.bridges.update(0, b1_ins), ..prom2 };
    assert(prom2.bridges.update(0, b1_ins) =~= seq![b1_ins]);
    let entry2b = StoreView { key: kb, refs: 2usize, value: vb };
    let d2_bump = DepsView { store: d2_ins.store.update(1, Some(entry2b)), ..d2_ins };
    assert(crate::deps::spec_bump_ref(d2_ins, 1) == d2_bump) by {
        assert(d2_ins.store[1] is Some && d2_ins.store[1]->0.refs == 1);
        assert(d2_ins.store.update(1, Some(entry2b)) =~= d2_bump.store);
    }
    // the single pairing step
    let d2_paired = DepsView {
        store: d2_bump.store.update(0, Some(StoreView { key: ka, refs: 2usize, value: a2 }))
            .update(1, Some(StoreView { key: kb, refs: 2usize, value: b2 })),
        ..d2_bump
    };
    let pass2 = crate::deps::spec_bridge_pairs::<V, C>(d2_bump, bc, false, 1, b1.s1, 0);
    assert(b1.s1 == seq![Some(0usize)]);
    assert(d2_bump.store[0]->0.value == va2 && d2_bump.store[1]->0.value == vb);
    assert(d2_bump.store.update(1, Some(StoreView { key: kb, refs: 2usize, value: b2 })).update(
        0,
        Some(StoreView { key: ka, refs: 2usize, value: a2 }),
    ) =~= d2_paired.store);
    assert(crate::deps::spec_bridge_pairs::<V, C>(d2_paired, bc, false, 1, b1.s1, 1)
        == crate::deps::PairsPhase::<V::V, C> {
        state: d2_paired,
        outputs: Seq::<V::V>::empty(),
        failure: None,
    });
    assert(pass2.state == d2_paired && pass2.failure is None);
    assert(pass2.outputs =~= seq![child] + Seq::<V::V>::empty());
    assert(pass2.outputs =~= seq![child]);
    // one recursive creation for the pairing result
    assert(crate::deps::spec_isolated::<V, C>(regs, ek, d2_paired, kl, child, e, 0, 2)
        == crate::deps::spec_isolated::<V, C>(regs, ek, d2_paired, kl, child, e, 1, 2)) by {
        assert(regs[0].parent_key != kl);
    }
    assert(!crate::deps::has_shared(d2_paired, kl)) by {
        assert(forall|i: int|
            0 <= i < d2_paired.bridges.len() ==> (#[trigger] d2_paired.bridges[i]).key1 != kl
                && d2_paired.bridges[i].key2 != kl);
    }
    let sub = spec_create::<V, C>(d2_paired, kl, child, 2);
    assert(sub.state == d2_paired && sub.result == RunResult::<V::V>::Done(
        ScopeView { obj: InstanceView::Isolated(child), childs: e },
    ));
    let mc2 = crate::deps::spec_make_children::<V, C>(d2_paired, kl, pass2.outputs, e, 0, fuel);
    assert(e + e + seq![ChildView::<V::V>::Owned(child)] =~= seq![ChildView::<V::V>::Owned(child)]);
    assert(pass2.outputs.len() == 1 && pass2.outputs[0] == child);
    assert((fuel - 1) as nat == 2);
    assert(mc2 == crate::deps::spec_make_children::<V, C>(
        d2_paired,
        kl,
        pass2.outputs,
        e + e + seq![ChildView::<V::V>::Owned(child)],
        1,
        fuel,
    ));
    assert(mc2.state == d2_paired && mc2.childs == seq![ChildView::<V::V>::Owned(child)]
        && mc2.halt is Go);
    let g2 = seq![ChildView::<V::V>::Owned(child)].push(
        ChildView::<V::V>::Guard { bridge: 0, side: 2, id: 0 },
    );
    assert(g2 =~= seq![
        ChildView::<V::V>::Owned(child),
        ChildView::<V::V>::Guard { bridge: 0, side: 2, id: 0 },
    ]);
    let sh2 = crate::deps::spec_shared::<V, C>(1, ek, prom2, kb, 1, e, 0, fuel);
    assert(prom2.bridges[0] == b1);
    assert(crate::deps::spec_shared::<V, C>(1, ek, d2_paired, kb, 1, g2, 1, fuel)
        == crate::deps::BuildPhase::<V::V, C> { state: d2_paired, childs: g2, halt: crate::deps::PhaseHalt::Go });
    assert(sh2.state == d2_paired && sh2.childs == g2 && sh2.halt is Go);
    let hp2 = crate::deps::spec_hooks::<V, C>(d.hooks, d2_paired, kb, InstanceView::Shared(1), 0);
    assert(hp2.state == d2_paired && hp2.failure is None);
    let out2 = spec_create::<V, C>(dd, kb, vb, fuel);
    assert(out2.state == d2_paired);
    assert(d2_paired == state_after_second(d, ka, kb, a2, b2)) by {
        assert(d2_paired.store =~= state_after_second(d, ka, kb, a2, b2).store);
        assert(d2_paired.bridges =~= state_after_second(d, ka, kb, a2, b2).bridges);
        assert(d2_paired =~= state_after_second(d, ka, kb, a2, b2));
    }
    assert(out2.result == RunResult::<V::V>::Done(
        ScopeView { obj: InstanceView::Shared(1), childs: g2 },
    ));
}

/// The engine state `lemma_bridge_pairs_once` predicts after the first
/// creation: one shared instance, referenced by its scope and by the
/// bridge's first-side slot.
pub open spec fn state_after_first<M, C>(d: DepsView<M, C>, ka: u64, va2: M) -> DepsView<M, C> {
    DepsView {
        store: seq![Some(StoreView { key: ka, refs: 2usize, value: va2 })],
        bridges: seq![BridgeView { s1: seq![Some(0usize)], ..d.bridges[0] }],
        ..d
    }
}

/// The engine state `lemma_bridge_pairs_once` predicts after the second
/// creation: both instances shared and mutually paired, each referenced by
/// its scope and by its bridge slot.
pub open spec fn state_after_second<M, C>(
    d: DepsView<M, C>,
    ka: u64,
    kb: u64,
    a2: M,
    b2: M,
) -> DepsView<M, C> {
    DepsView {
        store: seq![
            Some(StoreView { key: ka, refs: 2usize, value: a2 }),
            Some(StoreView { key: kb, refs: 2usize, value: b2 }),
        ],
        bridges: seq![
            BridgeView { s1: seq![Some(0usize)], s2: seq![Some(1usize)], ..d.bridges[0] },
        ],
        ..d
    }
}

} // verus!
