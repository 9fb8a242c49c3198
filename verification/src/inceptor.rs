//! The bridge structure for one type pair.
//!
//! An inceptor keeps every live instance of two parent types in two slot
//! tables and invokes a single bridging function across the live
//! cross-product whenever either side gains an instance.  A slot index, once
//! assigned, is the instance's stable id until it is destroyed.
use vstd::prelude::*;

use crate::error::Error;
use crate::slot_table::{first_free, items_viewed, trimmed, viewed, SlotTable};

verus! {

/// What one bridging invocation produced: the two parent values as the
/// function left them, and either an optional result or an error.
pub enum BridgeOut<T1, T2, R> {
    /// The invocation succeeded; `result` is `None` when the function had
    /// nothing to hand back for this pair.
    Made { a: T1, b: T2, result: Option<R> },
    /// The invocation failed with `error`.
    Failed { a: T1, b: T2, error: Error },
}

/// The mathematical counterpart of `BridgeOut`, over the views of the
/// values.
pub enum BridgeStep<A, B, R> {
    Made { a: A, b: B, result: Option<R> },
    Failed { a: A, b: B, message: Seq<char> },
}

/// Whether the outcome `r` is the one that `s` describes.
pub open spec fn bridge_out_matches<T1: View, T2: View, R: View>(
    r: BridgeOut<T1, T2, R>,
    s: BridgeStep<T1::V, T2::V, R::V>,
) -> bool {
    match r {
        BridgeOut::Made { a, b, result } => match s {
            BridgeStep::Made { a: sa, b: sb, result: sr } => {
                &&& a@ == sa
                &&& b@ == sb
                &&& (match result {
                    Some(v) => sr matches Some(sv) && v@ == sv,
                    None => sr is None,
                })
            },
            BridgeStep::Failed { .. } => false,
        },
        BridgeOut::Failed { a, b, error } => match s {
            BridgeStep::Made { .. } => false,
            BridgeStep::Failed { a: sa, b: sb, message } => {
                &&& a@ == sa
                &&& b@ == sb
                &&& error.message@ == message
            },
        },
    }
}

/// A bridging function: pairs a live instance of one parent type with a live
/// instance of the other.  `invoke_spec` fixes, at the level of views, what
/// the function does to the pair and what it returns, and `invoke` is bound
/// to it; implementations supply both.
pub trait BridgeFn<T1: View, T2: View>: Sized {
    /// What a successful invocation may hand back for recursive
    /// construction.
    type Output: View;

    /// The meaning of the function on the views of a pair.
    spec fn invoke_spec(&self, a: T1::V, b: T2::V) -> BridgeStep<
        T1::V,
        T2::V,
        <Self::Output as View>::V,
    >;

    /// Runs the function on one pair.
    fn invoke(&self, a: T1, b: T2) -> (r: BridgeOut<T1, T2, Self::Output>)
        ensures
            bridge_out_matches(r, self.invoke_spec(a@, b@)),
    ;
}

/// A bridging function that leaves both sides alone and hands back a copy of
/// one fixed value for every pair.
pub struct ConstResult<R> {
    /// The value produced for every pair.
    pub value: R,
}

impl<T1: View, T2: View, R: Copy + View> BridgeFn<T1, T2> for ConstResult<R> {
    type Output = R;

    open spec fn invoke_spec(&self, a: T1::V, b: T2::V) -> BridgeStep<T1::V, T2::V, R::V> {
        BridgeStep::Made { a, b, result: Some(self.value@) }
    }

    fn invoke(&self, a: T1, b: T2) -> (r: BridgeOut<T1, T2, R>) {
        BridgeOut::Made { a, b, result: Some(self.value) }
    }
}

/// The state of one cross-pairing pass, over views: the inserted value as
/// the bridging function has left it so far, the other side's slots, the
/// results gathered so far in ascending slot order, and the error that ended
/// the pass, if one did.
pub struct PairingPass<A, B, R> {
    pub inserted: A,
    pub others: Seq<Option<B>>,
    pub results: Seq<R>,
    pub failure: Option<Seq<char>>,
}

/// One cross-pairing pass of a freshly inserted first-side value against
/// every occupied second-side slot from `j` on, in ascending slot order.
/// The inserted value is threaded through the invocations, and each
/// partner's slot keeps the value the invocation left in it.  An error stops
/// the pass.
pub open spec fn spec_pairs_1<T1: View, T2: View, F: BridgeFn<T1, T2>>(
    constructor: F,
    keep_result: bool,
    a: T1::V,
    d2: Seq<Option<T2::V>>,
    j: int,
) -> PairingPass<T1::V, T2::V, <F::Output as View>::V>
    decreases d2.len() - j,
{
    if j < 0 || j >= d2.len() {
        PairingPass { inserted: a, others: d2, results: Seq::empty(), failure: None }
    } else {
        match d2[j] {
            None => spec_pairs_1(constructor, keep_result, a, d2, j + 1),
            Some(b) => match constructor.invoke_spec(a, b) {
                BridgeStep::Made { a: a2, b: b2, result } => {
                    let rest = spec_pairs_1(
                        constructor,
                        keep_result,
                        a2,
                        d2.update(j, Some(b2)),
                        j + 1,
                    );
                    PairingPass {
                        inserted: rest.inserted,
                        others: rest.others,
                        results: (if keep_result && result is Some {
                            seq![result->0] + rest.results
                        } else {
                            rest.results
                        }),
                        failure: rest.failure,
                    }
                },
                BridgeStep::Failed { a: a2, b: b2, message } => PairingPass {
                    inserted: a2,
                    others: d2.update(j, Some(b2)),
                    results: Seq::empty(),
                    failure: Some(message),
                },
            },
        }
    }
}

/// As `spec_pairs_1`, for a freshly inserted second-side value paired
/// against every occupied first-side slot; the bridging function always
/// receives the first-side value as its first argument.
pub open spec fn spec_pairs_2<T1: View, T2: View, F: BridgeFn<T1, T2>>(
    constructor: F,
    keep_result: bool,
    b: T2::V,
    d1: Seq<Option<T1::V>>,
    j: int,
) -> PairingPass<T2::V, T1::V, <F::Output as View>::V>
    decreases d1.len() - j,
{
    if j < 0 || j >= d1.len() {
        PairingPass { inserted: b, others: d1, results: Seq::empty(), failure: None }
    } else {
        match d1[j] {
            None => spec_pairs_2(constructor, keep_result, b, d1, j + 1),
            Some(a) => match constructor.invoke_spec(a, b) {
                BridgeStep::Made { a: a2, b: b2, result } => {
                    let rest = spec_pairs_2(
                        constructor,
                        keep_result,
                        b2,
                        d1.update(j, Some(a2)),
                        j + 1,
                    );
                    PairingPass {
                        inserted: rest.inserted,
                        others: rest.others,
                        results: (if keep_result && result is Some {
                            seq![result->0] + rest.results
                        } else {
                            rest.results
                        }),
                        failure: rest.failure,
                    }
                },
                BridgeStep::Failed { a: a2, b: b2, message } => PairingPass {
                    inserted: b2,
                    others: d1.update(j, Some(a2)),
                    results: Seq::empty(),
                    failure: Some(message),
                },
            },
        }
    }
}

/// The per-type-pair bridge structure: two slot tables of live parent
/// instances and the bridging function invoked across the live
/// cross-product.
pub struct Inceptor<T1, T2, F> {
    d1: SlotTable<T1>,
    d2: SlotTable<T2>,
    keep_result: bool,
    constructor: F,
}

impl<T1: View, T2: View, F: BridgeFn<T1, T2>> Inceptor<T1, T2, F> {
    /// The first side's table.
    pub closed spec fn table_1(&self) -> SlotTable<T1> {
        self.d1
    }

    /// The second side's table.
    pub closed spec fn table_2(&self) -> SlotTable<T2> {
        self.d2
    }

    /// The first side's slots.
    pub open spec fn slots_1(&self) -> Seq<Option<T1>> {
        self.table_1().slots()
    }

    /// The second side's slots.
    pub open spec fn slots_2(&self) -> Seq<Option<T2>> {
        self.table_2().slots()
    }

    /// The stored bridging function.
    pub closed spec fn constructor(&self) -> F {
        self.constructor
    }

    /// Whether bridging results are kept for the caller or discarded.
    pub closed spec fn keeps_result(&self) -> bool {
        self.keep_result
    }

    /// Both tables are well-formed.
    pub open spec fn wf(&self) -> bool {
        &&& self.table_1().wf()
        &&& self.table_2().wf()
    }

    /// An empty bridge around `constructor`, keeping bridging results.
    pub fn new(constructor: F) -> (r: Inceptor<T1, T2, F>)
        ensures
            r.wf(),
            r.slots_1() == Seq::<Option<T1>>::empty(),
            r.slots_2() == Seq::<Option<T2>>::empty(),
            r.constructor() == constructor,
            r.keeps_result(),
    {
        Inceptor { d1: SlotTable::new(), d2: SlotTable::new(), keep_result: true, constructor }
    }

    /// An empty bridge whose pairing results are handed to the caller for
    /// recursive construction.
    pub fn new_with_return_val(constructor: F) -> (r: Inceptor<T1, T2, F>)
        ensures
            r.wf(),
            r.slots_1() == Seq::<Option<T1>>::empty(),
            r.slots_2() == Seq::<Option<T2>>::empty(),
            r.constructor() == constructor,
            r.keeps_result(),
    {
        Inceptor { d1: SlotTable::new(), d2: SlotTable::new(), keep_result: true, constructor }
    }

    /// An empty bridge whose pairing results are discarded: the bridging
    /// function is still invoked for every pair, but nothing is constructed
    /// from what it returns.
    pub fn new_with_ignored_return_val(constructor: F) -> (r: Inceptor<T1, T2, F>)
        ensures
            r.wf(),
            r.slots_1() == Seq::<Option<T1>>::empty(),
            r.slots_2() == Seq::<Option<T2>>::empty(),
            r.constructor() == constructor,
            !r.keeps_result(),
    {
        Inceptor { d1: SlotTable::new(), d2: SlotTable::new(), keep_result: false, constructor }
    }

    /// How many first-side slots are live.
    pub fn occupied_1(&self) -> (r: usize)
        ensures
            r == crate::slot_table::occupied(self.slots_1()),
    {
        self.d1.occupied_count()
    }

    /// How many second-side slots are live.
    pub fn occupied_2(&self) -> (r: usize)
        ensures
            r == crate::slot_table::occupied(self.slots_2()),
    {
        self.d2.occupied_count()
    }

    /// The first side's table length.
    pub fn len_1(&self) -> (r: usize)
        ensures
            r == self.slots_1().len(),
    {
        self.d1.len()
    }

    /// The second side's table length.
    pub fn len_2(&self) -> (r: usize)
        ensures
            r == self.slots_2().len(),
    {
        self.d2.len()
    }

    /// Inserts a new first-side instance and pairs it against every live
    /// second-side instance in ascending slot order.  Returns the new
    /// instance's slot id and the bridging results gathered, or the first
    /// error; the slot stays occupied either way, holding the value as the
    /// pairing pass left it.
    pub fn incept_1(&mut self, parent: T1) -> (r: Result<
        (usize, Vec<<F as BridgeFn<T1, T2>>::Output>),
        Error,
    >)
        requires
            old(self).wf(),
        ensures
            final(self).wf(),
            final(self).constructor() == old(self).constructor(),
            final(self).keeps_result() == old(self).keeps_result(),
            ({
                let pass = spec_pairs_1(
                    old(self).constructor(),
                    old(self).keeps_result(),
                    parent@,
                    viewed(old(self).slots_2()),
                    0,
                );
                let id = first_free(old(self).slots_1());
                &&& viewed(final(self).slots_2()) == pass.others
                &&& viewed(final(self).slots_1()) == (if id < old(self).slots_1().len() {
                    viewed(old(self).slots_1()).update(id, Some(pass.inserted))
                } else {
                    viewed(old(self).slots_1()).push(Some(pass.inserted))
                })
                &&& (match pass.failure {
                    None => {
                        &&& r matches Ok((rid, results))
                        &&& rid == id
                        &&& items_viewed(results@) == pass.results
                    },
                    Some(message) => r matches Err(e) && e.message@ == message,
                })
            }),
    {
        let ghost c = self.constructor;
        let ghost keep = self.keep_result;
        let ghost d2_0 = viewed(self.d2.slots());
        let mut a = parent;
        let mut results: Vec<<F as BridgeFn<T1, T2>>::Output> = Vec::new();
        let mut j: usize = 0;
        let mut failure: Option<Error> = None;
        while j < self.d2.len() && failure.is_none()
            invariant
                self.d1 == old(self).d1,
                self.constructor == c,
                self.keep_result == keep,
                self.d2.slots().len() == old(self).d2.slots().len(),
                self.d2.used() == old(self).d2.used(),
                self.d2.slots().len() == 0 || self.d2.slots().last() is Some,
                j <= self.d2.slots().len(),
                ({
                    let pass0 = spec_pairs_1(c, keep, parent@, d2_0, 0);
                    let cont = spec_pairs_1(c, keep, a@, viewed(self.d2.slots()), j as int);
                    match failure {
                        None => {
                            &&& pass0.inserted == cont.inserted
                            &&& pass0.others == cont.others
                            &&& pass0.failure == cont.failure
                            &&& (cont.failure is None ==> pass0.results == items_viewed(
                                results@,
                            ) + cont.results)
                        },
                        Some(err) => {
                            &&& pass0.failure matches Some(m) && err.message@ == m
                            &&& pass0.others == viewed(self.d2.slots())
                            &&& pass0.inserted == a@
                        },
                    }
                }),
            decreases self.d2.slots().len() - j,
        {
            let ghost d2_j = viewed(self.d2.slots());
            let mut taken: Option<T2> = None;
            self.d2.swap_slot(j, &mut taken);
            match taken {
                None => {
                    let mut back: Option<T2> = None;
                    self.d2.swap_slot(j, &mut back);
                    proof {
                        assert(viewed(self.d2.slots()) =~= d2_j);
                    }
                },
                Some(b) => {
                    let out = self.constructor.invoke(a, b);
                    match out {
                        BridgeOut::Made { a: a2, b: b2, result } => {
                            let mut back: Option<T2> = Some(b2);
                            self.d2.swap_slot(j, &mut back);
                            proof {
                                assert(viewed(self.d2.slots()) =~= d2_j.update(
                                    j as int,
                                    Some(b2@),
                                ));
                            }
                            if self.keep_result {
                                match result {
                                    Some(res) => {
                                        results.push(res);
                                    },
                                    None => (),
                                }
                            }
                            a = a2;
                        },
                        BridgeOut::Failed { a: a2, b: b2, error } => {
                            let mut back: Option<T2> = Some(b2);
                            self.d2.swap_slot(j, &mut back);
                            proof {
                                assert(viewed(self.d2.slots()) =~= d2_j.update(
                                    j as int,
                                    Some(b2@),
                                ));
                            }
                            a = a2;
                            failure = Some(error);
                        },
                    }
                },
            }
            j = j + 1;
        }
        let ghost pass0 = spec_pairs_1(c, keep, parent@, d2_0, 0);
        let id = self.d1.insert(a);
        proof {
            if failure is None {
                assert(pass0.results =~= items_viewed(results@) + Seq::empty());
                assert(pass0.results =~= items_viewed(results@));
            }
            assert(viewed(self.d1.slots()) =~= (if (id as int) < old(self).d1.slots().len() {
                viewed(old(self).d1.slots()).update(id as int, Some(pass0.inserted))
            } else {
                viewed(old(self).d1.slots()).push(Some(pass0.inserted))
            }));
        }
        match failure {
            None => Ok((id, results)),
            Some(error) => Err(error),
        }
    }

    /// Inserts a new second-side instance and pairs it against every live
    /// first-side instance in ascending slot order; the bridging function
    /// receives the first-side value first.  Returns the new instance's slot
    /// id and the bridging results gathered, or the first error; the slot
    /// stays occupied either way.
    pub fn incept_2(&mut self, parent: T2) -> (r: Result<
        (usize, Vec<<F as BridgeFn<T1, T2>>::Output>),
        Error,
    >)
        requires
            old(self).wf(),
        ensures
            final(self).wf(),
            final(self).constructor() == old(self).constructor(),
            final(self).keeps_result() == old(self).keeps_result(),
            ({
                let pass = spec_pairs_2(
                    old(self).constructor(),
                    old(self).keeps_result(),
                    parent@,
                    viewed(old(self).slots_1()),
                    0,
                );
                let id = first_free(old(self).slots_2());
                &&& viewed(final(self).slots_1()) == pass.others
                &&& viewed(final(self).slots_2()) == (if id < old(self).slots_2().len() {
                    viewed(old(self).slots_2()).update(id, Some(pass.inserted))
                } else {
                    viewed(old(self).slots_2()).push(Some(pass.inserted))
                })
                &&& (match pass.failure {
                    None => {
                        &&& r matches Ok((rid, results))
                        &&& rid == id
                        &&& items_viewed(results@) == pass.results
                    },
                    Some(message) => r matches Err(e) && e.message@ == message,
                })
            }),
    {
        let ghost c = self.constructor;
        let ghost keep = self.keep_result;
        let ghost d1_0 = viewed(self.d1.slots());
        let mut b = parent;
        let mut results: Vec<<F as BridgeFn<T1, T2>>::Output> = Vec::new();
        let mut j: usize = 0;
        let mut failure: Option<Error> = None;
        while j < self.d1.len() && failure.is_none()
            invariant
                self.d2 == old(self).d2,
                self.constructor == c,
                self.keep_result == keep,
                self.d1.slots().len() == old(self).d1.slots().len(),
                self.d1.used() == old(self).d1.used(),
                self.d1.slots().len() == 0 || self.d1.slots().last() is Some,
                j <= self.d1.slots().len(),
                ({
                    let pass0 = spec_pairs_2(c, keep, parent@, d1_0, 0);
                    let cont = spec_pairs_2(c, keep, b@, viewed(self.d1.slots()), j as int);
                    match failure {
                        None => {
                            &&& pass0.inserted == cont.inserted
                            &&& pass0.others == cont.others
                            &&& pass0.failure == cont.failure
                            &&& (cont.failure is None ==> pass0.results == items_viewed(
                                results@,
                            ) + cont.results)
                        },
                        Some(err) => {
                            &&& pass0.failure matches Some(m) && err.message@ == m
                            &&& pass0.others == viewed(self.d1.slots())
                            &&& pass0.inserted == b@
                        },
                    }
                }),
            decreases self.d1.slots().len() - j,
        {
            let ghost d1_j = viewed(self.d1.slots());
            let mut taken: Option<T1> = None;
            self.d1.swap_slot(j, &mut taken);
            match taken {
                None => {
                    let mut back: Option<T1> = None;
                    self.d1.swap_slot(j, &mut back);
                    proof {
                        assert(viewed(self.d1.slots()) =~= d1_j);
                    }
                },
                Some(a) => {
                    let out = self.constructor.invoke(a, b);
                    match out {
                        BridgeOut::Made { a: a2, b: b2, result } => {
                            let mut back: Option<T1> = Some(a2);
                            self.d1.swap_slot(j, &mut back);
                            proof {
                                assert(viewed(self.d1.slots()) =~= d1_j.update(
                                    j as int,
                                    Some(a2@),
                                ));
                            }
                            if self.keep_result {
                                match result {
                                    Some(res) => {
                                        results.push(res);
                                    },
                                    None => (),
                                }
                            }
                            b = b2;
                        },
                        BridgeOut::Failed { a: a2, b: b2, error } => {
                            let mut back: Option<T1> = Some(a2);
                            self.d1.swap_slot(j, &mut back);
                            proof {
                                assert(viewed(self.d1.slots()) =~= d1_j.update(
                                    j as int,
                                    Some(a2@),
                                ));
                            }
                            b = b2;
                            failure = Some(error);
                        },
                    }
                },
            }
            j = j + 1;
        }
        let ghost pass0 = spec_pairs_2(c, keep, parent@, d1_0, 0);
        let id = self.d2.insert(b);
        proof {
            if failure is None {
                assert(pass0.results =~= items_viewed(results@) + Seq::empty());
                assert(pass0.results =~= items_viewed(results@));
            }
            assert(viewed(self.d2.slots()) =~= (if (id as int) < old(self).d2.slots().len() {
                viewed(old(self).d2.slots()).update(id as int, Some(pass0.inserted))
            } else {
                viewed(old(self).d2.slots()).push(Some(pass0.inserted))
            }));
        }
        match failure {
            None => Ok((id, results)),
            Some(error) => Err(error),
        }
    }

    /// Clears the first-side slot `id` and returns what it held.  When the
    /// cleared slot was the last occupied one, the table shrinks past every
    /// trailing empty slot; ids of earlier live slots are preserved.
    pub fn destroy_1(&mut self, id: usize) -> (removed: Option<T1>)
        requires
            old(self).wf(),
            id < old(self).slots_1().len(),
        ensures
            final(self).wf(),
            removed == old(self).slots_1()[id as int],
            final(self).slots_1() == trimmed(old(self).slots_1().update(id as int, None)),
            final(self).slots_2() == old(self).slots_2(),
            final(self).constructor() == old(self).constructor(),
            final(self).keeps_result() == old(self).keeps_result(),
    {
        self.d1.release(id)
    }

    /// Clears the second-side slot `id`, as `destroy_1` does for the first
    /// side.
    pub fn destroy_2(&mut self, id: usize) -> (removed: Option<T2>)
        requires
            old(self).wf(),
            id < old(self).slots_2().len(),
        ensures
            final(self).wf(),
            removed == old(self).slots_2()[id as int],
            final(self).slots_2() == trimmed(old(self).slots_2().update(id as int, None)),
            final(self).slots_1() == old(self).slots_1(),
            final(self).constructor() == old(self).constructor(),
            final(self).keeps_result() == old(self).keeps_result(),
    {
        self.d2.release(id)
    }
}

/// A deferred teardown action for one bridge slot: it remembers which side
/// and which slot id to clear.  It is stored among the children of the scope
/// whose instance it polices, so that running it is ordered by the normal
/// child-before-parent rule.
pub struct Destructor {
    index: usize,
    id: usize,
}

impl Destructor {
    /// Which side's table the action clears: 1 or 2.
    pub closed spec fn side(&self) -> usize {
        self.index
    }

    /// The slot id the action clears.
    pub closed spec fn slot_id(&self) -> usize {
        self.id
    }

    /// A teardown action for side `index` (1 or 2), slot `id`.
    pub fn new(index: usize, id: usize) -> (r: Destructor)
        ensures
            r.side() == index,
            r.slot_id() == id,
    {
        Destructor { index, id }
    }

    /// Runs the action: clears the remembered slot on the remembered side of
    /// `inceptor`.  A side other than 1 or 2 does nothing.
    pub fn dispose<T1: View, T2: View, F: BridgeFn<T1, T2>>(
        self,
        inceptor: &mut Inceptor<T1, T2, F>,
    )
        requires
            old(inceptor).wf(),
            self.side() == 1 ==> self.slot_id() < old(inceptor).slots_1().len(),
            self.side() == 2 ==> self.slot_id() < old(inceptor).slots_2().len(),
        ensures
            final(inceptor).wf(),
            final(inceptor).constructor() == old(inceptor).constructor(),
            final(inceptor).keeps_result() == old(inceptor).keeps_result(),
            final(inceptor).slots_1() == (if self.side() == 1 {
                trimmed(old(inceptor).slots_1().update(self.slot_id() as int, None))
            } else {
                old(inceptor).slots_1()
            }),
            final(inceptor).slots_2() == (if self.side() == 2 {
                trimmed(old(inceptor).slots_2().update(self.slot_id() as int, None))
            } else {
                old(inceptor).slots_2()
            }),
    {
        if self.index == 1 {
            inceptor.destroy_1(self.id);
        } else if self.index == 2 {
            inceptor.destroy_2(self.id);
        }
    }
}

} // verus!
