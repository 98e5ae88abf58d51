//! A pool of drawing surfaces that are reused instead of allocated anew.

use vstd::prelude::*;

verus! {

/// The size of a surface in pixels.
#[derive(Clone, Copy, Debug, PartialEq, Eq, Structural)]
pub struct ScreenSize {
    pub width: u32,
    pub height: u32,
}

/// A surface on loan from a pool, with the slot that it belongs to.
#[derive(Debug)]
pub struct Layer<T> {
    slot: usize,
    surface: T,
}

/// A pool of surfaces for drawing that is nested.
///
/// A surface that has come back is cleared and handed out again before a
/// new one is allocated. A slot that holds no surface is on loan.
#[verifier::reject_recursive_types(T)]
pub struct Layers<T, A: Fn(ScreenSize, u32) -> Option<T>, C: Fn(T) -> T> {
    d: Vec<Option<T>>,
    outstanding: usize,
    img_size: ScreenSize,
    dpi: u32,
    new_img_fn: A,
    clear_img_fn: C,
}

/// The number of slots on loan.
pub open spec fn count_lent<T>(slots: Seq<Option<T>>) -> nat
    decreases slots.len(),
{
    if slots.len() == 0 {
        0
    } else {
        count_lent(slots.drop_last()) + if slots.last() is None {
            1nat
        } else {
            0nat
        }
    }
}

/// Whether every slot is on loan.
pub open spec fn all_lent<T>(slots: Seq<Option<T>>) -> bool {
    forall|i: int| 0 <= i < slots.len() ==> (#[trigger] slots[i]) is None
}

/// Whether `i` is the first slot that is idle: the surface that was pushed
/// longest ago among those that are not on loan.
pub open spec fn is_first_idle<T>(slots: Seq<Option<T>>, i: int) -> bool {
    &&& 0 <= i < slots.len()
    &&& slots[i] is Some
    &&& forall|k: int| 0 <= k < i ==> (#[trigger] slots[k]) is None
}

/// No more slots are on loan than there are slots, and all are on loan
/// exactly when the count says so.
pub proof fn count_lent_bounds<T>(slots: Seq<Option<T>>)
    ensures
        count_lent(slots) <= slots.len(),
        count_lent(slots) == slots.len() <==> all_lent(slots),
    decreases slots.len(),
{
    if slots.len() > 0 {
        let init = slots.drop_last();
        count_lent_bounds(init);
        if all_lent(slots) {
            assert forall|i: int| 0 <= i < init.len() implies (#[trigger] init[i]) is None by {
                assert(init[i] == slots[i]);
            }
        }
        if count_lent(slots) == slots.len() {
            assert forall|i: int| 0 <= i < slots.len() implies (#[trigger] slots[i]) is None by {
                if i < init.len() {
                    assert(init[i] == slots[i]);
                }
            }
        }
    }
}

/// What a change of one slot does to the number on loan.
pub proof fn count_lent_update<T>(slots: Seq<Option<T>>, i: int, v: Option<T>)
    requires
        0 <= i < slots.len(),
    ensures
        count_lent(slots.update(i, v)) + (if slots[i] is None {
            1nat
        } else {
            0nat
        }) == count_lent(slots) + (if v is None {
            1nat
        } else {
            0nat
        }),
    decreases slots.len(),
{
    let after = slots.update(i, v);
    if i == slots.len() - 1 {
        assert(after.drop_last() =~= slots.drop_last());
    } else {
        assert(after.drop_last() =~= slots.drop_last().update(i, v));
        count_lent_update(slots.drop_last(), i, v);
    }
}

/// A slot that is added on loan adds one to the number on loan.
pub proof fn count_lent_push<T>(slots: Seq<Option<T>>, v: Option<T>)
    ensures
        count_lent(slots.push(v)) == count_lent(slots) + (if v is None {
            1nat
        } else {
            0nat
        }),
{
    assert(slots.push(v).drop_last() =~= slots);
}

/// The slot that the next surface is handed out of: the first idle one,
/// or a new one after the last where every slot is on loan.
pub open spec fn next_slot<T>(slots: Seq<Option<T>>) -> int
    decreases slots.len(),
{
    if slots.len() == 0 || slots[0] is Some {
        0
    } else {
        1 + next_slot(slots.drop_first())
    }
}

/// The slots after a surface was handed out.
pub open spec fn after_loan<T>(slots: Seq<Option<T>>) -> Seq<Option<T>> {
    if all_lent(slots) {
        slots.push(None)
    } else {
        slots.update(next_slot(slots), None)
    }
}

/// The slots after `n` surfaces were handed out and none came back.
pub open spec fn after_loans<T>(slots: Seq<Option<T>>, n: nat) -> Seq<Option<T>>
    decreases n,
{
    if n == 0 {
        slots
    } else {
        after_loan(after_loans(slots, (n - 1) as nat))
    }
}

/// The slots after the surface of slot `i` came back.
pub open spec fn after_return<T>(slots: Seq<Option<T>>, i: int, surface: T) -> Seq<Option<T>> {
    slots.update(i, Some(surface))
}

/// The slots of a pool that has handed out `n` surfaces and has none back.
pub open spec fn all_on_loan<T>(n: nat) -> Seq<Option<T>> {
    Seq::new(n, |i: int| None::<T>)
}

/// The next slot is the first idle one, and the one after the last where
/// there is none.
pub proof fn next_slot_is_first_idle<T>(slots: Seq<Option<T>>)
    ensures
        0 <= next_slot(slots) <= slots.len(),
        all_lent(slots) <==> next_slot(slots) == slots.len(),
        forall|i: int| is_first_idle(slots, i) <==> (i == next_slot(slots) && i < slots.len()),
    decreases slots.len(),
{
    if slots.len() > 0 && slots[0] is None {
        let rest = slots.drop_first();
        next_slot_is_first_idle(rest);
        if all_lent(slots) {
            assert forall|k: int| 0 <= k < rest.len() implies (#[trigger] rest[k]) is None by {
                assert(rest[k] == slots[k + 1]);
            }
        }
        if all_lent(rest) {
            assert forall|k: int| 0 <= k < slots.len() implies (#[trigger] slots[k]) is None by {
                if k > 0 {
                    assert(slots[k] == rest[k - 1]);
                }
            }
        }
        assert forall|i: int| is_first_idle(slots, i) <==> (i == next_slot(slots) && i
            < slots.len()) by {
            if is_first_idle(slots, i) {
                assert(i > 0);
                assert(rest[i - 1] == slots[i]);
                assert forall|k: int| 0 <= k < i - 1 implies (#[trigger] rest[k]) is None by {
                    assert(rest[k] == slots[k + 1]);
                }
                assert(is_first_idle(rest, i - 1));
            }
            if i == next_slot(slots) && i < slots.len() {
                assert(is_first_idle(rest, i - 1));
                assert(slots[i] == rest[i - 1]);
                assert forall|k: int| 0 <= k < i implies (#[trigger] slots[k]) is None by {
                    if k > 0 {
                        assert(slots[k] == rest[k - 1]);
                    }
                }
            }
        }
    } else if slots.len() > 0 {
        assert(!all_lent(slots));
        assert forall|i: int| is_first_idle(slots, i) implies i == 0 by {
            if i > 0 {
                assert(slots[0] is None);
            }
        }
    }
}

/// Nothing is on loan exactly where every slot holds its surface.
pub proof fn nothing_on_loan<T>(slots: Seq<Option<T>>)
    ensures
        count_lent(slots) == 0 <==> (forall|i: int|
            0 <= i < slots.len() ==> (#[trigger] slots[i]) is Some),
    decreases slots.len(),
{
    if slots.len() > 0 {
        let init = slots.drop_last();
        nothing_on_loan(init);
        if count_lent(slots) == 0 {
            assert forall|i: int| 0 <= i < slots.len() implies (#[trigger] slots[i]) is Some by {
                if i < init.len() {
                    assert(init[i] == slots[i]);
                }
            }
        }
        if forall|i: int| 0 <= i < slots.len() ==> (#[trigger] slots[i]) is Some {
            assert forall|i: int| 0 <= i < init.len() implies (#[trigger] init[i]) is Some by {
                assert(init[i] == slots[i]);
            }
        }
    }
}

/// A surface that is handed out is one more on loan.
pub proof fn loan_counts_one_more<T>(slots: Seq<Option<T>>)
    ensures
        count_lent(after_loan(slots)) == count_lent(slots) + 1,
        all_lent(slots) ==> after_loan(slots).len() == slots.len() + 1,
        !all_lent(slots) ==> after_loan(slots).len() == slots.len(),
{
    next_slot_is_first_idle(slots);
    if all_lent(slots) {
        count_lent_push(slots, None);
    } else {
        assert(is_first_idle(slots, next_slot(slots)));
        count_lent_update(slots, next_slot(slots), None);
    }
}

/// A surface that comes back to the slot that it was lent out of is one
/// fewer on loan.
pub proof fn return_counts_one_fewer<T>(slots: Seq<Option<T>>, i: int, surface: T)
    requires
        0 <= i < slots.len(),
        slots[i] is None,
    ensures
        count_lent(after_return(slots, i, surface)) + 1 == count_lent(slots),
        after_return(slots, i, surface).len() == slots.len(),
{
    count_lent_update(slots, i, Some(surface));
}

/// A pool grows by one surface with each one that it hands out while none
/// comes back: after `n` of them, from none, it owns `n` surfaces and all
/// `n` are on loan.
pub proof fn pool_grows_with_loans<T>(n: nat)
    ensures
        after_loans(Seq::<Option<T>>::empty(), n) == all_on_loan::<T>(n),
        after_loans(Seq::<Option<T>>::empty(), n).len() == n,
        all_lent(after_loans(Seq::<Option<T>>::empty(), n)),
        count_lent(after_loans(Seq::<Option<T>>::empty(), n)) == n,
    decreases n,
{
    let start = Seq::<Option<T>>::empty();
    if n == 0 {
        assert(start =~= all_on_loan::<T>(0));
    } else {
        pool_grows_with_loans::<T>((n - 1) as nat);
        let before = all_on_loan::<T>((n - 1) as nat);
        assert(after_loans(start, n) == after_loan(before));
        assert(before.push(None) =~= all_on_loan::<T>(n));
    }
    count_lent_bounds(all_on_loan::<T>(n));
}

/// Where every surface was on loan and one comes back, its slot is the
/// next to be handed out of, and handing it out leaves the pool with the
/// slots that it had: the pool has not grown.
pub proof fn released_surface_is_reused<T>(slots: Seq<Option<T>>, i: int, surface: T)
    requires
        all_lent(slots),
        0 <= i < slots.len(),
    ensures
        !all_lent(after_return(slots, i, surface)),
        next_slot(after_return(slots, i, surface)) == i,
        after_return(slots, i, surface)[i] == Some(surface),
        after_loan(after_return(slots, i, surface)) == slots,
        after_loan(after_return(slots, i, surface)).len() == slots.len(),
{
    let back = after_return(slots, i, surface);
    assert(back[i] is Some);
    assert forall|k: int| 0 <= k < i implies (#[trigger] back[k]) is None by {
        assert(back[k] == slots[k]);
    }
    assert(is_first_idle(back, i));
    next_slot_is_first_idle(back);
    assert(back.update(i, None) =~= slots);
}

impl<T> Layer<T> {
    /// The slot of the pool that the surface belongs to.
    pub closed spec fn slot_spec(self) -> usize {
        self.slot
    }

    /// The surface on loan.
    pub closed spec fn surface_spec(self) -> T {
        self.surface
    }

    /// The slot of the pool that the surface belongs to.
    pub fn slot(&self) -> (r: usize)
        ensures
            r == self.slot_spec(),
    {
        self.slot
    }

    /// The surface on loan.
    pub fn surface(&self) -> (r: &T)
        ensures
            *r == self.surface_spec(),
    {
        &self.surface
    }

    /// The surface on loan, to draw on.
    pub fn surface_mut(&mut self) -> (r: &mut T)
        ensures
            *r == old(self).surface_spec(),
            final(self).surface_spec() == *final(r),
            final(self).slot_spec() == old(self).slot_spec(),
    {
        &mut self.surface
    }
}

impl<T, A: Fn(ScreenSize, u32) -> Option<T>, C: Fn(T) -> T> Layers<T, A, C> {
    /// Whether the pool is in order: it counts what is on loan, and its two
    /// capabilities can be called.
    pub closed spec fn wf(self) -> bool {
        &&& self.outstanding == count_lent(self.d@)
        &&& call_requires(self.new_img_fn, (self.img_size, self.dpi))
        &&& forall|t: T| call_requires(self.clear_img_fn, (t,))
    }

    /// The slots of the pool, in the order in which their surfaces were
    /// pushed; a slot on loan holds nothing.
    pub closed spec fn slots(self) -> Seq<Option<T>> {
        self.d@
    }

    /// The number of surfaces on loan.
    pub closed spec fn outstanding_spec(self) -> nat {
        self.outstanding as nat
    }

    /// The size that every surface of the pool has.
    pub closed spec fn size_spec(self) -> ScreenSize {
        self.img_size
    }

    /// The resolution that every surface of the pool has.
    pub closed spec fn dpi_spec(self) -> u32 {
        self.dpi
    }

    /// The capability that allocates a surface.
    pub closed spec fn allocator(self) -> A {
        self.new_img_fn
    }

    /// The capability that clears a surface.
    pub closed spec fn cleaner(self) -> C {
        self.clear_img_fn
    }

    /// A pool without surfaces, for surfaces of one size and resolution.
    pub fn new(img_size: ScreenSize, dpi: u32, new_img_fn: A, clear_img_fn: C) -> (r: Self)
        requires
            call_requires(new_img_fn, (img_size, dpi)),
            forall|t: T| call_requires(clear_img_fn, (t,)),
        ensures
            r.wf(),
            r.slots() == Seq::<Option<T>>::empty(),
            r.outstanding_spec() == 0,
            r.size_spec() == img_size,
            r.dpi_spec() == dpi,
            r.allocator() == new_img_fn,
            r.cleaner() == clear_img_fn,
    {
        Layers { d: Vec::new(), outstanding: 0, img_size, dpi, new_img_fn, clear_img_fn }
    }

    /// The size that every surface of the pool has.
    pub fn image_size(&self) -> (r: ScreenSize)
        ensures
            r == self.size_spec(),
    {
        self.img_size
    }

    /// The number of surfaces that the pool owns.
    pub fn len(&self) -> (r: usize)
        ensures
            r == self.slots().len(),
    {
        self.d.len()
    }

    /// The number of surfaces on loan.
    pub fn outstanding(&self) -> (r: usize)
        requires
            self.wf(),
        ensures
            r == self.outstanding_spec(),
            r == count_lent(self.slots()),
    {
        self.outstanding
    }

    fn first_idle(&self) -> (r: Option<usize>)
        ensures
            match r {
                Some(i) => is_first_idle(self.slots(), i as int),
                None => all_lent(self.slots()),
            },
    {
        let mut i: usize = 0;
        while i < self.d.len()
            invariant
                i <= self.d.len(),
                forall|k: int| 0 <= k < i ==> (#[trigger] self.d@[k]) is None,
            decreases self.d.len() - i,
        {
            if self.d[i].is_some() {
                return Some(i);
            }
            i += 1;
        }
        None
    }

    /// Hands out a surface to draw on: the first idle one, cleared; or,
    /// where every surface is on loan, a new one.
    ///
    /// Nothing is returned only where every surface is on loan and no new
    /// one can be allocated; the pool is then as it was.
    pub fn get(&mut self) -> (r: Option<Layer<T>>)
        requires
            old(self).wf(),
        ensures
            final(self).wf(),
            final(self).size_spec() == old(self).size_spec(),
            final(self).dpi_spec() == old(self).dpi_spec(),
            final(self).allocator() == old(self).allocator(),
            final(self).cleaner() == old(self).cleaner(),
            final(self).outstanding_spec() == count_lent(final(self).slots()),
            r matches Some(layer) ==> layer.slot_spec() == next_slot(old(self).slots())
                && final(self).slots() == after_loan(old(self).slots()),
            match r {
                Some(layer) => if all_lent(old(self).slots()) {
                    &&& layer.slot_spec() == old(self).slots().len()
                    &&& final(self).slots() == old(self).slots().push(None)
                    &&& call_ensures(
                        old(self).allocator(),
                        (old(self).size_spec(), old(self).dpi_spec()),
                        Some(layer.surface_spec()),
                    )
                } else {
                    &&& is_first_idle(old(self).slots(), layer.slot_spec() as int)
                    &&& final(self).slots() == old(self).slots().update(
                        layer.slot_spec() as int,
                        None,
                    )
                    &&& call_ensures(
                        old(self).cleaner(),
                        (old(self).slots()[layer.slot_spec() as int].unwrap(),),
                        layer.surface_spec(),
                    )
                },
                None => {
                    &&& all_lent(old(self).slots())
                    &&& final(self).slots() == old(self).slots()
                    &&& call_ensures(
                        old(self).allocator(),
                        (old(self).size_spec(), old(self).dpi_spec()),
                        None::<T>,
                    )
                },
            },
    {
        proof {
            count_lent_bounds(self.d@);
            next_slot_is_first_idle(self.d@);
        }
        match self.first_idle() {
            None => {
                match (self.new_img_fn)(self.img_size, self.dpi) {
                    Some(img) => {
                        proof {
                            count_lent_push(self.d@, None);
                        }
                        let slot = self.d.len();
                        self.d.push(None);
                        // Every slot is on loan, the new one too.
                        self.outstanding = self.d.len();
                        Some(Layer { slot, surface: img })
                    },
                    None => None,
                }
            },
            Some(slot) => {
                let total = self.d.len();
                proof {
                    assert(self.d@[slot as int] is Some);
                    assert(!all_lent(self.d@));
                    count_lent_update(self.d@, slot as int, None);
                }
                assert(self.outstanding < total);
                let stale = self.d[slot].take();
                self.outstanding = self.outstanding + 1;
                let surface = (self.clear_img_fn)(stale.unwrap());
                Some(Layer { slot, surface })
            },
        }
    }

    /// Takes a surface back. A surface is cleared when it is handed out
    /// again, not now: the slot keeps it as it comes.
    ///
    /// A layer whose slot is not on loan from this pool is handed back
    /// and the pool is as it was.
    pub fn release(&mut self, layer: Layer<T>) -> (r: Result<(), Layer<T>>)
        requires
            old(self).wf(),
        ensures
            final(self).wf(),
            final(self).size_spec() == old(self).size_spec(),
            final(self).dpi_spec() == old(self).dpi_spec(),
            final(self).allocator() == old(self).allocator(),
            final(self).cleaner() == old(self).cleaner(),
            final(self).outstanding_spec() == count_lent(final(self).slots()),
            if layer.slot_spec() < old(self).slots().len() && old(self).slots()[layer.slot_spec() as int] is None {
                &&& r is Ok
                &&& final(self).slots() == after_return(
                    old(self).slots(),
                    layer.slot_spec() as int,
                    layer.surface_spec(),
                )
                &&& final(self).outstanding_spec() == old(self).outstanding_spec() - 1
            } else {
                &&& r == Err::<(), Layer<T>>(layer)
                &&& final(self).slots() == old(self).slots()
            },
    {
        proof {
            count_lent_bounds(self.d@);
        }
        if layer.slot < self.d.len() && self.d[layer.slot].is_none() {
            let Layer { slot, surface } = layer;
            proof {
                count_lent_update(self.d@, slot as int, Some(surface));
            }
            self.d[slot] = Some(surface);
            self.outstanding = self.outstanding - 1;
            Ok(())
        } else {
            Err(layer)
        }
    }

    /// Gives the pool up. Every surface must have come back.
    pub fn destroy(self)
        requires
            self.wf(),
            self.outstanding_spec() == 0,
    {
    }

    /// Gives the pool up where every surface has come back; where one is
    /// still on loan, the pool is handed back as it is.
    pub fn try_destroy(self) -> (r: Result<(), Self>)
        requires
            self.wf(),
        ensures
            r is Ok <==> count_lent(self.slots()) == 0,
            r matches Err(pool) ==> pool == self,
    {
        if self.outstanding == 0 {
            self.destroy();
            Ok(())
        } else {
            Err(self)
        }
    }
}

} // verus!
