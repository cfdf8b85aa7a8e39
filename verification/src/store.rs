//! Entity storage: a dense sequence and a tombstoned arena with stable slots.

use core::marker::PhantomData;
use vstd::prelude::*;

verus! {

/// A slot number in a container of `E`.
///
/// The number carries no generation: once the entity in a slot of a
/// [`StableList`] is removed, a later insertion may put another entity under
/// the same number.
#[derive(Debug, PartialEq, Eq)]
pub struct Idx<E> {
    pub slot: usize,
    pub kind: PhantomData<E>,
}

impl<E> Idx<E> {
    /// The index of slot `slot`.
    pub fn new(slot: usize) -> (idx: Self)
        ensures
            idx.slot == slot,
    {
        Idx { slot, kind: PhantomData }
    }

    /// The slot number.
    pub fn get(&self) -> (slot: usize)
        ensures
            slot == self.slot,
    {
        self.slot
    }
}

impl<E> Clone for Idx<E> {
    fn clone(&self) -> (copy: Self)
        ensures
            copy == *self,
    {
        Idx { slot: self.slot, kind: PhantomData }
    }
}

impl<E> Copy for Idx<E> {}

/// A dense sequence that only grows at its end.
pub struct ElementList<E> {
    list: Vec<E>,
}

impl<E> View for ElementList<E> {
    type V = Seq<E>;

    closed spec fn view(&self) -> Seq<E> {
        self.list@
    }
}

impl<E> ElementList<E> {
    /// The list that holds the elements of `list`, in their order.
    pub fn from_vec(list: Vec<E>) -> (out: Self)
        ensures
            out@ == list@,
    {
        ElementList { list }
    }

    /// The number of elements.
    pub fn len(&self) -> (n: usize)
        ensures
            n == self@.len(),
    {
        self.list.len()
    }

    /// Appends `value` and returns its index.
    pub fn push(&mut self, value: E) -> (idx: Idx<E>)
        ensures
            idx.slot == old(self)@.len(),
            final(self)@ == old(self)@.push(value),
    {
        let slot: usize = self.list.len();
        self.list.push(value);
        Idx::new(slot)
    }

    /// The element at `idx`.
    pub fn get(&self, idx: Idx<E>) -> (element: &E)
        requires
            idx.slot < self@.len(),
        ensures
            *element == self@[idx.slot as int],
    {
        &self.list[idx.slot]
    }
}

/// The first vacant slot of `slots`, or their number if every slot is taken.
pub open spec fn vacancy<E>(slots: Seq<Option<E>>) -> nat
    decreases slots.len(),
{
    if slots.len() == 0 || slots[0] is None {
        0
    } else {
        1 + vacancy(slots.drop_first())
    }
}

/// `slots` after `value` went into the first vacant slot, or to the end if
/// there is none.
pub open spec fn pushed<E>(slots: Seq<Option<E>>, value: E) -> Seq<Option<E>> {
    if vacancy(slots) < slots.len() {
        slots.update(vacancy(slots) as int, Some(value))
    } else {
        slots.push(Some(value))
    }
}

/// `slots` with vacant slots added at the end until there are `len` of them;
/// `slots` itself where it has that many already.
pub open spec fn padded<E>(slots: Seq<Option<E>>, len: nat) -> Seq<Option<E>> {
    if slots.len() >= len {
        slots
    } else {
        slots + Seq::new((len - slots.len()) as nat, |i: int| None::<E>)
    }
}

/// `vacancy` is the least vacant position: everything before it is taken, and
/// it is vacant itself unless it is the length.
pub proof fn lemma_vacancy<E>(slots: Seq<Option<E>>)
    ensures
        vacancy(slots) <= slots.len(),
        forall|i: int| 0 <= i < vacancy(slots) ==> (#[trigger] slots[i]) is Some,
        vacancy(slots) < slots.len() ==> slots[vacancy(slots) as int] is None,
    decreases slots.len(),
{
    if slots.len() == 0 || slots[0] is None {
    } else {
        let rest = slots.drop_first();
        lemma_vacancy(rest);
        assert forall|i: int| 0 <= i < vacancy(slots) implies (#[trigger] slots[i]) is Some by {
            if i > 0 {
                assert(slots[i] == rest[i - 1]);
            }
        }
        if vacancy(slots) < slots.len() {
            assert(slots[vacancy(slots) as int] == rest[vacancy(rest) as int]);
        }
    }
}

/// An insertion after a removal does not grow the arena: it goes into the
/// slot that the removal vacated, or into a vacant slot before it where there
/// is one.
pub proof fn lemma_push_reuses_removed<E>(slots: Seq<Option<E>>, slot: int, value: E)
    requires
        0 <= slot < slots.len(),
    ensures
        vacancy(slots.update(slot, None)) <= slot,
        pushed(slots.update(slot, None), value).len() == slots.len(),
        (forall|i: int| 0 <= i < slot ==> (#[trigger] slots[i]) is Some) ==> {
            &&& vacancy(slots.update(slot, None)) == slot
            &&& pushed(slots.update(slot, None), value) == slots.update(slot, Some(value))
        },
{
    let vacated = slots.update(slot, None);
    lemma_vacancy(vacated);
    if vacancy(vacated) > slot {
        assert(vacated[slot] is Some);
    }
    if forall|i: int| 0 <= i < slot ==> (#[trigger] slots[i]) is Some {
        lemma_vacancy_is(vacated, slot);
        assert(vacated.update(slot, Some(value)) =~= slots.update(slot, Some(value)));
    }
}

/// Removing from a vacant slot changes nothing.
pub proof fn lemma_remove_vacant<E>(slots: Seq<Option<E>>, slot: int)
    requires
        0 <= slot < slots.len(),
        slots[slot] is None,
    ensures
        slots.update(slot, None) == slots,
{
    assert(slots.update(slot, None) =~= slots);
}

/// An arena whose slots keep their numbers: removal leaves a tombstone, and
/// insertion fills the first tombstone before the arena grows.
pub struct StableList<E> {
    list: Vec<Option<E>>,
}

impl<E> View for StableList<E> {
    type V = Seq<Option<E>>;

    closed spec fn view(&self) -> Seq<Option<E>> {
        self.list@
    }
}

impl<E> StableList<E> {
    /// The arena with the slots of `list`, in their order.
    pub fn from_vec(list: Vec<Option<E>>) -> (out: Self)
        ensures
            out@ == list@,
    {
        StableList { list }
    }

    /// The number of slots, vacant ones included.
    pub fn len(&self) -> (n: usize)
        ensures
            n == self@.len(),
    {
        self.list.len()
    }

    /// Puts `value` into the first vacant slot, or into a new last slot if
    /// none is vacant, and returns the slot.
    pub fn push(&mut self, value: E) -> (idx: Idx<E>)
        ensures
            idx.slot == vacancy(old(self)@),
            final(self)@ == pushed(old(self)@, value),
    {
        let n: usize = self.list.len();
        let mut i: usize = 0;
        while i < n && self.list[i].is_some()
            invariant
                n == self.list@.len(),
                self.list@ == old(self).list@,
                i <= n,
                forall|j: int| 0 <= j < i ==> (#[trigger] self.list@[j]) is Some,
            decreases n - i,
        {
            i = i + 1;
        }
        proof {
            lemma_vacancy_is(self.list@, i as int);
        }
        if i < n {
            self.list[i] = Some(value);
        } else {
            self.list.push(Some(value));
        }
        Idx::new(i)
    }

    /// Empties slot `idx` and returns what it held.
    pub fn remove(&mut self, idx: &Idx<E>) -> (removed: Option<E>)
        requires
            idx.slot < old(self)@.len(),
        ensures
            removed == old(self)@[idx.slot as int],
            final(self)@ == old(self)@.update(idx.slot as int, None),
    {
        let mut taken: Option<E> = None;
        core::mem::swap(&mut self.list[idx.slot], &mut taken);
        taken
    }

    /// Adds vacant slots at the end until the arena has `len` slots.
    pub fn grow_to(&mut self, len: usize)
        ensures
            final(self)@ == padded(old(self)@, len as nat),
    {
        while self.list.len() < len
            invariant
                self.list@.len() <= len || self.list@ == old(self).list@,
                self.list@ =~= old(self).list@ + Seq::new(
                    (self.list@.len() - old(self).list@.len()) as nat,
                    |i: int| None::<E>,
                ),
                self.list@.len() >= old(self).list@.len(),
            decreases len - self.list@.len(),
        {
            self.list.push(None);
        }
        assert(self.list@ =~= padded(old(self).list@, len as nat));
    }

    /// What slot `idx` holds.
    pub fn get(&self, idx: Idx<E>) -> (entry: &Option<E>)
        requires
            idx.slot < self@.len(),
        ensures
            *entry == self@[idx.slot as int],
    {
        &self.list[idx.slot]
    }

    /// Overwrites slot `idx` with `entry`.
    pub fn set(&mut self, idx: Idx<E>, entry: Option<E>)
        requires
            idx.slot < old(self)@.len(),
        ensures
            final(self)@ == old(self)@.update(idx.slot as int, entry),
    {
        self.list[idx.slot] = entry;
    }
}

/// A position that is vacant, with every position before it taken, is the
/// vacancy.
pub proof fn lemma_vacancy_is<E>(slots: Seq<Option<E>>, at: int)
    requires
        0 <= at <= slots.len(),
        forall|i: int| 0 <= i < at ==> (#[trigger] slots[i]) is Some,
        at < slots.len() ==> slots[at] is None,
    ensures
        vacancy(slots) == at,
{
    lemma_vacancy(slots);
    let v = vacancy(slots) as int;
    if v < at {
        assert(slots[v] is Some);
    } else if at < v {
        assert(slots[at] is Some);
    }
}

} // verus!
