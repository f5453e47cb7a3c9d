//! Storage primitive: an arena of field slots with stable addresses.
//!
//! A slot's address is its index.  Slots are only ever appended, never
//! removed, so an address handed out once refers to the same slot for the
//! rest of the arena's life — the pinning contract of the protocol.

use vstd::prelude::*;

verus! {

/// The lifecycle of one field slot.
///
/// A slot is reserved (`Vacant`) before anything is written into it, may be
/// marked with the deferred placeholder (`Absent`), and carries a readable
/// value once written (`Present`).  A slot never returns to an earlier state.
pub enum FieldState<T> {
    /// Reserved storage into which nothing has been written yet.
    Vacant,
    /// The placeholder of a deferred field: written during primary
    /// construction, replaced exactly once by a real value.
    Absent,
    /// An ordinary, readable field value.
    Present(T),
}

/// Storage for composite objects.  The address of a slot is its index and is
/// fixed from reservation on; no operation relocates a slot.
pub struct Arena<T> {
    slots: Vec<FieldState<T>>,
    writes: Ghost<nat>,
}

impl<T> View for Arena<T> {
    type V = Seq<FieldState<T>>;

    closed spec fn view(&self) -> Seq<FieldState<T>> {
        self.slots@
    }
}

impl<T> Arena<T> {
    /// How many raw slot writes have been performed, over the arena's whole
    /// life.  Reservation and reads do not count; every write of a value or
    /// of the deferred placeholder counts once.
    pub closed spec fn write_count(self) -> nat {
        self.writes@
    }

    /// `a` is the address of a reserved slot.
    pub open spec fn valid_addr(self, a: int) -> bool {
        0 <= a < self@.len()
    }

    /// The slot at `a` is reserved but nothing has been written into it.
    pub open spec fn is_vacant(self, a: int) -> bool {
        self.valid_addr(a) && self@[a] is Vacant
    }

    /// The slot at `a` holds the deferred placeholder.
    pub open spec fn is_absent(self, a: int) -> bool {
        self.valid_addr(a) && self@[a] is Absent
    }

    /// The slot at `a` holds a readable value.
    pub open spec fn is_present(self, a: int) -> bool {
        self.valid_addr(a) && self@[a] is Present
    }

    /// The value held by the slot at `a` (meaningful when `is_present(a)`).
    pub open spec fn value_at(self, a: int) -> T {
        self@[a]->Present_0
    }

    /// An empty arena.
    pub fn new() -> (a: Arena<T>)
        ensures
            a@.len() == 0,
            a.write_count() == 0,
    {
        Arena { slots: Vec::new(), writes: Ghost(0) }
    }

    /// The number of reserved slots.
    pub fn len(&self) -> (n: usize)
        ensures
            n == self@.len(),
    {
        self.slots.len()
    }

    /// Appends one freshly reserved slot; internal to the reservation
    /// operation of the protocol.
    pub(crate) fn push_vacant(&mut self)
        ensures
            final(self)@ == old(self)@.push(FieldState::Vacant),
            final(self).write_count() == old(self).write_count(),
    {
        self.slots.push(FieldState::Vacant);
    }

    /// Raw write access into a slot, regardless of its current state.  This
    /// is the storage primitive of the protocol and is deliberately not part
    /// of the public surface: all public writes go through the construction
    /// and deferred-resolution operations, which add the state preconditions.
    pub(crate) fn write_at(&mut self, addr: usize, value: T)
        requires
            old(self).valid_addr(addr as int),
        ensures
            final(self)@ == old(self)@.update(addr as int, FieldState::Present(value)),
            final(self).write_count() == old(self).write_count() + 1,
    {
        let r = &mut self.slots[addr];
        *r = FieldState::Present(value);
        self.writes = Ghost(self.writes@ + 1);
    }

    /// Raw write of the deferred placeholder; internal for the same reason as
    /// `write_at`.
    pub(crate) fn mark_at(&mut self, addr: usize)
        requires
            old(self).valid_addr(addr as int),
        ensures
            final(self)@ == old(self)@.update(addr as int, FieldState::Absent),
            final(self).write_count() == old(self).write_count() + 1,
    {
        let r = &mut self.slots[addr];
        *r = FieldState::Absent;
        self.writes = Ghost(self.writes@ + 1);
    }

    /// Reads the field stored at `addr` — dereferencing a stored address.
    pub fn at_address(&self, addr: usize) -> (r: &T)
        requires
            self.is_present(addr as int),
        ensures
            *r == self.value_at(addr as int),
    {
        match &self.slots[addr] {
            FieldState::Present(v) => v,
            _ => vstd::pervasive::unreached(),
        }
    }

    /// Mutable access, in place, to the field stored at `addr`.  The slot
    /// itself never moves and stays `Present`; only its contents change, and
    /// no raw slot write is performed.
    pub fn at_address_mut(&mut self, addr: usize) -> (r: &mut T)
        requires
            old(self).is_present(addr as int),
        ensures
            *r == old(self).value_at(addr as int),
            final(self)@ == old(self)@.update(addr as int, FieldState::Present(*final(r))),
            final(self).write_count() == old(self).write_count(),
    {
        let slot = &mut self.slots[addr];
        match slot {
            FieldState::Present(v) => v,
            _ => vstd::pervasive::unreached(),
        }
    }

    /// Whether the slot at `addr` still holds the deferred placeholder.
    pub fn slot_is_deferred(&self, addr: usize) -> (r: bool)
        requires
            self.valid_addr(addr as int),
        ensures
            r == self.is_absent(addr as int),
    {
        match &self.slots[addr] {
            FieldState::Absent => true,
            _ => false,
        }
    }

    /// Whether the slot at `addr` holds a readable value.
    pub fn slot_is_initialized(&self, addr: usize) -> (r: bool)
        requires
            self.valid_addr(addr as int),
        ensures
            r == self.is_present(addr as int),
    {
        match &self.slots[addr] {
            FieldState::Present(_) => true,
            _ => false,
        }
    }
}

/// How an arena may change under any operation of the protocol: addresses
/// are only ever added, a readable field stays readable, and a deferred
/// placeholder either stays or is resolved — it never reverts to vacant.
pub open spec fn evolution<T>(pre: Arena<T>, post: Arena<T>) -> bool {
    &&& pre@.len() <= post@.len()
    &&& forall|a: int| #[trigger] pre.is_present(a) ==> post.is_present(a)
    &&& forall|a: int| #[trigger] pre.is_absent(a) ==> post.is_absent(a) || post.is_present(a)
}

/// Every arena evolves to itself.
pub proof fn lemma_evolution_reflexive<T>(a: Arena<T>)
    ensures
        evolution(a, a),
{
}

/// Writing a value into a slot preserves the evolution relation.
pub proof fn lemma_update_to_present_evolution<T>(pre: Arena<T>, post: Arena<T>, a: int, v: T)
    requires
        pre.valid_addr(a),
        post@ == pre@.update(a, FieldState::Present(v)),
    ensures
        evolution(pre, post),
{
    assert forall|b: int| #[trigger] pre.is_present(b) implies post.is_present(b) by {
        if b != a {
            assert(post@[b] == pre@[b]);
        }
    }
    assert forall|b: int| #[trigger] pre.is_absent(b) implies post.is_absent(b)
        || post.is_present(b) by {
        if b != a {
            assert(post@[b] == pre@[b]);
        }
    }
}

/// Overwriting a vacant slot — with a value or with the placeholder —
/// preserves the evolution relation.
pub proof fn lemma_update_vacant_evolution<T>(pre: Arena<T>, post: Arena<T>, a: int, s: FieldState<T>)
    requires
        pre.is_vacant(a),
        post@ == pre@.update(a, s),
    ensures
        evolution(pre, post),
{
    assert forall|b: int| #[trigger] pre.is_present(b) implies post.is_present(b) by {
        if b != a {
            assert(post@[b] == pre@[b]);
        }
    }
    assert forall|b: int| #[trigger] pre.is_absent(b) implies post.is_absent(b)
        || post.is_present(b) by {
        if b != a {
            assert(post@[b] == pre@[b]);
        }
    }
}

} // verus!
