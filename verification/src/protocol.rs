//! The construction protocol: reservation, in-place field writes, and the
//! pinned handle that construction yields.
//!
//! A composite object occupies a contiguous block of slots, one per field;
//! the block's base address is fixed at reservation, before any field is
//! written, so field addresses may be stored inside the object itself.

use core::marker::PhantomData;
use vstd::prelude::*;

use crate::arena::{Arena, FieldState, evolution, lemma_update_to_present_evolution};

verus! {

/// A reserved, not yet initialized composite: a block of `total` contiguous
/// slots starting at `base`, of which the first `filled` have been consumed
/// by field writes or nested views.  The handle is linear — construction
/// consumes it — so a block is never initialized twice.
pub struct UninitSlot<T> {
    base: usize,
    total: usize,
    filled: usize,
    marker: PhantomData<T>,
}

impl<T> UninitSlot<T> {
    /// The address of the object: its first field's slot.
    pub closed spec fn base(self) -> int {
        self.base as int
    }

    /// The number of fields the object will have.
    pub closed spec fn total(self) -> int {
        self.total as int
    }

    /// How many fields have already been consumed, in program order.
    pub closed spec fn filled(self) -> int {
        self.filled as int
    }

    /// The handle's addresses all fit in a machine word and the cursor has
    /// not run past the block.
    pub open spec fn bounded(self) -> bool {
        &&& self.base() + self.total() <= usize::MAX
        &&& 0 <= self.filled() <= self.total()
    }

    /// The address of field `i`.
    pub open spec fn field_addr(self, i: int) -> int {
        self.base() + i
    }

    /// The address the next field write will fill.
    pub open spec fn next_addr(self) -> int {
        self.base() + self.filled()
    }

    /// The whole block lies inside the arena.
    pub open spec fn in_arena(self, a: Arena<T>) -> bool {
        self.base() + self.total() <= a@.len()
    }

    /// The address of field `i`, available before any field is written:
    /// this is what lets a field value reference a sibling or the object
    /// itself.
    pub fn field_address(&self, i: usize) -> (r: usize)
        requires
            self.bounded(),
            i < self.total(),
        ensures
            r == self.field_addr(i as int),
    {
        self.base + i
    }

    /// Consumes the next field of the block and returns its address;
    /// internal to the operations that write one field.
    pub(crate) fn advance(&mut self) -> (addr: usize)
        requires
            old(self).bounded(),
            old(self).filled() < old(self).total(),
        ensures
            addr == old(self).next_addr(),
            final(self).base() == old(self).base(),
            final(self).total() == old(self).total(),
            final(self).filled() == old(self).filled() + 1,
            final(self).bounded(),
    {
        let addr = self.base + self.filled;
        self.filled = self.filled + 1;
        addr
    }

    /// Narrows this handle to the next `k` fields, which form a nested
    /// immovable sub-object: the sub-handle has the same storage, base
    /// address `next_addr()`, and its own construction runs on it exactly as
    /// on a standalone reservation.  The cursor advances past the nested
    /// region, so the view is taken at most once per field.
    pub fn nested_field_view(&mut self, k: usize) -> (s: UninitSlot<T>)
        requires
            old(self).bounded(),
            old(self).filled() + k <= old(self).total(),
        ensures
            s.base() == old(self).next_addr(),
            s.total() == k,
            s.filled() == 0,
            s.bounded(),
            final(self).base() == old(self).base(),
            final(self).total() == old(self).total(),
            final(self).filled() == old(self).filled() + k,
            final(self).bounded(),
    {
        let s = UninitSlot {
            base: self.base + self.filled,
            total: k,
            filled: 0,
            marker: PhantomData,
        };
        self.filled = self.filled + k;
        s
    }
}

/// A pinned handle to a fully constructed composite: every slot of the block
/// has been written (with a value or with the deferred placeholder), and the
/// block's address is stable for the rest of the arena's life.  Accessors
/// only ever read or mutate fields in place; no operation relocates the
/// object or any of its fields.
pub struct PinnedRef<T> {
    base: usize,
    total: usize,
    marker: PhantomData<T>,
}

impl<T> PinnedRef<T> {
    /// The address of the object: its first field's slot.
    pub closed spec fn base(self) -> int {
        self.base as int
    }

    /// The number of fields of the object.
    pub closed spec fn total(self) -> int {
        self.total as int
    }

    /// All field addresses fit in a machine word.
    pub open spec fn bounded(self) -> bool {
        self.base() + self.total() <= usize::MAX
    }

    /// The address of field `i`.
    pub open spec fn field_addr(self, i: int) -> int {
        self.base() + i
    }

    /// The handle refers to a constructed object in `a`: the block lies
    /// inside the arena and every field has been written — it holds a value
    /// or still awaits its deferred resolution.
    pub open spec fn wf(self, a: Arena<T>) -> bool {
        &&& self.bounded()
        &&& self.base() + self.total() <= a@.len()
        &&& forall|j: int|
            self.base() <= j < self.base() + self.total() ==> a.is_present(j) || a.is_absent(j)
    }

    /// The address of field `i`.  A pure function of the handle, so any two
    /// calls on the same handle return the same address.
    pub fn field_address(&self, i: usize) -> (r: usize)
        requires
            self.bounded(),
            i < self.total(),
        ensures
            r == self.field_addr(i as int),
    {
        self.base + i
    }

    /// The number of fields.
    pub fn field_count(&self) -> (n: usize)
        ensures
            n == self.total(),
    {
        self.total
    }

    /// The pinned projection onto a nested sub-object: fields
    /// `offset .. offset + k` seen as an object of their own, at the same
    /// storage.  Only a handle is returned — a pinned field can never be
    /// replaced wholesale, only mutated in place through its own accessors.
    pub fn sub_object(&self, offset: usize, k: usize) -> (s: PinnedRef<T>)
        requires
            self.bounded(),
            offset + k <= self.total(),
        ensures
            s.base() == self.base() + offset,
            s.total() == k,
            s.bounded(),
    {
        PinnedRef { base: self.base + offset, total: k, marker: PhantomData }
    }
}

impl<T> Arena<T> {
    /// Reserves storage for an object of `n` fields and yields the
    /// uninitialized handle to it.  The object's address — and so every
    /// field's address — is fixed here, before any field is written.
    pub fn reserve(&mut self, n: usize) -> (c: UninitSlot<T>)
        requires
            old(self)@.len() + n <= usize::MAX,
        ensures
            c.base() == old(self)@.len(),
            c.total() == n,
            c.filled() == 0,
            c.bounded(),
            c.in_arena(*final(self)),
            final(self)@.len() == old(self)@.len() + n,
            forall|a: int| 0 <= a < old(self)@.len() ==> final(self)@[a] == old(self)@[a],
            forall|a: int|
                old(self)@.len() <= a < final(self)@.len() ==> final(self).is_vacant(a),
            final(self).write_count() == old(self).write_count(),
            evolution(*old(self), *final(self)),
    {
        let base = self.len();
        let mut i: usize = 0;
        while i < n
            invariant
                i <= n,
                base == old(self)@.len(),
                base + n <= usize::MAX,
                self@.len() == base + i,
                forall|a: int| 0 <= a < base ==> self@[a] == old(self)@[a],
                forall|a: int| base <= a < base + i ==> self@[a] is Vacant,
                self.write_count() == old(self).write_count(),
            decreases n - i,
        {
            self.push_vacant();
            i = i + 1;
        }
        proof {
            assert forall|a: int| #[trigger] old(self).is_present(a) implies self.is_present(
                a,
            ) by {
                assert(self@[a] == old(self)@[a]);
            }
            assert forall|a: int| #[trigger] old(self).is_absent(a) implies self.is_absent(a)
                || self.is_present(a) by {
                assert(self@[a] == old(self)@[a]);
            }
        }
        UninitSlot { base, total: n, filled: 0, marker: PhantomData }
    }

    /// Writes the next field of the object under construction, directly into
    /// its final slot — the value is never staged in a temporary the
    /// protocol would copy from.
    pub fn write_field(&mut self, c: &mut UninitSlot<T>, value: T)
        requires
            old(c).bounded(),
            old(c).filled() < old(c).total(),
            old(c).in_arena(*old(self)),
            old(self).is_vacant(old(c).next_addr()),
        ensures
            final(c).base() == old(c).base(),
            final(c).total() == old(c).total(),
            final(c).filled() == old(c).filled() + 1,
            final(c).bounded(),
            final(self)@ == old(self)@.update(
                old(c).next_addr(),
                FieldState::Present(value),
            ),
            final(self)@.len() == old(self)@.len(),
            final(self).write_count() == old(self).write_count() + 1,
            evolution(*old(self), *final(self)),
    {
        let addr = c.base + c.filled;
        self.write_at(addr, value);
        c.filled = c.filled + 1;
        proof {
            lemma_update_to_present_evolution(*old(self), *self, old(c).next_addr(), value);
        }
    }

    /// Ends construction: consumes the uninitialized handle, whose every
    /// field has been written, and returns the pinned handle to the same
    /// address.
    pub fn finish(&self, c: UninitSlot<T>) -> (h: PinnedRef<T>)
        requires
            c.bounded(),
            c.filled() == c.total(),
            c.in_arena(*self),
            forall|j: int|
                c.base() <= j < c.base() + c.total() ==> self.is_present(j) || self.is_absent(j),
        ensures
            h.base() == c.base(),
            h.total() == c.total(),
            h.bounded(),
            h.wf(*self),
    {
        PinnedRef { base: c.base, total: c.total, marker: PhantomData }
    }

    /// The construction protocol in one call: consumes the uninitialized
    /// handle and the field values, writes every field in place in program
    /// order, and returns the pinned handle to the same address.  Exactly
    /// one raw write is performed per field, and none afterwards.
    pub fn construct(&mut self, c: UninitSlot<T>, values: Vec<T>) -> (h: PinnedRef<T>)
        requires
            c.bounded(),
            c.filled() == 0,
            c.in_arena(*old(self)),
            values@.len() == c.total(),
            forall|j: int|
                c.base() <= j < c.base() + c.total() ==> old(self).is_vacant(j),
        ensures
            h.base() == c.base(),
            h.total() == c.total(),
            h.bounded(),
            h.wf(*final(self)),
            final(self)@.len() == old(self)@.len(),
            forall|a: int|
                c.base() <= a < c.base() + c.total() ==> final(self).is_present(a)
                    && final(self).value_at(a) == values@[a - c.base()],
            forall|a: int|
                0 <= a < old(self)@.len() && !(c.base() <= a < c.base() + c.total())
                    ==> final(self)@[a] == old(self)@[a],
            final(self).write_count() == old(self).write_count() + c.total(),
            evolution(*old(self), *final(self)),
    {
        let ghost args: Seq<T> = values@;
        let ghost base0: int = c.base();
        let mut c = c;
        let mut values = values;
        let n = c.total;
        proof {
            assert(args.skip(0) =~= args);
        }
        while c.filled < n
            invariant
                c.bounded(),
                c.base() == base0,
                c.total() == n,
                0 <= c.filled() <= n,
                c.base() + n <= self@.len(),
                values@ == args.skip(c.filled()),
                args.len() == n,
                self@.len() == old(self)@.len(),
                forall|a: int|
                    base0 <= a < base0 + c.filled() ==> self.is_present(a)
                        && self.value_at(a) == args[a - base0],
                forall|a: int| base0 + c.filled() <= a < base0 + n ==> self.is_vacant(a),
                forall|a: int|
                    0 <= a < self@.len() && !(c.base() <= a < c.base() + c.filled())
                        ==> self@[a] == old(self)@[a],
                self.write_count() == old(self).write_count() + c.filled(),
            decreases n - c.filled,
        {
            let v = values.remove(0);
            let ghost fl: int = c.filled();
            let ghost prev: Arena<T> = *self;
            assert(v == args[fl]);
            self.write_field(&mut c, v);
            assert(values@ =~= args.skip(c.filled()));
            proof {
                assert forall|a: int|
                    base0 <= a < base0 + c.filled() implies self.is_present(a)
                        && self.value_at(a) == args[a - base0] by {
                    if a == base0 + fl {
                        assert(self@[a] == FieldState::Present(v));
                    } else {
                        assert(prev.is_present(a) && prev.value_at(a) == args[a - base0]);
                        assert(self@[a] == prev@[a]);
                    }
                }
                assert forall|a: int|
                    base0 + c.filled() <= a < base0 + n implies self.is_vacant(a) by {
                    assert(prev.is_vacant(a));
                    assert(self@[a] == prev@[a]);
                }
                assert forall|a: int|
                    0 <= a < self@.len() && !(base0 <= a < base0 + c.filled())
                        implies self@[a] == old(self)@[a] by {
                    assert(self@[a] == prev@[a]);
                }
            }
        }
        proof {
            assert forall|a: int| #[trigger] old(self).is_present(a) implies self.is_present(
                a,
            ) by {
                if base0 <= a < base0 + n {
                    assert(old(self).is_vacant(a));
                } else {
                    assert(self@[a] == old(self)@[a]);
                }
            }
            assert forall|a: int| #[trigger] old(self).is_absent(a) implies self.is_absent(a)
                || self.is_present(a) by {
                if base0 <= a < base0 + n {
                    assert(old(self).is_vacant(a));
                } else {
                    assert(self@[a] == old(self)@[a]);
                }
            }
        }
        self.finish(c)
    }

    /// Reads field `i` of a constructed object.
    pub fn field_accessor(&self, h: &PinnedRef<T>, i: usize) -> (r: &T)
        requires
            h.wf(*self),
            i < h.total(),
            self.is_present(h.field_addr(i as int)),
        ensures
            *r == self.value_at(h.field_addr(i as int)),
    {
        self.at_address(h.base + i)
    }

    /// Mutable, in-place access to field `i` of a constructed object.  The
    /// field's address does not change, the slot stays `Present`, and no raw
    /// slot write is counted — only the contents behind the reference are
    /// mutated.
    pub fn field_accessor_mut(&mut self, h: &PinnedRef<T>, i: usize) -> (r: &mut T)
        requires
            h.wf(*old(self)),
            i < h.total(),
            old(self).is_present(h.field_addr(i as int)),
        ensures
            *r == old(self).value_at(h.field_addr(i as int)),
            final(self)@ == old(self)@.update(
                h.field_addr(i as int),
                FieldState::Present(*final(r)),
            ),
            final(self).write_count() == old(self).write_count(),
    {
        self.at_address_mut(h.base + i)
    }
}

} // verus!
