//! Deferred self-reference resolution: fields whose value can only be
//! computed once sibling fields have their final addresses.
//!
//! Such a field is marked with the `Absent` placeholder during primary
//! construction and transitions to `Present` exactly once.  The strict
//! operation makes a second resolution inexpressible by precondition; the
//! guarded operation rejects it at run time and leaves the field untouched.

use vstd::prelude::*;

use crate::arena::{
    Arena, FieldState, evolution, lemma_evolution_reflexive, lemma_update_to_present_evolution,
    lemma_update_vacant_evolution,
};
use crate::protocol::UninitSlot;

verus! {

impl<T> Arena<T> {
    /// Writes the deferred placeholder into the next field of the object
    /// under construction.  The field's address is fixed from here on; its
    /// value comes later, through `deferred_field_set`.
    pub fn mark_deferred(&mut self, c: &mut UninitSlot<T>)
        requires
            old(c).bounded(),
            old(c).filled() < old(c).total(),
            old(c).in_arena(*old(self)),
            old(self).is_vacant(old(c).next_addr()),
        ensures
            final(c).base() == old(c).base(),
            final(c).total() == old(c).total(),
            final(c).filled() == old(c).filled() + 1,
            final(c).bounded(),
            final(self)@ == old(self)@.update(old(c).next_addr(), FieldState::Absent),
            final(self)@.len() == old(self)@.len(),
            final(self).write_count() == old(self).write_count() + 1,
            evolution(*old(self), *final(self)),
    {
        let addr = c.advance();
        self.mark_at(addr);
        proof {
            lemma_update_vacant_evolution(
                *old(self),
                *self,
                old(c).next_addr(),
                FieldState::Absent,
            );
        }
    }

    /// Resolves a deferred field: replaces the `Absent` placeholder — and
    /// only ever the placeholder, never prior real data — with the value
    /// computed from the siblings' final addresses or values.  The
    /// precondition makes a second resolution of the same field
    /// inexpressible: once the field is `Present` it is never `Absent`
    /// again.
    pub fn deferred_field_set(&mut self, addr: usize, value: T)
        requires
            old(self).is_absent(addr as int),
        ensures
            final(self)@ == old(self)@.update(addr as int, FieldState::Present(value)),
            final(self)@.len() == old(self)@.len(),
            final(self).is_present(addr as int),
            final(self).value_at(addr as int) == value,
            final(self).write_count() == old(self).write_count() + 1,
            evolution(*old(self), *final(self)),
    {
        self.write_at(addr, value);
        proof {
            lemma_update_to_present_evolution(*old(self), *self, addr as int, value);
        }
    }

    /// The guarded form of resolution: succeeds exactly when the field still
    /// holds the placeholder; a second call on the same field is rejected,
    /// hands the value back, and changes nothing.
    pub fn try_deferred_field_set(&mut self, addr: usize, value: T) -> (r: Result<(), T>)
        requires
            old(self).valid_addr(addr as int),
        ensures
            r is Ok <==> old(self).is_absent(addr as int),
            old(self).is_absent(addr as int) ==> {
                &&& final(self)@ == old(self)@.update(addr as int, FieldState::Present(value))
                &&& final(self).is_present(addr as int)
                &&& final(self).value_at(addr as int) == value
                &&& final(self).write_count() == old(self).write_count() + 1
            },
            !old(self).is_absent(addr as int) ==> {
                &&& r == Result::<(), T>::Err(value)
                &&& *final(self) == *old(self)
            },
            final(self)@.len() == old(self)@.len(),
            evolution(*old(self), *final(self)),
    {
        if self.slot_is_deferred(addr) {
            self.deferred_field_set(addr, value);
            Ok(())
        } else {
            proof {
                lemma_evolution_reflexive(*old(self));
            }
            Err(value)
        }
    }
}

} // verus!
