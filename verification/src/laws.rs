//! The laws of the protocol, stated and proved once for every arena, every
//! handle and every sequence of operations.
//!
//! Every mutating operation of the library ensures `evolution` between its
//! pre- and post-state, so a chain of operations evolves the arena; the
//! lemmas here say what that guarantees globally.

use vstd::prelude::*;

use crate::arena::{Arena, FieldState, evolution};
use crate::protocol::PinnedRef;

verus! {

/// Address stability: an address, once reserved, stays a valid address of
/// the same slot under any later operation — slots are only appended, never
/// removed or relocated.  Together with the accessors' contracts, whose
/// returned addresses are pure functions of the handle, the address of an
/// object and of every one of its fields is identical across any sequence
/// of accessor calls.
pub proof fn lemma_address_stability<T>(pre: Arena<T>, post: Arena<T>, a: int)
    requires
        evolution(pre, post),
        pre.valid_addr(a),
    ensures
        post.valid_addr(a),
{
}

/// Evolution is transitive, so the guarantees of the other lemmas carry
/// over any chain of operations.
pub proof fn lemma_evolution_transitive<T>(first: Arena<T>, second: Arena<T>, third: Arena<T>)
    requires
        evolution(first, second),
        evolution(second, third),
    ensures
        evolution(first, third),
{
    assert forall|a: int| #[trigger] first.is_present(a) implies third.is_present(a) by {
        assert(second.is_present(a));
    }
    assert forall|a: int| #[trigger] first.is_absent(a) implies third.is_absent(a)
        || third.is_present(a) by {
        assert(second.is_absent(a) || second.is_present(a));
    }
}

/// Once an object has been exposed through a pinned handle, the handle
/// stays well-formed under any later operation: the object is never
/// relocated and none of its fields ever reverts to uninitialized.
pub proof fn lemma_pinned_wf_preserved<T>(h: PinnedRef<T>, pre: Arena<T>, post: Arena<T>)
    requires
        h.wf(pre),
        evolution(pre, post),
    ensures
        h.wf(post),
{
    assert forall|j: int| h.base() <= j < h.base() + h.total() implies post.is_present(j)
        || post.is_absent(j) by {
        assert(pre.is_present(j) || pre.is_absent(j));
    }
}

/// Single resolution: once a deferred field has been resolved it is
/// `Present`, and no later operation makes it `Absent` again — so the
/// precondition of a second strict resolution can never hold, and the
/// guarded resolution rejects it on every later state.
pub proof fn lemma_single_resolution<T>(pre: Arena<T>, post: Arena<T>, a: int)
    requires
        evolution(pre, post),
        pre.is_present(a),
    ensures
        post.is_present(a),
        !post.is_absent(a),
{
}

/// Snapshot independence: a resolved field holds the value computed at
/// resolution time; an operation that touches any other slot leaves it
/// untouched.  A field that is to track later mutations of a sibling
/// stores the sibling's address instead and reads through it.
pub proof fn lemma_snapshot_independence<T>(
    pre: Arena<T>,
    post: Arena<T>,
    f: int,
    b: int,
    s: FieldState<T>,
)
    requires
        pre.valid_addr(f),
        pre.valid_addr(b),
        b != f,
        post@ == pre@.update(b, s),
    ensures
        post@[f] == pre@[f],
        pre.is_present(f) ==> post.is_present(f) && post.value_at(f) == pre.value_at(f),
{
}

/// A nested sub-object of a well-formed pinned object is itself
/// well-formed: exactly the invariant a standalone construction of the
/// sub-object establishes, since both denote the same storage under the
/// same contracts.
pub proof fn lemma_nested_standalone<T>(outer: PinnedRef<T>, inner: PinnedRef<T>, a: Arena<T>)
    requires
        outer.wf(a),
        outer.base() <= inner.base(),
        inner.base() + inner.total() <= outer.base() + outer.total(),
        inner.bounded(),
    ensures
        inner.wf(a),
{
    assert forall|j: int| inner.base() <= j < inner.base() + inner.total() implies a.is_present(
        j,
    ) || a.is_absent(j) by {
        assert(outer.base() <= j < outer.base() + outer.total());
    }
}

} // verus!
