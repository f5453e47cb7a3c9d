//! A construction protocol for immovable, self-referential composite objects.
//!
//! Composites are built inside an [`arena::Arena`], whose slot indices serve as
//! stable addresses: a slot, once reserved, is never relocated, so a field may
//! hold the address of a sibling field or of the whole object before any field
//! has been written.  Construction goes through linear handles — an
//! uninitialized slot handle is consumed exactly once and yields a pinned
//! handle to the same address — and fields whose value depends on siblings'
//! final addresses are resolved afterwards through a once-only deferred-field
//! transition.

pub mod arena;
pub mod deferred;
pub mod laws;
pub mod protocol;
