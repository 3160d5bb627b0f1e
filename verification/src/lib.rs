//! A shared-ownership smart pointer with weak references, built on an
//! explicit dual-counter protocol, together with a spinlock and a one-shot
//! channel modelled in the same style.
//!
//! The heart of the crate is the allocation-block protocol in [`protocol`]:
//! a block carries a `data_count` (live strong handles; while it is positive
//! the payload is present) and an `alloc_count` (live handles of either
//! kind; while it is positive the block itself is allocated).  The
//! executable handles in [`arc`] keep their blocks in an arena and every
//! operation's contract states exactly which protocol step it performs, so
//! the trace lemmas of [`protocol`] apply to any sequence of handle
//! operations.

pub mod arc;
pub mod channel;
pub mod protocol;
pub mod spinlock;
