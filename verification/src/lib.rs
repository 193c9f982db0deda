//! A generic handle registry: it hands out small opaque identifiers for
//! owned values, and lets the holder of an identifier look the value up,
//! mutate it in place, or reclaim it.
//!
//! The core is the indexed table ([`table::Registrations`]): values live in
//! a table keyed by a `u32` identifier, and a free list lets identifiers be
//! reused after the value under them has been taken out.  A lock-protected
//! form ([`shared::SharedRegistry`]) wraps the table for use from several
//! threads, and [`hub::Hub`] groups one shared registry per resource kind.
//! The laws relating the operations — identifier uniqueness, the
//! register/take round trip, reuse handing out the new value, mutation
//! visibility — are stated and proved in [`laws`].

pub mod hub;
pub mod laws;
pub mod shared;
pub mod table;
