//! A small quote service: a verified record store with version counters,
//! a single-use pagination-token registry, the coordinator that serves one
//! page of a listing per request, and the HTML snippet generators around
//! the lockfile checksum decoder.

pub mod html;
pub mod package;
pub mod pagination;
pub mod registry;
pub mod store;

use vstd::prelude::*;

verus! {

/// Number of records served per listing page.
pub const PAGE_SIZE: usize = 3;

} // verus!
