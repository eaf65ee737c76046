//! The unified result entity every marketplace adapter produces.

use vstd::prelude::*;

verus! {

/// A normalized listing.
#[derive(Clone, Debug)]
pub struct Offer {
    /// Display name of the listing.
    pub title: String,
    /// Normalized price in cents; `crate::price::SENTINEL_CENTS` when the
    /// source showed no parsable price.
    pub price: u64,
    /// Absolute link to the original listing.
    pub url: String,
}

/// A structural parse failure: an expected document element was missing
/// where its absence is not an anticipated variant. Fatal for the source,
/// since it signals an upstream page-layout change.
#[derive(Clone, Copy, Debug, PartialEq, Eq, Structural)]
pub enum ScrapeError {
    /// A listing card had no title node.
    MissingTitle,
    /// A listing card had no link.
    MissingUrl,
}

/// Caller-supplied filter set, read-only input to every source adapter.
/// Each adapter translates it into its own URL dialect.
#[derive(Clone, Debug)]
pub struct SearchQuery {
    /// Free-text search phrase.
    pub query: String,
    /// Lower price bound, passed through to the source untouched.
    pub min_price: Option<String>,
    /// Upper price bound, passed through to the source untouched.
    pub max_price: Option<String>,
}

} // verus!
