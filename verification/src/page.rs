//! One fetched chunk of a paged collection.

use vstd::prelude::*;

verus! {

/// A chunk of items together with the size the remote side declares for the
/// whole collection.
pub struct Page<I> {
    pub items: Vec<I>,
    pub total: u32,
}

impl<I> Page<I> {
    /// Builds a page from its parts.
    pub fn new(items: Vec<I>, total: u32) -> (page: Self)
        ensures
            page.items == items,
            page.total == total,
    {
        Page { items, total }
    }
}

/// The items a fetch delivered, or `None` where it delivered no page.
pub open spec fn delivered<I>(fetched: Option<Page<I>>) -> Option<Seq<I>> {
    match fetched {
        Some(page) => Some(page.items@),
        None => None,
    }
}

} // verus!
