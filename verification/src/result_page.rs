//! A windowed accumulator over a remotely paged collection.

use crate::page::{delivered, Page};
use crate::window::Window;
use vstd::prelude::*;

verus! {

/// Everything fetched so far from a paged collection, with the bookkeeping
/// needed to fetch the next page.
///
/// `F` is the fetch capability: given an offset it returns the page that
/// starts there, or `None` when no page is available. Items are only ever
/// appended; a failed fetch leaves the accumulator as it was, so the step
/// can be tried again later.
pub struct ResultPage<I, F> {
    offset: u32,
    limit: usize,
    total: u32,
    items: Vec<I>,
    fetch_page: F,
}

impl<I, F> View for ResultPage<I, F> {
    type V = Window<I>;

    closed spec fn view(&self) -> Window<I> {
        Window {
            offset: self.offset as nat,
            limit: self.limit as nat,
            total: self.total as nat,
            items: self.items@,
        }
    }
}

/// What a constructor returns for a given outcome of the first fetch:
/// nothing if no page came, else an accumulator that holds that page's items
/// and declared total.
pub open spec fn started<I, F: Fn(u32) -> Option<Page<I>>>(
    result: Option<ResultPage<I, F>>,
    offset: u32,
    limit: usize,
    first: Option<Page<I>>,
    fetch_page: F,
) -> bool {
    match first {
        Some(page) => result matches Some(pages) && pages.source() == fetch_page && pages@
            == Window::start(offset as nat, limit as nat, page.total as nat, page.items@),
        None => result is None,
    }
}

/// What a step leaves behind for a given outcome of its fetch, and whether
/// it reports an advance.
pub open spec fn stepped<I>(
    before: Window<I>,
    after: Window<I>,
    advanced: bool,
    fetched: Option<Page<I>>,
) -> bool {
    &&& after == before.step(delivered(fetched))
    &&& advanced == before.advances(delivered(fetched))
}

impl<I, F: Fn(u32) -> Option<Page<I>>> ResultPage<I, F> {
    /// The fetch capability this accumulator was built with.
    pub closed spec fn source(&self) -> F {
        self.fetch_page
    }

    /// Starts an accumulator from the outcome of the first fetch, which the
    /// caller made at `offset`.
    pub fn with_first_page(
        offset: u32,
        limit: usize,
        first: Option<Page<I>>,
        fetch_page: F,
    ) -> (result: Option<Self>)
        ensures
            started(result, offset, limit, first, fetch_page),
    {
        match first {
            Some(page) => Some(
                ResultPage { offset, limit, total: page.total, items: page.items, fetch_page },
            ),
            None => None,
        }
    }

    /// Fetches the page at `offset` and starts an accumulator from it. If
    /// the fetch delivers no page there is no accumulator.
    pub fn new(offset: u32, limit: usize, fetch_page: F) -> (result: Option<Self>)
        requires
            call_requires(fetch_page, (offset,)),
        ensures
            exists|first: Option<Page<I>>| #[trigger]
                call_ensures(fetch_page, (offset,), first) && started(
                    result,
                    offset,
                    limit,
                    first,
                    fetch_page,
                ),
            (forall|first: Option<Page<I>>| #[trigger]
                call_ensures(fetch_page, (offset,), first) ==> first is None) ==> result is None,
            (forall|first: Option<Page<I>>| #[trigger]
                call_ensures(fetch_page, (offset,), first) ==> first is Some) ==> result is Some,
    {
        let first = fetch_page(offset);
        let ghost outcome = first;
        let result = Self::with_first_page(offset, limit, first, fetch_page);
        assert(call_ensures(fetch_page, (offset,), outcome));
        result
    }

    /// How many items have been accumulated.
    pub fn len(&self) -> (count: usize)
        ensures
            count == self@.items.len(),
    {
        self.items.len()
    }

    /// The accumulated items, in the order they arrived.
    pub fn items(&self) -> (items: &Vec<I>)
        ensures
            items@ == self@.items,
    {
        &self.items
    }

    /// Where the last fetched page starts.
    pub fn offset(&self) -> (offset: u32)
        ensures
            offset == self@.offset,
    {
        self.offset
    }

    /// The page size.
    pub fn limit(&self) -> (limit: usize)
        ensures
            limit == self@.limit,
    {
        self.limit
    }

    /// The size of the whole collection as the first page declared it.
    pub fn total(&self) -> (total: u32)
        ensures
            total == self@.total,
    {
        self.total
    }

    /// Whether the walk is exhausted: the page after the current one would
    /// start at or past the declared total.
    pub fn at_end(&self) -> (ended: bool)
        ensures
            ended == self@.at_end(),
    {
        self.total <= self.offset || (self.total - self.offset) as u64 <= self.limit as u64
    }

    /// The offset at which the next page is to be fetched, or `None` at the
    /// end of the walk.
    pub fn next_offset(&self) -> (candidate: Option<u32>)
        ensures
            candidate is None <==> self@.at_end(),
            candidate matches Some(at) ==> at == self@.next_offset(),
    {
        if self.at_end() {
            None
        } else {
            Some(self.offset + self.limit as u32)
        }
    }

    /// Applies the outcome of a fetch made at the next offset: a delivered
    /// page is appended and the offset moves on by one page size. At the end
    /// of the walk, or for a fetch that delivered nothing, the accumulator
    /// stays as it is.
    pub fn accept(&mut self, fetched: Option<Page<I>>) -> (advanced: bool)
        ensures
            stepped(old(self)@, final(self)@, advanced, fetched),
            final(self).source() == old(self).source(),
    {
        match (self.next_offset(), fetched) {
            (Some(candidate), Some(page)) => {
                let mut page = page;
                self.offset = candidate;
                self.items.append(&mut page.items);
                true
            },
            _ => false,
        }
    }

    /// Fetches the next page and appends it. Returns `false`, with nothing
    /// changed, at the end of the walk or when the fetch delivers no page.
    pub fn next(&mut self) -> (advanced: bool)
        requires
            !old(self)@.at_end() ==> call_requires(
                old(self).source(),
                (old(self)@.next_offset() as u32,),
            ),
        ensures
            final(self).source() == old(self).source(),
            old(self)@.at_end() ==> !advanced && final(self)@ == old(self)@,
            !old(self)@.at_end() ==> exists|fetched: Option<Page<I>>| #[trigger]
                call_ensures(old(self).source(), (old(self)@.next_offset() as u32,), fetched)
                    && stepped(old(self)@, final(self)@, advanced, fetched),
    {
        match self.next_offset() {
            Some(candidate) => {
                assert(candidate == self@.next_offset() as u32);
                let fetched = (self.fetch_page)(candidate);
                let ghost outcome = fetched;
                let advanced = self.accept(fetched);
                assert(call_ensures(old(self).source(), (candidate,), outcome));
                advanced
            },
            None => false,
        }
    }
}

} // verus!
