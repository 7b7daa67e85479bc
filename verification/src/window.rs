//! The mathematical state of a walk through a paged collection, and what
//! holds of every such walk.

use vstd::prelude::*;

verus! {

/// How far a walk has come: where the last fetched page starts, the page
/// size, the declared size of the whole collection, and everything fetched
/// so far.
pub struct Window<I> {
    pub offset: nat,
    pub limit: nat,
    pub total: nat,
    pub items: Seq<I>,
}

/// A remote side as a function: the items of the page it delivers at an
/// offset, or `None` where it delivers no page.
pub type Source<I> = spec_fn(nat) -> Option<Seq<I>>;

impl<I> Window<I> {
    /// The window right after the first page arrived.
    pub open spec fn start(offset: nat, limit: nat, total: nat, items: Seq<I>) -> Self {
        Window { offset, limit, total, items }
    }

    /// No page lies past the current one.
    pub open spec fn at_end(self) -> bool {
        self.offset + self.limit >= self.total
    }

    /// Where the page after the current one starts.
    pub open spec fn next_offset(self) -> nat {
        self.offset + self.limit
    }

    /// Whether a step with this fetch outcome moves the window.
    pub open spec fn advances(self, fetched: Option<Seq<I>>) -> bool {
        !self.at_end() && fetched is Some
    }

    /// One step of the walk: at the end, or on a failed fetch, nothing
    /// changes; otherwise the page is appended and the offset moves on by
    /// one page size.
    pub open spec fn step(self, fetched: Option<Seq<I>>) -> Self {
        if self.advances(fetched) {
            Window { offset: self.next_offset(), items: self.items + fetched->0, ..self }
        } else {
            self
        }
    }

    /// The window after `steps` steps, each fed with what `source` delivers
    /// at the next offset.
    pub open spec fn run(self, source: Source<I>, steps: nat) -> Self
        decreases steps,
    {
        if steps == 0 {
            self
        } else {
            let before = self.run(source, (steps - 1) as nat);
            before.step(source(before.next_offset()))
        }
    }

    /// The window after the first fetch at `offset` and `steps` further
    /// steps, against a remote side that holds `remote` and serves it
    /// faithfully.
    pub open spec fn walk(remote: Seq<I>, offset: nat, limit: nat, steps: nat) -> Self {
        Window::start(offset, limit, remote.len(), page_at(remote, offset, limit)).run(
            faithful(remote, limit),
            steps,
        )
    }
}

/// The smaller of two naturals.
pub open spec fn at_most(a: nat, bound: nat) -> nat {
    if a <= bound {
        a
    } else {
        bound
    }
}

/// The page that a faithful remote side serves at `at`: up to `limit` items
/// of `remote` starting there, and nothing past its end.
pub open spec fn page_at<I>(remote: Seq<I>, at: nat, limit: nat) -> Seq<I> {
    remote.subrange(at_most(at, remote.len()) as int, at_most(at + limit, remote.len()) as int)
}

/// A remote side that holds `remote` and never fails.
pub open spec fn faithful<I>(remote: Seq<I>, limit: nat) -> Source<I> {
    |at: nat| Some(page_at(remote, at, limit))
}

/// A step never removes or reorders what was accumulated, never moves the
/// offset back, and leaves page size and declared total alone. The item
/// count grows by the size of the page exactly when the step advances.
pub proof fn lemma_step_extends<I>(window: Window<I>, fetched: Option<Seq<I>>)
    ensures
        window.items.is_prefix_of(window.step(fetched).items),
        window.step(fetched).offset >= window.offset,
        window.step(fetched).limit == window.limit,
        window.step(fetched).total == window.total,
        window.step(fetched).items.len() == window.items.len() + (if window.advances(fetched) {
            fetched->0.len()
        } else {
            0
        }),
{
}

/// At the end of the walk every step is refused and changes nothing.
pub proof fn lemma_end_is_final<I>(window: Window<I>, fetched: Option<Seq<I>>)
    requires
        window.at_end(),
    ensures
        !window.advances(fetched),
        window.step(fetched) == window,
{
}

/// Whatever the remote side delivers, a longer run only appends to what a
/// shorter run accumulated.
pub proof fn lemma_run_grows<I>(window: Window<I>, source: Source<I>, steps: nat, more: nat)
    ensures
        window.run(source, steps).items.is_prefix_of(window.run(source, steps + more).items),
        window.run(source, steps).offset <= window.run(source, steps + more).offset,
        window.run(source, steps + more).limit == window.run(source, steps).limit,
        window.run(source, steps + more).total == window.run(source, steps).total,
    decreases more,
{
    if more > 0 {
        lemma_run_grows(window, source, steps, (more - 1) as nat);
        let before = window.run(source, (steps + more - 1) as nat);
        lemma_step_extends(before, source(before.next_offset()));
    }
}

/// With a positive page size and a remote side that never fails, a run is at
/// the end of the walk after as many steps as the collection is declared to
/// hold, and stays there.
pub proof fn lemma_run_ends<I>(window: Window<I>, source: Source<I>, steps: nat)
    requires
        window.limit > 0,
        forall|at: nat| (#[trigger] source(at)) is Some,
    ensures
        window.run(source, steps).at_end() || window.run(source, steps).offset >= window.offset
            + steps,
        steps >= window.total ==> window.run(source, steps).at_end(),
        window.run(source, steps).at_end() ==> window.run(source, steps + 1) == window.run(
            source,
            steps,
        ),
    decreases steps,
{
    lemma_run_grows(window, source, 0, steps);
    if steps > 0 {
        lemma_run_ends(window, source, (steps - 1) as nat);
    }
}

/// Against a faithful remote side the accumulated items are, after any
/// number of steps, exactly the stretch of the collection from the starting
/// offset to the end of the last fetched page, and the walk is at its end
/// exactly when that stretch reaches the end of the collection.
pub proof fn lemma_walk_collects<I>(remote: Seq<I>, offset: nat, limit: nat, steps: nat)
    ensures
        ({
            let window = Window::walk(remote, offset, limit, steps);
            &&& window.items == remote.subrange(
                at_most(offset, remote.len()) as int,
                at_most(window.offset + limit, remote.len()) as int,
            )
            &&& window.at_end() <==> window.items.len() == remote.len() - at_most(
                offset,
                remote.len(),
            )
        }),
    decreases steps,
{
    let first = Window::start(offset, limit, remote.len(), page_at(remote, offset, limit));
    lemma_run_grows(first, faithful(remote, limit), 0, steps);
    if steps > 0 {
        lemma_walk_collects(remote, offset, limit, (steps - 1) as nat);
    }
}

/// A walk that starts at offset 0 with a positive page size, against a
/// remote side that faithfully serves a collection of `remote.len()` items:
/// what is accumulated is always a prefix of the collection and only grows;
/// the walk is at its end exactly when all items are in; that happens after
/// finitely many steps; and from then on a step changes nothing.
pub proof fn lemma_walk_from_start<I>(remote: Seq<I>, limit: nat, steps: nat)
    requires
        limit > 0,
    ensures
        ({
            let window = Window::walk(remote, 0, limit, steps);
            let later = Window::walk(remote, 0, limit, steps + 1);
            &&& window.items.is_prefix_of(remote)
            &&& window.items.is_prefix_of(later.items)
            &&& window.at_end() <==> window.items.len() == remote.len()
            &&& window.at_end() ==> later == window
            &&& steps >= remote.len() ==> window.at_end()
        }),
{
    let first = Window::start(0, limit, remote.len(), page_at(remote, 0, limit));
    lemma_walk_collects(remote, 0, limit, steps);
    lemma_run_grows(first, faithful(remote, limit), steps, 1);
    lemma_run_ends(first, faithful(remote, limit), steps);
}

} // verus!
