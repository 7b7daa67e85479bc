//! The mathematical state of a continuation controller, and what holds of
//! every history of one.

use vstd::prelude::*;

verus! {

/// The state of a continuation controller, as mathematics: the expected
/// final item count, the installed continuation, and whether one is in
/// flight.
pub struct Control<C> {
    pub max_content: Option<usize>,
    pub callback: Option<C>,
    pub busy: bool,
}

impl<C> Control<C> {
    /// Nothing configured, nothing in flight.
    pub open spec fn idle() -> Self {
        Control { max_content: None, callback: None, busy: false }
    }

    /// Configuration wiped; the busy flag stays as it is.
    pub open spec fn clear(self) -> Self {
        Control { max_content: None, callback: None, ..self }
    }

    /// A new configuration installed; the busy flag stays as it is.
    pub open spec fn set(self, max_content: usize, callback: C) -> Self {
        Control { max_content: Some(max_content), callback: Some(callback), ..self }
    }

    /// Whether a call in this state starts the continuation.
    pub open spec fn dispatches(self) -> bool {
        !self.busy && self.callback is Some
    }

    /// The state after a call: busy if the call starts the continuation,
    /// unchanged if the request is dropped.
    pub open spec fn call(self) -> Self {
        if self.dispatches() {
            Control { busy: true, ..self }
        } else {
            self
        }
    }

    /// The state after a continuation returned.
    pub open spec fn complete(self) -> Self {
        Control { busy: false, ..self }
    }
}

/// What can happen to a controller.
pub enum Event<C> {
    /// The configuration is wiped.
    Wipe,
    /// A configuration is installed.
    Install(usize, C),
    /// More content is requested.
    Request,
    /// A continuation returns.
    Return,
}

impl<C> Control<C> {
    /// The state after one event.
    pub open spec fn on(self, event: Event<C>) -> Self {
        match event {
            Event::Wipe => self.clear(),
            Event::Install(max_content, callback) => self.set(max_content, callback),
            Event::Request => self.call(),
            Event::Return => self.complete(),
        }
    }

    /// The state after a history of events, starting idle.
    pub open spec fn after(events: Seq<Event<C>>) -> Self
        decreases events.len(),
    {
        if events.len() == 0 {
            Control::idle()
        } else {
            Control::after(events.drop_last()).on(events.last())
        }
    }
}

/// How many continuations a history, starting idle, has started and not yet
/// seen return.
pub open spec fn in_flight<C>(events: Seq<Event<C>>) -> int
    decreases events.len(),
{
    if events.len() == 0 {
        0
    } else {
        let earlier = events.drop_last();
        in_flight(earlier) + match events.last() {
            Event::Request => if Control::after(earlier).dispatches() {
                1int
            } else {
                0int
            },
            Event::Return => -1int,
            _ => 0int,
        }
    }
}

/// Every `Return` in the history is the return of a continuation that was
/// in flight.
pub open spec fn orderly<C>(events: Seq<Event<C>>) -> bool {
    forall|n: int|
        0 <= n < events.len() && #[trigger] events[n] is Return ==> in_flight(events.take(n))
            > 0
}

/// Single flight: over any history in which only continuations that were
/// started return, at most one continuation is in flight at any time, and
/// the busy flag is set exactly while one is.
pub proof fn lemma_single_flight<C>(events: Seq<Event<C>>)
    requires
        orderly(events),
    ensures
        0 <= in_flight(events) <= 1,
        Control::after(events).busy <==> in_flight(events) == 1,
    decreases events.len(),
{
    if events.len() > 0 {
        let earlier = events.drop_last();
        assert forall|n: int| 0 <= n < earlier.len() && #[trigger] earlier[n] is Return implies
            in_flight(earlier.take(n)) > 0 by {
            assert(events[n] is Return);
            assert(earlier.take(n) == events.take(n));
        }
        lemma_single_flight(earlier);
        if events.last() is Return {
            assert(events[events.len() - 1] is Return);
            assert(events.take(events.len() - 1) == earlier);
        }
    }
}

/// Two calls in a row, with nothing completing in between, start the
/// continuation at most once, and the second call is dropped without any
/// change of state.
pub proof fn lemma_second_call_is_dropped<C>(control: Control<C>)
    ensures
        !control.call().dispatches(),
        control.call().call() == control.call(),
        control.dispatches() ==> control.call().busy,
{
}

/// Once the continuation in flight has returned, a call dispatches again,
/// provided a continuation is still installed.
pub proof fn lemma_complete_reopens<C>(control: Control<C>)
    ensures
        !control.complete().busy,
        control.complete().dispatches() <==> control.callback is Some,
        control.complete().callback == control.callback,
        control.complete().max_content == control.max_content,
{
}

/// A call right after the configuration was wiped dispatches nothing and
/// leaves the busy flag as it was before the wipe.
pub proof fn lemma_call_after_clear<C>(control: Control<C>)
    ensures
        !control.clear().dispatches(),
        control.clear().call() == control.clear(),
        control.clear().call().busy == control.busy,
{
}

} // verus!
