//! A single-flight gate for the continuation that loads more content.

use crate::control::Control;
use vstd::prelude::*;

verus! {

/// Associates a continuation with the content it extends and lets at most
/// one run at a time.
///
/// A call made while no continuation is installed is dropped and leaves the
/// busy flag alone, so a controller cannot latch busy with nothing running.
/// Installing or wiping the configuration never touches the busy flag: a
/// continuation already in flight runs on and clears the flag when it
/// returns.
pub struct Pagination<C> {
    max_content: Option<usize>,
    callback: Option<C>,
    busy: bool,
}

impl<C> View for Pagination<C> {
    type V = Control<C>;

    closed spec fn view(&self) -> Control<C> {
        Control { max_content: self.max_content, callback: self.callback, busy: self.busy }
    }
}

impl<C> Default for Pagination<C> {
    fn default() -> (fresh: Self)
        ensures
            fresh@ == Control::<C>::idle(),
    {
        Pagination { max_content: None, callback: None, busy: false }
    }
}

impl<C> Pagination<C> {
    /// Wipes the expected item count and the continuation.
    pub fn clear(&mut self)
        ensures
            final(self)@ == old(self)@.clear(),
    {
        self.max_content = None;
        self.callback = None;
    }

    /// Installs an expected item count and a continuation, replacing any
    /// earlier ones.
    pub fn set(&mut self, max_content: usize, callback: C)
        ensures
            final(self)@ == old(self)@.set(max_content, callback),
    {
        self.max_content = Some(max_content);
        self.callback = Some(callback);
    }

    /// The expected final item count, if one is configured.
    pub fn max_content(&self) -> (expected: Option<usize>)
        ensures
            expected == self@.max_content,
    {
        self.max_content
    }

    /// Whether a continuation is in flight.
    pub fn is_busy(&self) -> (busy: bool)
        ensures
            busy == self@.busy,
    {
        self.busy
    }

    /// The installed continuation, if any.
    pub fn callback(&self) -> (installed: Option<&C>)
        ensures
            installed is Some <==> self@.callback is Some,
            installed matches Some(callback) ==> self@.callback == Some(*callback),
    {
        self.callback.as_ref()
    }

    /// Requests more content. Returns whether the caller must now run the
    /// installed continuation; if so the controller is busy until
    /// [`Pagination::complete`] is called. While busy, or with no
    /// continuation installed, the request is dropped and nothing changes.
    pub fn call(&mut self) -> (dispatch: bool)
        ensures
            dispatch == old(self)@.dispatches(),
            final(self)@ == old(self)@.call(),
    {
        if self.busy || self.callback.is_none() {
            false
        } else {
            self.busy = true;
            true
        }
    }

    /// Records that the continuation in flight has returned.
    pub fn complete(&mut self)
        ensures
            final(self)@ == old(self)@.complete(),
    {
        self.busy = false;
    }
}

} // verus!
