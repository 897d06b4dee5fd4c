//! [`HandlerService`] — a handler bound to the application state.

use vstd::prelude::*;

verus! {

/// A handler together with the application state it is called with.  The
/// type parameter `T` records the handler's argument types.
pub struct HandlerService<H, T, S> {
    handler: H,
    state: S,
    _marker: core::marker::PhantomData<T>,
}

impl<H, T, S> HandlerService<H, T, S> {
    pub closed spec fn handler_spec(&self) -> H {
        self.handler
    }

    pub closed spec fn state_spec(&self) -> S {
        self.state
    }

    /// Bind `handler` to `state`.
    pub fn new(handler: H, state: S) -> (r: Self)
        ensures
            r.handler_spec() == handler,
            r.state_spec() == state,
    {
        HandlerService { handler, state, _marker: core::marker::PhantomData }
    }

    /// The handler.
    pub fn handler(&self) -> (h: &H)
        ensures
            *h == self.handler_spec(),
    {
        &self.handler
    }

    /// The application state.
    pub fn state(&self) -> (s: &S)
        ensures
            *s == self.state_spec(),
    {
        &self.state
    }
}

} // verus!
