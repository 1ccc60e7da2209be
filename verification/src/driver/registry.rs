//! The handlers of a driver.

use vstd::prelude::*;

verus! {

/// The handlers of a driver, each under the number with which it was registered.
pub struct Registry<H> {
    hid: u64,
    handlers: Option<Vec<H>>,
}

/// A handler that is about to be registered, with the handlers before it.
pub struct Registration<H> {
    hid: u64,
    handlers: Vec<H>,
}

impl<H> Registration<H> {
    /// The number of the handler.
    pub closed spec fn number(self) -> u64 {
        self.hid
    }

    /// The handlers before it.
    pub closed spec fn handlers(self) -> Seq<H> {
        self.handlers@
    }
}

impl<H> Registry<H> {
    /// How many handlers were registered, which is the number of the next one.
    pub closed spec fn registered(self) -> u64 {
        self.hid
    }

    /// The handlers, while they are not taken.
    pub closed spec fn handlers(self) -> Option<Seq<H>> {
        match self.handlers {
            Some(handlers) => Some(handlers@),
            None => None,
        }
    }

    /// The handlers that are there; none, while they are taken.
    pub open spec fn present(self) -> Seq<H> {
        match self.handlers() {
            Some(handlers) => handlers,
            None => Seq::empty(),
        }
    }

    /// Whether every handler stands at its number.
    pub open spec fn is_numbered(self) -> bool {
        self.handlers() matches Some(handlers) && handlers.len() == self.registered()
    }

    /// Create an empty registry.
    pub fn new() -> (r: Self)
        ensures
            r.registered() == 0,
            r.handlers() == Some(Seq::<H>::empty()),
            r.is_numbered(),
    {
        Registry { hid: 0, handlers: Some(Vec::new()) }
    }

    /// The number of the next handler.
    pub fn next(&self) -> (r: u64)
        ensures
            r == self.registered(),
    {
        self.hid
    }

    /// Starts to register a handler: takes the handlers that are there. Handlers that
    /// are taken already are not counted on, the registry starts anew without them.
    pub fn open(&mut self) -> (r: Registration<H>)
        ensures
            r.number() == old(self).registered(),
            r.handlers() == old(self).present(),
            old(self).handlers() matches Some(handlers) ==> r.handlers() == handlers,
            old(self).handlers() is None ==> r.handlers().len() == 0,
            final(self).handlers() is None,
            final(self).registered() == old(self).registered(),
    {
        let handlers = match self.handlers.take() {
            Some(handlers) => handlers,
            None => Vec::new(),
        };
        Registration { hid: self.hid, handlers }
    }

    /// Registers a handler, behind those before it.
    pub fn close(&mut self, registration: Registration<H>, handler: H)
        requires
            registration.number() < u64::MAX,
        ensures
            final(self).registered() == registration.number() + 1,
            final(self).handlers() == Some(registration.handlers().push(handler)),
            registration.handlers().len() == registration.number() ==> {
                &&& final(self).is_numbered()
                &&& final(self).handlers()->0[registration.number() as int] == handler
            },
    {
        let mut handlers = registration.handlers;
        handlers.push(handler);
        self.handlers = Some(handlers);
        self.hid = registration.hid + 1;
    }

    /// Whether the handlers are there to be taken.
    pub fn is_ready(&self) -> (r: bool)
        ensures
            r == (self.handlers() is Some),
    {
        self.handlers.is_some()
    }

    /// Takes the handlers, to forward something to them.
    pub fn take(&mut self) -> (r: Vec<H>)
        requires
            old(self).handlers() is Some,
        ensures
            old(self).handlers() == Some(r@),
            final(self).handlers() is None,
            final(self).registered() == old(self).registered(),
    {
        let handlers = self.handlers.take();
        handlers.unwrap()
    }

    /// Puts the handlers back.
    pub fn set(&mut self, handlers: Vec<H>)
        ensures
            final(self).handlers() == Some(handlers@),
            final(self).registered() == old(self).registered(),
    {
        self.handlers = Some(handlers);
    }
}

/// The handlers that are there are the handlers at their numbers; while they are taken,
/// none is there.
pub proof fn law_present_handlers_keep_their_places<H>(registry: Registry<H>, number: int)
    ensures
        registry.handlers() matches Some(handlers) ==> {
            &&& registry.present().len() == handlers.len()
            &&& 0 <= number < handlers.len() ==> registry.present()[number] == handlers[number]
        },
        registry.handlers() is None ==> registry.present().len() == 0,
{
}

/// Registering a handler leaves every earlier handler at its number, and the new one
/// stands behind them, at the number with which it was registered.
pub proof fn law_registration_keeps_the_numbers<H>(
    before: Registry<H>,
    handler: H,
    after: Registry<H>,
    number: int,
)
    requires
        before.handlers() is Some,
        after.handlers() == Some(before.present().push(handler)),
        after.registered() == before.registered() + 1,
    ensures
        after.handlers() is Some,
        after.handlers()->0.len() == before.handlers()->0.len() + 1,
        0 <= number < before.handlers()->0.len() ==> after.handlers()->0[number]
            == before.handlers()->0[number],
        after.handlers()->0.last() == handler,
        before.is_numbered() ==> after.is_numbered() && after.handlers()->0[before.registered() as int]
            == handler,
        before.is_numbered() <==> before.handlers()->0.len() == before.registered(),
{
}

} // verus!
