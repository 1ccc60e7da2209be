//! The handlers of a driver while something is forwarded to them.

use ntex_polling::Event;
use vstd::prelude::*;

use super::completion::{self, Completion};
use super::key::{decode_batch, decode_data};
use super::poll::{self, get_key, Call};

verus! {

/// The handlers, each at its number, and all that was forwarded to them.
#[verifier::reject_recursive_types(C)]
pub struct Handlers<H, C> {
    items: Vec<H>,
    calls: Ghost<Seq<C>>,
}

impl<H, C> Handlers<H, C> {
    /// The handlers.
    pub closed spec fn items(self) -> Seq<H> {
        self.items@
    }

    /// What was forwarded so far, in order, whichever handler it went to.
    pub closed spec fn calls(self) -> Seq<C> {
        self.calls@
    }

    /// Nothing is forwarded yet.
    pub fn new(items: Vec<H>) -> (r: Self)
        ensures
            r.items() == items@,
            r.calls() == Seq::<C>::empty(),
    {
        Handlers { items, calls: Ghost(Seq::empty()) }
    }

    /// How many handlers there are.
    pub fn len(&self) -> (r: usize)
        ensures
            r == self.items().len(),
    {
        self.items.len()
    }

    /// The handlers, after all is forwarded.
    pub fn into_inner(self) -> (r: Vec<H>)
        ensures
            r@ == self.items(),
    {
        self.items
    }
}

impl<T, H: completion::Handler<T>> Handlers<H, Completion<T>> {
    /// Forwards one completion to the handler that it names.
    pub fn forward(&mut self, completion: Completion<T>)
        requires
            completion.reaches(old(self).items().len()),
        ensures
            completion::forwards(old(self).items(), completion, final(self).items()),
            final(self).calls() == old(self).calls().push(completion),
            completion matches Completion::Completed { batch, id, flags, result }
                ==> H::on_completed(
                old(self).items()[batch as int],
                id,
                flags,
                result,
                final(self).items()[batch as int],
            ),
            completion matches Completion::Canceled { batch, id } ==> H::on_canceled(
                old(self).items()[batch as int],
                id,
                final(self).items()[batch as int],
            ),
    {
        proof {
            self.calls@ = self.calls@.push(completion);
        }
        match completion {
            Completion::Acknowledged => {},
            Completion::Notified => {},
            Completion::Canceled { batch, id } => {
                self.items[batch].canceled(id);
            },
            Completion::Completed { batch, id, flags, result } => {
                self.items[batch].completed(id, flags, result);
            },
        }
    }
}

impl<E, H: poll::Handler<E>> Handlers<H, Call<E>> {
    /// Forwards one event to the handler that its key names.
    pub fn event(&mut self, event: Event)
        requires
            poll::event_batch(event) < old(self).items().len(),
        ensures
            poll::forwards::<E, H>(old(self).items(), event, final(self).items()),
            final(self).calls() == old(self).calls().push(Call::Event(event)),
    {
        proof {
            self.calls@ = self.calls@.push(Call::Event(event));
        }
        let key: u64 = get_key(&event) as u64;
        let batch: usize = decode_batch(key);
        let id: usize = decode_data(key);
        self.items[batch].event(id, event);
    }

    /// Reports a failed operation to its handler.
    pub fn error(&mut self, batch: usize, user_data: u32, error: E)
        requires
            batch < old(self).items().len(),
        ensures
            poll::reports(old(self).items(), batch, user_data, error, final(self).items()),
            final(self).calls() == old(self).calls().push(Call::Error { batch, user_data, error }),
    {
        proof {
            self.calls@ = self.calls@.push(Call::Error { batch, user_data, error });
        }
        self.items[batch].error(user_data as usize, error);
    }
}

} // verus!
