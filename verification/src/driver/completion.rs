//! Completions of the ring and the handlers that they are forwarded to.

use vstd::prelude::*;

verus! {

/// A completion queue entry.
#[derive(Copy, Clone, Debug, PartialEq, Eq, Structural)]
pub struct CEntry {
    /// The key of the operation.
    pub user_data: u64,
    /// What the operation returned; a negative value is a negated error number.
    pub result: i32,
    /// The flags of the completion.
    pub flags: u32,
}

/// Receives the completions of the operations of one handler.
///
/// The two spec functions say how an implementation changes with a call; one
/// that leaves them out may change in any way.
pub trait Handler<T>: Sized {
    /// How a completed operation changes the handler.
    open spec fn on_completed(
        before: Self,
        id: usize,
        flags: u32,
        result: Result<T, i32>,
        after: Self,
    ) -> bool {
        true
    }

    /// How a canceled operation changes the handler.
    open spec fn on_canceled(before: Self, id: usize, after: Self) -> bool {
        true
    }

    /// Operation is completed
    fn completed(&mut self, id: usize, flags: u32, result: Result<T, i32>)
        ensures
            Self::on_completed(*old(self), id, flags, result, *final(self)),
    ;

    /// Operation is canceled
    fn canceled(&mut self, id: usize)
        ensures
            Self::on_canceled(*old(self), id, *final(self)),
    ;
}

/// What a completion means to the driver.
pub enum Completion<T> {
    /// The answer to a cancel request, which nobody waits for.
    Acknowledged,
    /// The wake-up channel was written to.
    Notified,
    /// Operation `id` of handler `batch` was canceled.
    Canceled { batch: usize, id: usize },
    /// Operation `id` of handler `batch` is completed.
    Completed { batch: usize, id: usize, flags: u32, result: Result<T, i32> },
}

impl<T> Completion<T> {
    /// Whether the completion names a handler that is there.
    pub open spec fn reaches(self, handlers: nat) -> bool {
        match self {
            Completion::Acknowledged => true,
            Completion::Notified => true,
            Completion::Canceled { batch, .. } => batch < handlers,
            Completion::Completed { batch, .. } => batch < handlers,
        }
    }
}

/// Whether `after` is what `before` becomes when one completion is forwarded:
/// the handler that it names gets the call, all others stay as they are.
pub open spec fn forwards<T, H: Handler<T>>(
    before: Seq<H>,
    completion: Completion<T>,
    after: Seq<H>,
) -> bool {
    match completion {
        Completion::Acknowledged => after == before,
        Completion::Notified => after == before,
        Completion::Canceled { batch, id } => {
            &&& batch < before.len()
            &&& after == before.update(batch as int, after[batch as int])
            &&& H::on_canceled(before[batch as int], id, after[batch as int])
        },
        Completion::Completed { batch, id, flags, result } => {
            &&& batch < before.len()
            &&& after == before.update(batch as int, after[batch as int])
            &&& H::on_completed(before[batch as int], id, flags, result, after[batch as int])
        },
    }
}

/// Whether `states` are the states of the handlers from before the first of the
/// completions to after the last of them, when they are forwarded one by one.
pub open spec fn is_run<T, H: Handler<T>>(
    states: Seq<Seq<H>>,
    completions: Seq<Completion<T>>,
) -> bool {
    &&& states.len() == completions.len() + 1
    &&& forall|i: int|
        #![trigger completions[i]]
        0 <= i < completions.len() ==> forwards(states[i], completions[i], states[i + 1])
}

/// Whether `after` is what `before` becomes when the completions are forwarded
/// one by one, in order.
pub open spec fn forwards_all<T, H: Handler<T>>(
    before: Seq<H>,
    completions: Seq<Completion<T>>,
    after: Seq<H>,
) -> bool {
    exists|states: Seq<Seq<H>>|
        {
            &&& #[trigger] is_run(states, completions)
            &&& states[0] == before
            &&& states.last() == after
        }
}

/// Whether a completion is for handler number `handler`.
pub open spec fn names<T>(completion: Completion<T>, handler: int) -> bool {
    match completion {
        Completion::Acknowledged => false,
        Completion::Notified => false,
        Completion::Canceled { batch, .. } => batch == handler,
        Completion::Completed { batch, .. } => batch == handler,
    }
}

/// Forwarding nothing changes nothing.
pub(crate) proof fn lemma_forwards_none<T, H: Handler<T>>(handlers: Seq<H>)
    ensures
        forwards_all(handlers, Seq::<Completion<T>>::empty(), handlers),
{
    let states: Seq<Seq<H>> = seq![handlers];
    assert(is_run(states, Seq::<Completion<T>>::empty()));
    assert(states.last() == handlers);
}

/// One more completion extends what was forwarded.
pub(crate) proof fn lemma_forwards_more<T, H: Handler<T>>(
    before: Seq<H>,
    completions: Seq<Completion<T>>,
    mid: Seq<H>,
    completion: Completion<T>,
    after: Seq<H>,
)
    requires
        forwards_all(before, completions, mid),
        forwards(mid, completion, after),
    ensures
        forwards_all(before, completions.push(completion), after),
{
    let states = choose|states: Seq<Seq<H>>|
        {
            &&& #[trigger] is_run(states, completions)
            &&& states[0] == before
            &&& states.last() == mid
        };
    let more = states.push(after);
    let all = completions.push(completion);
    assert forall|i: int| #![trigger all[i]] 0 <= i < all.len() implies forwards(
        more[i],
        all[i],
        more[i + 1],
    ) by {
        if i < completions.len() {
            assert(all[i] == completions[i]);
        }
    }
    assert(is_run(more, all));
    assert(more.last() == after);
}

/// What is forwarded in two parts is forwarded as a whole.
pub(crate) proof fn lemma_forwards_join<T, H: Handler<T>>(
    before: Seq<H>,
    first: Seq<Completion<T>>,
    mid: Seq<H>,
    second: Seq<Completion<T>>,
    after: Seq<H>,
)
    requires
        forwards_all(before, first, mid),
        forwards_all(mid, second, after),
    ensures
        forwards_all(before, first + second, after),
    decreases second.len(),
{
    let states = choose|states: Seq<Seq<H>>|
        {
            &&& #[trigger] is_run(states, second)
            &&& states[0] == mid
            &&& states.last() == after
        };
    if second.len() == 0 {
        assert(first + second =~= first);
    } else {
        let init = second.drop_last();
        let less = states.drop_last();
        assert forall|i: int| #![trigger init[i]] 0 <= i < init.len() implies forwards(
            less[i],
            init[i],
            less[i + 1],
        ) by {
            assert(init[i] == second[i]);
        }
        assert(is_run(less, init));
        lemma_forwards_join(before, first, mid, init, less.last());
        assert(forwards(less.last(), second.last(), after));
        lemma_forwards_more(before, first + init, less.last(), second.last(), after);
        assert((first + init).push(second.last()) =~= first + second);
    }
}

proof fn lemma_run_is_isolated<T, H: Handler<T>>(
    states: Seq<Seq<H>>,
    completions: Seq<Completion<T>>,
    other: int,
    n: int,
)
    requires
        is_run(states, completions),
        0 <= n < states.len(),
    ensures
        states[n].len() == states[0].len(),
        (0 <= other < states[0].len() && forall|i: int|
            0 <= i < completions.len() ==> !names(#[trigger] completions[i], other))
            ==> states[n][other] == states[0][other],
    decreases n,
{
    if n > 0 {
        lemma_run_is_isolated(states, completions, other, n - 1);
        let completion = completions[n - 1];
        assert(forwards(states[n - 1], completion, states[n]));
    }
}

/// Forwarding keeps the handlers where they are: none is added, none is lost.
pub proof fn law_forwarding_keeps_handlers<T, H: Handler<T>>(
    before: Seq<H>,
    completions: Seq<Completion<T>>,
    after: Seq<H>,
)
    requires
        forwards_all(before, completions, after),
    ensures
        after.len() == before.len(),
{
    let states = choose|states: Seq<Seq<H>>|
        {
            &&& #[trigger] is_run(states, completions)
            &&& states[0] == before
            &&& states.last() == after
        };
    lemma_run_is_isolated(states, completions, 0, states.len() - 1);
}

/// A handler changes only through completions that name it.
pub proof fn law_forwarding_is_isolated<T, H: Handler<T>>(
    before: Seq<H>,
    completions: Seq<Completion<T>>,
    after: Seq<H>,
    other: int,
)
    requires
        forwards_all(before, completions, after),
        0 <= other < before.len(),
        forall|i: int| 0 <= i < completions.len() ==> !names(#[trigger] completions[i], other),
    ensures
        after[other] == before[other],
{
    let states = choose|states: Seq<Seq<H>>|
        {
            &&& #[trigger] is_run(states, completions)
            &&& states[0] == before
            &&& states.last() == after
        };
    lemma_run_is_isolated(states, completions, other, states.len() - 1);
}

/// A completed operation is told to the handler that the completion names as completed,
/// with exactly its id, flags and result, a canceled one as canceled, with its id; and
/// no other handler changes.
pub proof fn law_forwarding_tells_what_happened<T, H: Handler<T>>(
    before: Seq<H>,
    completion: Completion<T>,
    after: Seq<H>,
    number: int,
)
    requires
        forwards(before, completion, after),
        0 <= number < before.len(),
    ensures
        after.len() == before.len(),
        completion matches Completion::Completed { batch, id, flags, result } ==> {
            &&& 0 <= batch < before.len()
            &&& number == batch ==> H::on_completed(
                before[number],
                id,
                flags,
                result,
                after[number],
            )
            &&& number != batch ==> after[number] == before[number]
        },
        completion matches Completion::Canceled { batch, id } ==> {
            &&& 0 <= batch < before.len()
            &&& number == batch ==> H::on_canceled(before[number], id, after[number])
            &&& number != batch ==> after[number] == before[number]
        },
        completion is Acknowledged || completion is Notified ==> after[number] == before[number],
{
}

/// Completions are forwarded one by one: nothing changes without one, and the last of
/// them is forwarded to what the others made of the handlers.
pub proof fn law_completions_are_forwarded_one_by_one<T, H: Handler<T>>(
    before: Seq<H>,
    completions: Seq<Completion<T>>,
    after: Seq<H>,
)
    requires
        forwards_all(before, completions, after),
    ensures
        completions.len() == 0 ==> after == before,
        completions.len() > 0 ==> exists|mid: Seq<H>|
            forwards_all(before, completions.drop_last(), mid) && #[trigger] forwards(
                mid,
                completions.last(),
                after,
            ),
{
    let states = choose|states: Seq<Seq<H>>|
        {
            &&& #[trigger] is_run(states, completions)
            &&& states[0] == before
            &&& states.last() == after
        };
    if completions.len() > 0 {
        let init = completions.drop_last();
        let less = states.drop_last();
        assert forall|i: int| #![trigger init[i]] 0 <= i < init.len() implies forwards(
            less[i],
            init[i],
            less[i + 1],
        ) by {
            assert(init[i] == completions[i]);
        }
        assert(is_run(less, init));
        assert(forwards_all(before, init, less.last()));
        assert(completions[completions.len() - 1] == completions.last());
        assert(forwards(less.last(), completions.last(), after));
    }
}

/// A completion reaches its handler if and only if there is a handler with its number;
/// one that is for no handler always does.
pub proof fn law_completion_reaches_its_number<T>(completion: Completion<T>, handlers: nat)
    ensures
        completion.reaches(handlers) <==> forall|number: int|
            #[trigger] names(completion, number) ==> 0 <= number < handlers,
        completion matches Completion::Completed { batch, .. } ==> names(completion, batch as int),
        completion matches Completion::Canceled { batch, .. } ==> names(completion, batch as int),
{
    match completion {
        Completion::Canceled { batch, .. } => {
            assert(names(completion, batch as int));
        },
        Completion::Completed { batch, .. } => {
            assert(names(completion, batch as int));
        },
        _ => {},
    }
}

} // verus!
