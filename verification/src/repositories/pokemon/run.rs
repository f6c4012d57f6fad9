//! Operations that need an outside service.
//!
//! Such an operation is a run: a state that takes the reply of the service
//! to the command performed last, and makes the next move, which is the next
//! command or the answer of the operation. A run decides; the service is
//! asked by `drive`, through the one call that a `Service` offers. So what
//! an operation asks of the service, and what it answers on each reply, is
//! stated and proved without the service.

use vstd::prelude::*;

verus! {

/// One move of a run: either a command for the service, with the state in
/// which its reply is awaited, or the answer of the operation.
#[derive(Debug)]
pub enum Step<S, C, T> {
    /// Perform the command and hand its reply to the state.
    Perform(S, C),
    /// The operation is over, with this answer.
    Finish(T),
}

/// An outside service: it performs one command and tells what came of it.
/// Nothing is known of the reply beforehand.
pub trait Service<C, R> {
    /// Performs `command`.
    fn perform(&self, command: &C) -> R;
}

/// What an operation asks of the service and answers, as plain values, for
/// commands `C` and replies `R`: from each state and reply, the next move.
pub trait Protocol<C: View, R: View> {
    /// A state of the operation, in which it awaits a reply.
    type State;

    /// What the operation answers.
    type AnswerView;

    /// The move of the operation in `state` on `reply`.
    spec fn step(state: Self::State, reply: R::V) -> Step<Self::State, C::V, Self::AnswerView>;

    /// A measure of the moves that the operation in `state` still makes:
    /// it falls with every command, in the order of pairs.
    spec fn rank(state: Self::State) -> (nat, nat);

    /// The measure falls with every command.
    proof fn lemma_rank_falls(state: Self::State, reply: R::V)
        ensures
            Self::step(state, reply) matches Step::Perform(next, _) ==> {
                let before = Self::rank(state);
                let after = Self::rank(next);
                after.0 < before.0 || (after.0 == before.0 && after.1 < before.1)
            },
    ;
}

/// An operation under way that awaits a reply: it makes the moves of its
/// protocol.
pub trait Run<C: View, R: View>: Protocol<C, R> + Sized {
    /// What the operation answers.
    type Answer;

    /// The run as plain values.
    spec fn state(&self) -> Self::State;

    /// The answer as plain values.
    spec fn answer_view(answer: Self::Answer) -> Self::AnswerView;

    /// Takes the reply to the command that was performed last and makes
    /// the next move.
    fn advance(self, reply: R) -> (step: Step<Self, C, Self::Answer>)
        ensures
            match step {
                Step::Perform(next, command) => Self::step(self.state(), reply@) == Step::<
                    Self::State,
                    C::V,
                    Self::AnswerView,
                >::Perform(next.state(), command@),
                Step::Finish(answer) => Self::step(self.state(), reply@) == Step::<
                    Self::State,
                    C::V,
                    Self::AnswerView,
                >::Finish(Self::answer_view(answer)),
            },
    ;
}

/// The commands that a run in `state` has performed by the time it has
/// taken `replies`, and its answer if that has come. The first reply
/// answers the command that `state` awaits, each further one the command
/// before it in the result; replies after the answer are not taken.
pub open spec fn trace<C: View, R: View, U: Protocol<C, R>>(state: U::State, replies: Seq<R::V>) -> (
    Seq<C::V>,
    Option<U::AnswerView>,
)
    decreases replies.len(),
{
    if replies.len() == 0 {
        (Seq::empty(), None)
    } else {
        match U::step(state, replies[0]) {
            Step::Finish(answer) => (Seq::empty(), Some(answer)),
            Step::Perform(next, command) => {
                let rest = trace::<C, R, U>(next, replies.drop_first());
                (seq![command] + rest.0, rest.1)
            },
        }
    }
}

/// A run performs one command for each reply that it takes, but for the
/// one that it answers on.
pub proof fn lemma_trace_lengths<C: View, R: View, U: Protocol<C, R>>(
    state: U::State,
    replies: Seq<R::V>,
)
    ensures
        ({
            let (commands, answer) = trace::<C, R, U>(state, replies);
            &&& answer is Some ==> commands.len() < replies.len()
            &&& answer is None ==> commands.len() == replies.len()
        }),
    decreases replies.len(),
{
    if replies.len() > 0 {
        match U::step(state, replies[0]) {
            Step::Finish(_) => {},
            Step::Perform(next, _) => {
                lemma_trace_lengths::<C, R, U>(next, replies.drop_first());
            },
        }
    }
}

/// A run that has answered by its first `count` replies answers the same
/// on more replies, and has performed the same commands: replies after the
/// answer are not taken.
pub proof fn lemma_trace_goes_on<C: View, R: View, U: Protocol<C, R>>(
    state: U::State,
    replies: Seq<R::V>,
    count: int,
)
    requires
        0 <= count <= replies.len(),
        trace::<C, R, U>(state, replies.take(count)).1 is Some,
    ensures
        trace::<C, R, U>(state, replies) == trace::<C, R, U>(state, replies.take(count)),
    decreases count,
{
    let first = replies.take(count);
    if count > 0 {
        assert(first[0] == replies[0]);
        match U::step(state, replies[0]) {
            Step::Finish(_) => {},
            Step::Perform(next, _) => {
                assert(first.drop_first() =~= replies.drop_first().take(count - 1));
                lemma_trace_goes_on::<C, R, U>(next, replies.drop_first(), count - 1);
            },
        }
    }
}

/// The commands of a sequence of commands and replies, as plain values.
pub open spec fn commands_of<C: View, R>(exchanges: Seq<(C, R)>) -> Seq<C::V> {
    Seq::new(exchanges.len(), |i: int| exchanges[i].0@)
}

/// The replies of a sequence of commands and replies, as plain values.
pub open spec fn replies_of<C, R: View>(exchanges: Seq<(C, R)>) -> Seq<R::V> {
    Seq::new(exchanges.len(), |i: int| exchanges[i].1@)
}

/// Whether each reply of `exchanges` is one that `service` may give to the
/// command beside it.
pub open spec fn performed<C, R, S: Service<C, R>>(service: S, exchanges: Seq<(C, R)>) -> bool {
    forall|i: int|
        0 <= i < exchanges.len() ==> call_ensures(
            S::perform,
            (&service, &exchanges[i].0),
            #[trigger] exchanges[i].1,
        )
}

/// Whether `exchanges` is what driving a run from `state` with the first
/// command `command` asks of `service` and is told, up to the `answer`: the
/// commands are `command` and then those of the run, each performed once
/// the reply to the one before was taken, and the run answers on the last
/// reply.
pub open spec fn driven<C: View, R: View, S: Service<C, R>, U: Protocol<C, R>>(
    service: S,
    state: U::State,
    command: C::V,
    exchanges: Seq<(C, R)>,
    answer: U::AnswerView,
) -> bool {
    &&& 0 < exchanges.len()
    &&& performed(service, exchanges)
    &&& commands_of(exchanges)[0] == command
    &&& trace::<C, R, U>(state, replies_of(exchanges)) == (
        commands_of(exchanges).drop_first(),
        Some(answer),
    )
}

/// Drives `run` to its answer: performs `command` on the service, hands
/// the reply to the run, performs the command of its next move, and so on
/// until the run answers.
pub fn drive<C: View, R: View, S: Service<C, R>, U: Run<C, R>>(service: &S, run: U, command: C) -> (res:
    U::Answer)
    ensures
        exists|exchanges: Seq<(C, R)>| #[trigger]
            driven::<C, R, S, U>(*service, run.state(), command@, exchanges, U::answer_view(res)),
{
    let ghost start = run.state();
    let ghost first = command@;
    let mut run = run;
    let mut command = command;
    let mut res: Option<U::Answer> = None;
    let ghost mut exchanges: Seq<(C, R)> = Seq::empty();
    proof {
        assert forall|rest: Seq<R::V>| #[trigger]
            trace::<C, R, U>(start, replies_of(exchanges) + rest) == (
                commands_of(exchanges).push(command@).drop_first() + trace::<C, R, U>(
                    run.state(),
                    rest,
                ).0,
                trace::<C, R, U>(run.state(), rest).1,
            ) by {
            assert(replies_of(exchanges) + rest =~= rest);
            assert(commands_of(exchanges).push(command@).drop_first() + trace::<C, R, U>(
                run.state(),
                rest,
            ).0 =~= trace::<C, R, U>(run.state(), rest).0);
        }
    }
    loop
        invariant_except_break
            performed(*service, exchanges),
            commands_of(exchanges).push(command@)[0] == first,
            forall|rest: Seq<R::V>| #[trigger]
                trace::<C, R, U>(start, replies_of(exchanges) + rest) == (
                    commands_of(exchanges).push(command@).drop_first() + trace::<C, R, U>(
                        run.state(),
                        rest,
                    ).0,
                    trace::<C, R, U>(run.state(), rest).1,
                ),
        ensures
            res matches Some(answer) && driven::<C, R, S, U>(
                *service,
                start,
                first,
                exchanges,
                U::answer_view(answer),
            ),
        decreases U::rank(run.state()).0, U::rank(run.state()).1,
    {
        let reply = service.perform(&command);
        let ghost before = run.state();
        let ghost past = exchanges;
        let ghost asked = command;
        proof {
            exchanges = past.push((command, reply));
            assert(replies_of(exchanges) =~= replies_of(past).push(reply@));
            assert(commands_of(exchanges) =~= commands_of(past).push(asked@));
            U::lemma_rank_falls(before, reply@);
        }
        match run.advance(reply) {
            Step::Perform(next, then) => {
                proof {
                    assert forall|rest: Seq<R::V>| #[trigger]
                        trace::<C, R, U>(start, replies_of(exchanges) + rest) == (
                            commands_of(exchanges).push(then@).drop_first() + trace::<C, R, U>(
                                next.state(),
                                rest,
                            ).0,
                            trace::<C, R, U>(next.state(), rest).1,
                        ) by {
                        let longer = seq![reply@] + rest;
                        assert(replies_of(exchanges) + rest =~= replies_of(past) + longer);
                        assert(longer.drop_first() =~= rest);
                        assert(commands_of(exchanges).push(then@).drop_first() + trace::<C, R, U>(
                            next.state(),
                            rest,
                        ).0 =~= commands_of(past).push(asked@).drop_first() + (seq![then@]
                            + trace::<C, R, U>(next.state(), rest).0));
                    }
                }
                run = next;
                command = then;
            },
            Step::Finish(answer) => {
                proof {
                    let last = seq![reply@];
                    assert(replies_of(exchanges) =~= replies_of(past) + last);
                    assert(trace::<C, R, U>(before, last) == (
                        Seq::<C::V>::empty(),
                        Some(U::answer_view(answer)),
                    ));
                    assert(commands_of(past).push(asked@).drop_first() + Seq::<C::V>::empty()
                        =~= commands_of(exchanges).drop_first());
                    assert(trace::<C, R, U>(start, replies_of(past) + last) == (
                        commands_of(exchanges).drop_first(),
                        Some(U::answer_view(answer)),
                    ));
                }
                res = Some(answer);
                break;
            },
        }
    }
    res.unwrap()
}

} // verus!
