//! The life of a relayed connection: each direction copies until its stream
//! ends, then shuts the writing side down, then is done.

use vstd::prelude::*;

use crate::buffer::CopyBuffer;

verus! {

/// What a poll gave.
#[derive(Debug, PartialEq, Eq)]
pub enum Readiness<T> {
    /// The outcome is there.
    Ready(T),
    /// It is not there yet.
    Pending,
}

/// How far one direction of a relay has come.
pub enum TransferState {
    /// Bytes are being copied through this buffer.
    Running(CopyBuffer),
    /// The stream has ended after this many bytes; the writing side is being shut
    /// down.
    ShuttingDown(u64),
    /// The direction is done, after this many bytes.
    Done(u64),
}

/// What has happened to one direction of a relay.
pub enum TransferEvent<E> {
    /// The direction is polled.
    Polled,
    /// Copying was polled. Its outcome is the number of bytes copied.
    Copied(Readiness<Result<u64, E>>),
    /// The shutdown of the writing side was polled.
    ShutDown(Readiness<Result<(), E>>),
}

/// What one direction of a relay asks for.
#[derive(Debug, PartialEq, Eq)]
pub enum TransferAction<E> {
    /// Poll the copying.
    Copy,
    /// Poll the shutdown of the writing side.
    Shutdown,
    /// The poll gives this.
    Return(Readiness<Result<u64, E>>),
}

impl TransferState {
    /// Whether `event` can happen in this state.
    pub open spec fn expects<E>(self, event: TransferEvent<E>) -> bool {
        match event {
            TransferEvent::Polled => true,
            TransferEvent::Copied(_) => self is Running,
            TransferEvent::ShutDown(_) => self is ShuttingDown,
        }
    }

    /// The state after `event`: an outcome moves the direction on, while an error
    /// or a poll without outcome leaves it where it is.
    pub open spec fn after<E>(self, event: TransferEvent<E>) -> TransferState {
        match (self, event) {
            (
                TransferState::Running(_),
                TransferEvent::Copied(Readiness::Ready(Ok(count))),
            ) => TransferState::ShuttingDown(count),
            (
                TransferState::ShuttingDown(count),
                TransferEvent::ShutDown(Readiness::Ready(Ok(_))),
            ) => TransferState::Done(count),
            _ => self,
        }
    }

    /// What is asked for in this state.
    pub open spec fn wants<E>(self) -> TransferAction<E> {
        match self {
            TransferState::Running(_) => TransferAction::Copy,
            TransferState::ShuttingDown(_) => TransferAction::Shutdown,
            TransferState::Done(count) => TransferAction::Return(Readiness::Ready(Ok(count))),
        }
    }

    /// What is asked for upon `event`: a poll without outcome and an error end the
    /// poll; otherwise the state that the direction has come to decides.
    pub open spec fn answer<E>(self, event: TransferEvent<E>) -> TransferAction<E> {
        match event {
            TransferEvent::Copied(Readiness::Pending) => TransferAction::Return(
                Readiness::Pending,
            ),
            TransferEvent::ShutDown(Readiness::Pending) => TransferAction::Return(
                Readiness::Pending,
            ),
            TransferEvent::Copied(Readiness::Ready(Err(e))) => TransferAction::Return(
                Readiness::Ready(Err(e)),
            ),
            TransferEvent::ShutDown(Readiness::Ready(Err(e))) => TransferAction::Return(
                Readiness::Ready(Err(e)),
            ),
            _ => self.after(event).wants(),
        }
    }

    /// The state after a run of events.
    pub open spec fn after_all<E>(self, events: Seq<TransferEvent<E>>) -> TransferState
        decreases events.len(),
    {
        if events.len() == 0 {
            self
        } else {
            self.after_all(events.drop_last()).after(events.last())
        }
    }
}

/// Moves one direction of a relay on by an event, and says what to do next.
pub fn transfer<E>(state: &mut TransferState, event: TransferEvent<E>) -> (action: TransferAction<
    E,
>)
    requires
        old(state).expects(event),
    ensures
        *final(state) == old(state).after(event),
        action == old(state).answer(event),
{
    match event {
        TransferEvent::Polled => {},
        TransferEvent::Copied(Readiness::Pending) => {
            return TransferAction::Return(Readiness::Pending);
        },
        TransferEvent::Copied(Readiness::Ready(Err(e))) => {
            return TransferAction::Return(Readiness::Ready(Err(e)));
        },
        TransferEvent::Copied(Readiness::Ready(Ok(count))) => {
            *state = TransferState::ShuttingDown(count);
        },
        TransferEvent::ShutDown(Readiness::Pending) => {
            return TransferAction::Return(Readiness::Pending);
        },
        TransferEvent::ShutDown(Readiness::Ready(Err(e))) => {
            return TransferAction::Return(Readiness::Ready(Err(e)));
        },
        TransferEvent::ShutDown(Readiness::Ready(Ok(_))) => {
            let count: u64 = match state {
                TransferState::ShuttingDown(count) => *count,
                _ => 0,
            };
            *state = TransferState::Done(count);
        },
    }
    match state {
        TransferState::Running(_) => TransferAction::Copy,
        TransferState::ShuttingDown(_) => TransferAction::Shutdown,
        TransferState::Done(count) => TransferAction::Return(Readiness::Ready(Ok(*count))),
    }
}

/// Law: a direction that is done gives the same count at every further poll, and
/// asks for nothing more.
pub proof fn law_done_stays_done<E>(count: u64, event: TransferEvent<E>)
    requires
        TransferState::Done(count).expects(event),
    ensures
        TransferState::Done(count).after(event) == TransferState::Done(count),
        TransferState::Done(count).answer(event) == TransferAction::<E>::Return(
            Readiness::Ready(Ok(count)),
        ),
{
}

/// Law: a direction that is let work without a hitch asks for the copying, then for the
/// shutdown of the writing side, and then reports the count that the copying gave.
pub proof fn law_direction_works_to_its_end<E>(buffer: CopyBuffer, count: u64)
    ensures
        ({
            let running = TransferState::Running(buffer);
            let polled = TransferEvent::<E>::Polled;
            let copied = TransferEvent::<E>::Copied(Readiness::Ready(Ok(count)));
            let shut = TransferEvent::<E>::ShutDown(Readiness::Ready(Ok(())));
            &&& running.after(polled) == running
            &&& running.answer(polled) == TransferAction::<E>::Copy
            &&& running.expects(copied) && !running.expects(shut)
            &&& running.after(copied) == TransferState::ShuttingDown(count)
            &&& running.answer(copied) == TransferAction::<E>::Shutdown
            &&& running.after(copied).after(polled) == TransferState::ShuttingDown(count)
            &&& running.after(copied).answer(polled) == TransferAction::<E>::Shutdown
            &&& running.after(copied).expects(shut) && !running.after(copied).expects(copied)
            &&& running.after(copied).after(shut) == TransferState::Done(count)
            &&& running.after(copied).answer(shut) == TransferAction::Return(
                Readiness::Ready(Ok::<u64, E>(count)),
            )
            &&& running.after(copied).after(shut).answer(polled) == TransferAction::Return(
                Readiness::Ready(Ok::<u64, E>(count)),
            )
        }),
{
}

/// Law: work without outcome and a failure are handed on as they are, and leave the
/// direction where it was.
pub proof fn law_hitches_are_handed_on<E>(buffer: CopyBuffer, count: u64, error: E)
    ensures
        ({
            let running = TransferState::Running(buffer);
            let shutting = TransferState::ShuttingDown(count);
            let pending = TransferAction::<E>::Return(Readiness::Pending);
            let failed = TransferAction::<E>::Return(Readiness::Ready(Err(error)));
            let no_copy = TransferEvent::<E>::Copied(Readiness::Pending);
            let bad_copy = TransferEvent::<E>::Copied(Readiness::Ready(Err(error)));
            let no_shutdown = TransferEvent::<E>::ShutDown(Readiness::Pending);
            let bad_shutdown = TransferEvent::<E>::ShutDown(Readiness::Ready(Err(error)));
            &&& running.expects(no_copy) && running.expects(bad_copy)
            &&& running.answer(no_copy) == pending && running.after(no_copy) == running
            &&& running.answer(bad_copy) == failed && running.after(bad_copy) == running
            &&& shutting.expects(no_shutdown) && shutting.expects(bad_shutdown)
            &&& shutting.answer(no_shutdown) == pending && shutting.after(no_shutdown) == shutting
            &&& shutting.answer(bad_shutdown) == failed && shutting.after(bad_shutdown) == shutting
        }),
{
}

/// Law: a direction whose poll ended without its count has not moved on by the
/// event that ended it, so the next poll takes up the same work.
pub proof fn law_interrupted_work_is_resumed<E>(state: TransferState, event: TransferEvent<E>)
    requires
        state.expects(event),
        state.answer(event) matches TransferAction::Return(outcome) && !(outcome matches
            Readiness::Ready(Ok(_))),
    ensures
        state.after(event) == state,
        state.after(event).answer(TransferEvent::<E>::Polled) == state.wants::<E>(),
{
}

/// Law: a direction is done only after its copying ended with the count that is
/// reported, and after the writing side was then shut down.
pub proof fn law_done_was_copied_and_shut_down<E>(
    buffer: CopyBuffer,
    events: Seq<TransferEvent<E>>,
    count: u64,
) -> (moments: (int, int))
    requires
        TransferState::Running(buffer).after_all(events) == TransferState::Done(count),
    ensures
        0 <= moments.0 < moments.1 < events.len(),
        events[moments.0] == TransferEvent::<E>::Copied(Readiness::Ready(Ok(count))),
        events[moments.1] == TransferEvent::<E>::ShutDown(Readiness::Ready(Ok(()))),
    decreases events.len(),
{
    let start = TransferState::Running(buffer);
    let init = events.drop_last();
    if start.after_all(init) == TransferState::Done(count) {
        law_done_was_copied_and_shut_down(buffer, init, count)
    } else {
        let copied = lemma_shutting_down_was_copied(buffer, init, count);
        if let TransferEvent::ShutDown(Readiness::Ready(Ok(unit))) = events.last() {
            assert(unit == ());
        }
        (copied, events.len() - 1)
    }
}

/// A direction shuts down only after its copying ended with its count.
proof fn lemma_shutting_down_was_copied<E>(
    buffer: CopyBuffer,
    events: Seq<TransferEvent<E>>,
    count: u64,
) -> (moment: int)
    requires
        TransferState::Running(buffer).after_all(events) == TransferState::ShuttingDown(count),
    ensures
        0 <= moment < events.len(),
        events[moment] == TransferEvent::<E>::Copied(Readiness::Ready(Ok(count))),
    decreases events.len(),
{
    let start = TransferState::Running(buffer);
    let init = events.drop_last();
    if start.after_all(init) == TransferState::ShuttingDown(count) {
        lemma_shutting_down_was_copied(buffer, init, count)
    } else {
        events.len() - 1
    }
}

/// When a relay ends.
#[derive(Clone, Copy, Debug, PartialEq, Eq, Structural)]
pub enum ShutdownPolicy {
    /// When both directions are done.
    Graceful,
    /// When either direction is done.
    Brutal,
}

/// What a direction's poll gave, with its error set apart.
pub open spec fn unless_failed<E>(outcome: Readiness<Result<u64, E>>) -> Result<Readiness<u64>, E> {
    match outcome {
        Readiness::Ready(Err(e)) => Err(e),
        Readiness::Ready(Ok(count)) => Ok(Readiness::Ready(count)),
        Readiness::Pending => Ok(Readiness::Pending),
    }
}

/// Takes in the first direction of a polled relay: its error ends the poll before
/// the second direction is polled.
pub fn after_forward<E>(forward: Readiness<Result<u64, E>>) -> (go_on: Result<Readiness<u64>, E>)
    ensures
        go_on == unless_failed(forward),
        forward matches Readiness::Ready(Err(e)) ==> go_on == Err::<Readiness<u64>, E>(e),
        forward matches Readiness::Ready(Ok(a)) ==> go_on == Ok::<Readiness<u64>, E>(
            Readiness::Ready(a),
        ),
        forward is Pending ==> go_on == Ok::<Readiness<u64>, E>(Readiness::Pending),
{
    match forward {
        Readiness::Ready(Err(e)) => Err(e),
        Readiness::Ready(Ok(count)) => Ok(Readiness::Ready(count)),
        Readiness::Pending => Ok(Readiness::Pending),
    }
}

/// What a relay whose two directions came to `forward` and `backward` gives: their
/// counts, with 0 for a direction that was not waited for.
pub open spec fn relay_outcome(
    policy: ShutdownPolicy,
    forward: Readiness<u64>,
    backward: Readiness<u64>,
) -> Readiness<(u64, u64)> {
    match (forward, backward) {
        (Readiness::Ready(a), Readiness::Ready(b)) => Readiness::Ready((a, b)),
        (Readiness::Pending, Readiness::Pending) => Readiness::Pending,
        (Readiness::Ready(a), Readiness::Pending) => if policy == ShutdownPolicy::Brutal {
            Readiness::Ready((a, 0))
        } else {
            Readiness::Pending
        },
        (Readiness::Pending, Readiness::Ready(b)) => if policy == ShutdownPolicy::Brutal {
            Readiness::Ready((0, b))
        } else {
            Readiness::Pending
        },
    }
}

/// What the poll of a relay gives once both directions were polled: the error of the
/// second, or what the two have come to.
pub open spec fn poll_outcome<E>(
    policy: ShutdownPolicy,
    forward: Readiness<u64>,
    backward: Readiness<Result<u64, E>>,
) -> Readiness<Result<(u64, u64), E>> {
    match unless_failed(backward) {
        Err(e) => Readiness::Ready(Err(e)),
        Ok(backward) => match relay_outcome(policy, forward, backward) {
            Readiness::Ready(counts) => Readiness::Ready(Ok(counts)),
            Readiness::Pending => Readiness::Pending,
        },
    }
}

/// Takes in the second direction of a polled relay, and says what the poll gives.
pub fn after_backward<E>(
    policy: ShutdownPolicy,
    forward: Readiness<u64>,
    backward: Readiness<Result<u64, E>>,
) -> (outcome: Readiness<Result<(u64, u64), E>>)
    ensures
        outcome == poll_outcome(policy, forward, backward),
        forward matches Readiness::Ready(a) ==> (backward matches Readiness::Ready(Ok(b)) ==> outcome
            == Readiness::Ready(Ok::<(u64, u64), E>((a, b)))),
        backward matches Readiness::Ready(Err(e)) ==> outcome == Readiness::Ready(
            Err::<(u64, u64), E>(e),
        ),
        forward matches Readiness::Ready(a) ==> (backward is Pending ==> outcome == if policy
            == ShutdownPolicy::Brutal {
            Readiness::Ready(Ok::<(u64, u64), E>((a, 0)))
        } else {
            Readiness::Pending
        }),
        backward matches Readiness::Ready(Ok(b)) ==> (forward is Pending ==> outcome == if policy
            == ShutdownPolicy::Brutal {
            Readiness::Ready(Ok::<(u64, u64), E>((0, b)))
        } else {
            Readiness::Pending
        }),
        forward is Pending && backward is Pending ==> outcome is Pending,
{
    let brutal = policy == ShutdownPolicy::Brutal;
    match (forward, backward) {
        (_, Readiness::Ready(Err(e))) => Readiness::Ready(Err(e)),
        (Readiness::Ready(a), Readiness::Ready(Ok(b))) => Readiness::Ready(Ok((a, b))),
        (Readiness::Ready(a), Readiness::Pending) => if brutal {
            Readiness::Ready(Ok((a, 0)))
        } else {
            Readiness::Pending
        },
        (Readiness::Pending, Readiness::Ready(Ok(b))) => if brutal {
            Readiness::Ready(Ok((0, b)))
        } else {
            Readiness::Pending
        },
        (Readiness::Pending, Readiness::Pending) => Readiness::Pending,
    }
}

/// Where the poll of a relay stands.
#[derive(Debug, PartialEq, Eq)]
pub enum BidiState {
    /// The relay is not being polled.
    Idle,
    /// The first direction is being polled.
    PollingForward,
    /// The second direction is being polled; the first came to this.
    PollingBackward(Readiness<u64>),
}

/// What has happened to a relay.
pub enum BidiEvent<E> {
    /// The relay is polled.
    Polled,
    /// The first direction was polled.
    Forward(Readiness<Result<u64, E>>),
    /// The second direction was polled.
    Backward(Readiness<Result<u64, E>>),
}

/// What the poll of a relay asks for.
#[derive(Debug, PartialEq, Eq)]
pub enum BidiAction<E> {
    /// Poll the first direction.
    PollForward,
    /// Poll the second direction.
    PollBackward,
    /// The poll gives this.
    Return(Readiness<Result<(u64, u64), E>>),
}

impl BidiState {
    /// Whether `event` can happen in this state.
    pub open spec fn expects<E>(self, event: BidiEvent<E>) -> bool {
        match event {
            BidiEvent::Polled => self is Idle,
            BidiEvent::Forward(_) => self is PollingForward,
            BidiEvent::Backward(_) => self is PollingBackward,
        }
    }

    /// The state after `event`.
    pub open spec fn after<E>(self, event: BidiEvent<E>) -> BidiState {
        match event {
            BidiEvent::Polled => BidiState::PollingForward,
            BidiEvent::Forward(forward) => match unless_failed(forward) {
                Ok(forward) => BidiState::PollingBackward(forward),
                Err(_) => BidiState::Idle,
            },
            BidiEvent::Backward(_) => BidiState::Idle,
        }
    }

    /// What is asked for upon `event`: first the first direction, then, unless it
    /// failed, the second, and then the poll ends.
    pub open spec fn answer<E>(self, policy: ShutdownPolicy, event: BidiEvent<E>) -> BidiAction<E> {
        match event {
            BidiEvent::Polled => BidiAction::PollForward,
            BidiEvent::Forward(forward) => match unless_failed(forward) {
                Ok(_) => BidiAction::PollBackward,
                Err(e) => BidiAction::Return(Readiness::Ready(Err(e))),
            },
            BidiEvent::Backward(backward) => BidiAction::Return(
                poll_outcome(policy, self->PollingBackward_0, backward),
            ),
        }
    }
}

/// Moves the poll of a relay on by an event, and says what to do next.
pub fn bidi_step<E>(policy: ShutdownPolicy, state: &mut BidiState, event: BidiEvent<E>) -> (action:
    BidiAction<E>)
    requires
        old(state).expects(event),
    ensures
        *final(state) == old(state).after(event),
        action == old(state).answer(policy, event),
{
    match event {
        BidiEvent::Polled => {
            *state = BidiState::PollingForward;
            BidiAction::PollForward
        },
        BidiEvent::Forward(forward) => match after_forward(forward) {
            Ok(forward) => {
                *state = BidiState::PollingBackward(forward);
                BidiAction::PollBackward
            },
            Err(e) => {
                *state = BidiState::Idle;
                BidiAction::Return(Readiness::Ready(Err(e)))
            },
        },
        BidiEvent::Backward(backward) => {
            let forward: Readiness<u64> = match state {
                BidiState::PollingBackward(Readiness::Ready(count)) => Readiness::Ready(*count),
                _ => Readiness::Pending,
            };
            *state = BidiState::Idle;
            BidiAction::Return(after_backward(policy, forward, backward))
        },
    }
}

/// Law: every poll of a relay polls the first direction once and then, unless that
/// failed, the second once; it gives the first error, or what the two have come to,
/// and leaves the relay ready for the next poll.
pub proof fn law_poll_takes_each_direction_in_turn<E>(
    policy: ShutdownPolicy,
    forward: Readiness<Result<u64, E>>,
    backward: Readiness<Result<u64, E>>,
)
    ensures
        ({
            let idle = BidiState::Idle;
            let polled = BidiEvent::<E>::Polled;
            let first = idle.after(polled);
            let second = first.after(BidiEvent::Forward(forward));
            &&& idle.answer(policy, polled) == BidiAction::<E>::PollForward
            &&& first.expects(BidiEvent::Forward(forward))
            &&& match unless_failed(forward) {
                Err(e) => {
                    &&& first.answer(policy, BidiEvent::Forward(forward)) == BidiAction::Return(
                        Readiness::Ready(Err(e)),
                    )
                    &&& second == idle
                },
                Ok(reached) => {
                    &&& first.answer(policy, BidiEvent::Forward(forward))
                        == BidiAction::<E>::PollBackward
                    &&& second.expects(BidiEvent::Backward(backward))
                    &&& second.answer(policy, BidiEvent::Backward(backward)) == BidiAction::Return(
                        poll_outcome(policy, reached, backward),
                    )
                    &&& second.after(BidiEvent::Backward(backward)) == idle
                },
            }
        }),
{
}

/// Law: when both directions are done, whatever the policy, the first number is the
/// count of the first and the second that of the second. A direction that was not
/// waited for counts 0, and only the brutal policy does not wait.
pub proof fn law_counts_keep_their_direction(policy: ShutdownPolicy, a: u64, b: u64)
    ensures
        relay_outcome(policy, Readiness::Ready(a), Readiness::Ready(b)) == Readiness::Ready((a, b)),
        relay_outcome(ShutdownPolicy::Brutal, Readiness::Ready(a), Readiness::Pending)
            == Readiness::Ready((a, 0u64)),
        relay_outcome(ShutdownPolicy::Brutal, Readiness::Pending, Readiness::Ready(b))
            == Readiness::Ready((0u64, b)),
        relay_outcome(ShutdownPolicy::Graceful, Readiness::Ready(a), Readiness::Pending) is Pending,
        relay_outcome(ShutdownPolicy::Graceful, Readiness::Pending, Readiness::Ready(b)) is Pending,
        relay_outcome(policy, Readiness::Pending, Readiness::Pending) is Pending,
{
}

/// Law: a relay seen from its other end gives the same counts in the other order.
pub proof fn law_relay_is_symmetric(
    policy: ShutdownPolicy,
    forward: Readiness<u64>,
    backward: Readiness<u64>,
)
    ensures
        match relay_outcome(policy, forward, backward) {
            Readiness::Ready((a, b)) => relay_outcome(policy, backward, forward)
                == Readiness::Ready((b, a)),
            Readiness::Pending => relay_outcome(policy, backward, forward) is Pending,
        },
{
}

/// Law: over a whole poll the first error is what is given; without one, two directions
/// that are done give their counts in order, and the second direction is polled though
/// the first is not done.
pub proof fn law_poll_gives_first_error_or_counts<E>(
    policy: ShutdownPolicy,
    a: u64,
    b: u64,
    error: E,
)
    ensures
        ({
            let first = BidiState::Idle.after(BidiEvent::<E>::Polled);
            let failed = Readiness::Ready(Err::<u64, E>(error));
            let done_a = Readiness::Ready(Ok::<u64, E>(a));
            let done_b = Readiness::Ready(Ok::<u64, E>(b));
            let not_yet = Readiness::<Result<u64, E>>::Pending;
            let gives_error = BidiAction::Return(Readiness::Ready(Err::<(u64, u64), E>(error)));
            let after_a = first.after(BidiEvent::Forward(done_a));
            let after_none = first.after(BidiEvent::Forward(not_yet));
            &&& first == BidiState::PollingForward
            &&& first.answer(policy, BidiEvent::Forward(failed)) == gives_error
            &&& first.after(BidiEvent::Forward(failed)) == BidiState::Idle
            &&& first.answer(policy, BidiEvent::Forward(done_a)) == BidiAction::<E>::PollBackward
            &&& first.answer(policy, BidiEvent::Forward(not_yet)) == BidiAction::<E>::PollBackward
            &&& after_a.answer(policy, BidiEvent::Backward(failed)) == gives_error
            &&& after_none.answer(policy, BidiEvent::Backward(failed)) == gives_error
            &&& after_a.answer(policy, BidiEvent::Backward(done_b)) == BidiAction::Return(
                Readiness::Ready(Ok::<(u64, u64), E>((a, b))),
            )
            &&& after_none.answer(policy, BidiEvent::Backward(not_yet)) == BidiAction::Return(
                Readiness::<Result<(u64, u64), E>>::Pending,
            )
            &&& after_a.answer(policy, BidiEvent::Backward(not_yet)) == BidiAction::Return(
                if policy == ShutdownPolicy::Brutal {
                    Readiness::Ready(Ok::<(u64, u64), E>((a, 0)))
                } else {
                    Readiness::Pending
                },
            )
            &&& after_none.answer(policy, BidiEvent::Backward(done_b)) == BidiAction::Return(
                if policy == ShutdownPolicy::Brutal {
                    Readiness::Ready(Ok::<(u64, u64), E>((0, b)))
                } else {
                    Readiness::Pending
                },
            )
        }),
{
}

/// Law: a relay that ends when both directions are done gives both their counts;
/// it has ended under the brutal policy too, with the same counts.
pub proof fn law_graceful_end_is_brutal_end(forward: Readiness<u64>, backward: Readiness<u64>)
    ensures
        relay_outcome(ShutdownPolicy::Graceful, forward, backward) is Ready <==> forward is Ready
            && backward is Ready,
        relay_outcome(ShutdownPolicy::Brutal, forward, backward) is Ready <==> forward is Ready
            || backward is Ready,
        relay_outcome(ShutdownPolicy::Graceful, forward, backward) is Ready ==> relay_outcome(
            ShutdownPolicy::Graceful,
            forward,
            backward,
        ) == relay_outcome(ShutdownPolicy::Brutal, forward, backward),
{
}

} // verus!
