//! What each reply leads to, whatever the reply is and whatever else is under way.
//!
//! The statements speak of the fields of the state, of the effects and of the request, so
//! that each of them can be held against the transport and the service.
use std::task::Poll;

use either::Either;
use vstd::prelude::*;
use vstd::std_specs::convert::FromSpec;

use crate::action::{CallResult, Effect, Event, Request, WriteOutcome};
use crate::error::IoDispatcherError;
use crate::inner::InnerView;
use crate::item::{DispatcherItem, Protocol};
use crate::machine::{DispatcherView, IoDispatcherState, Outcome, Phase};
use crate::moment::Moment;
use crate::service_result::ServiceResult;

verus! {

/// The sum of two numbers, which wraps around as indices do.
pub open spec fn wrapped(base: usize, n: int) -> int {
    if base + n <= usize::MAX {
        base + n
    } else {
        base + n - usize::MAX - 1
    }
}

/// The effects that call off the deadline `timeout` seconds after `updated`, if the timeout
/// is not zero.
pub open spec fn calls_off<P: Protocol>(updated: Moment, timeout: u16) -> Seq<Effect<P>> {
    if timeout == 0 {
        Seq::empty()
    } else {
        seq![
            Effect::UnregisterTimer(
                Moment { secs: (updated.secs + timeout) as u64, nanos: updated.nanos },
            ),
        ]
    }
}

/// The timeout stays, and so does the time that it is counted from.
pub open spec fn same_clock<P: Protocol>(
    before: DispatcherView<P>,
    after: DispatcherView<P>,
) -> bool {
    before.updated == after.updated && before.keepalive_timeout == after.keepalive_timeout
}

/// The calls that are under way stay.
pub open spec fn same_calls<P: Protocol>(
    before: DispatcherView<P>,
    after: DispatcherView<P>,
) -> bool {
    &&& before.inner.base == after.inner.base
    &&& before.inner.queue == after.inner.queue
    &&& before.response == after.response
}

/// The whole state stays, but for the reply that is waited for.
pub open spec fn same<P: Protocol>(before: DispatcherView<P>, after: DispatcherView<P>) -> bool {
    &&& same_clock(before, after)
    &&& same_calls(before, after)
    &&& before.st == after.st
    &&& before.inner.error == after.inner.error
}

/// The poll is over, and has not come to the end of the dispatcher.
pub open spec fn waits<P: Protocol>(outcome: Outcome<P>) -> bool {
    outcome.state.phase is Idle && outcome.request == Request::<P>::Return(Poll::Pending)
}

/// The poll goes on with what the state of life asks for: the service is asked whether it is
/// ready, or is shut down and told whether there is an error.
pub open spec fn lives_on<P: Protocol>(outcome: Outcome<P>) -> bool {
    match outcome.state.st {
        IoDispatcherState::Processing => outcome.state.phase is Readiness
            && outcome.request is PollReady,
        IoDispatcherState::Stop => outcome.state.phase is Drain && outcome.request is PollReady,
        IoDispatcherState::Shutdown => outcome.state.phase is Shutdown && outcome.request
            == Request::<P>::PollShutdown(outcome.state.inner.error is Some),
    }
}

/// A poll begins: with the call that is held, if there is one.
pub open spec fn begins<P: Protocol>(outcome: Outcome<P>) -> bool {
    if outcome.state.response is Some {
        outcome.state.phase is Response && outcome.request is PollResponse
    } else {
        lives_on(outcome)
    }
}

/// After a call: while the dispatcher is processing the service is asked whether it is ready
/// for the next, else a poll begins.
pub open spec fn follows_call<P: Protocol>(outcome: Outcome<P>) -> bool {
    if outcome.state.st is Processing {
        outcome.state.phase is Readiness && outcome.request is PollReady
    } else {
        begins(outcome)
    }
}

/// The service is called with `item`, after the effects `first`, and with nothing else.
///
/// If no call is held, the new one is to be held. Else it gets a task of its own, the next
/// index and the last place in the queue.
pub open spec fn calls_service<P: Protocol>(
    before: DispatcherView<P>,
    outcome: Outcome<P>,
    first: Seq<Effect<P>>,
    item: DispatcherItem<P>,
) -> bool {
    let after = outcome.state;
    if before.response is None {
        &&& outcome.request == Request::Call(item)
        &&& after.phase is Call
        &&& outcome.effects == first
        &&& same_calls(before, after)
    } else {
        &&& outcome.effects.len() == first.len() + 1
        &&& outcome.effects.drop_last() == first
        &&& outcome.effects.last() matches Effect::Spawn { item: given, response_idx }
        &&& given == item
        &&& response_idx == wrapped(before.inner.base, before.inner.queue.len() as int)
        &&& after.inner.base == before.inner.base
        &&& after.inner.queue == before.inner.queue.push(ServiceResult::Pending)
        &&& after.response == before.response
        &&& follows_call(outcome)
    }
}

/// The answer `item` of the call at the front of the queue leaves it, and is written by the
/// first of the effects. Those behind it go with it as far as they are answered, and no
/// further. Any other answer takes its place in the queue and waits.
pub open spec fn releases<P: Protocol>(
    before: InnerView<P>,
    after: InnerView<P>,
    item: CallResult<P>,
    response_idx: usize,
    effects: Seq<Effect<P>>,
) -> bool {
    let n = effects.len() as int;
    &&& after.error == before.error
    &&& if response_idx == before.base {
        &&& n >= 1
        &&& effects[0] == Effect::<P>::Write(item)
        &&& n <= before.queue.len() || n == 1
        &&& forall|i: int|
            #![trigger effects[i]]
            1 <= i < n ==> before.queue[i] is Ready && effects[i] == Effect::<P>::Write(
                before.queue[i]->Ready_0,
            )
        &&& n < before.queue.len() ==> before.queue[n] is Pending
        &&& after.queue == (if before.queue.len() == 0 {
            before.queue
        } else {
            before.queue.skip(n)
        })
        &&& after.base == wrapped(before.base, n)
    } else {
        &&& n == 0
        &&& after.base == before.base
        &&& after.queue.len() == before.queue.len()
        &&& forall|i: int|
            #![trigger after.queue[i]]
            0 <= i < before.queue.len() ==> after.queue[i] == (if wrapped(before.base, i)
                == response_idx {
                ServiceResult::Ready(item)
            } else {
                before.queue[i]
            })
    }
}

/// What an answer writes, and what it leaves in the queue.
pub proof fn answer_releases<P: Protocol>(
    inner: InnerView<P>,
    item: CallResult<P>,
    response_idx: usize,
)
    requires
        inner.accepts(response_idx),
        inner.queue.len() <= usize::MAX,
    ensures
        releases(
            inner,
            inner.answered(item, response_idx),
            item,
            response_idx,
            inner.answer_effects(item, response_idx, false),
        ),
        ({
            let effects = inner.answer_effects(item, response_idx, true);
            let quiet = inner.answer_effects(item, response_idx, false);
            if response_idx == inner.base && inner.answered(item, response_idx).queue.len() == 0 {
                effects == quiet.push(Effect::WakeTask)
            } else {
                effects == quiet
            }
        }),
{
    let rest = inner.behind_first();
    crate::inner::lemma_leading_ready(rest);
    let effects = inner.answer_effects(item, response_idx, false);
    let n = effects.len() as int;
    if response_idx == inner.base {
        assert(n == 1 + crate::inner::leading_ready(rest));
        assert forall|i: int|
            #![trigger effects[i]]
            1 <= i < n implies inner.queue[i] is Ready && effects[i] == Effect::<P>::Write(
            inner.queue[i]->Ready_0,
        ) by {
            assert(rest[i - 1] is Ready);
            assert(inner.queue[i] == rest[i - 1]);
        }
        if n < inner.queue.len() {
            assert(rest[n - 1] is Pending);
        }
        let after = inner.answered(item, response_idx);
        if inner.queue.len() > 0 {
            assert(after.queue == inner.queue.skip(n));
        } else {
            assert(after.queue == inner.queue);
        }
    }
}

/// A poll begins with the call that is held, and changes nothing by itself.
pub proof fn poll_begins<P: Protocol>(state: DispatcherView<P>)
    ensures
        begins(state.polled()),
        same(state, state.polled().state),
        state.polled().effects.len() == 0,
{
}

/// A call that is held and not answered is left alone, and the poll goes on.
///
/// Its answer is taken: the call is held no more, what can be written is written, and where
/// something is written, the dispatcher asks how that went.
pub proof fn after_response<P: Protocol>(state: DispatcherView<P>, res: Poll<CallResult<P>>)
    requires
        state.wf(),
        state.phase is Response,
    ensures
        ({
            let outcome = state.resumed(Event::Response(res));
            let after = outcome.state;
            &&& same_clock(state, after)
            &&& after.st == state.st
            &&& match res {
                Poll::Pending => {
                    &&& same(state, after)
                    &&& outcome.effects.len() == 0
                    &&& lives_on(outcome)
                },
                Poll::Ready(item) => {
                    &&& after.response is None
                    &&& releases(
                        state.inner,
                        after.inner,
                        item,
                        state.response->0,
                        outcome.effects,
                    )
                    &&& if outcome.effects.len() > 0 {
                        after.phase is ResponseWrites && outcome.request is WriteOutcomes
                    } else {
                        lives_on(outcome)
                    }
                },
            }
        }),
{
    if let Poll::Ready(item) = res {
        answer_releases(state.inner, item, state.response->0);
        let outcome = state.resumed(Event::Response(res));
        assert(outcome.effects == state.inner.answer_effects(item, state.response->0, false));
    }
}

/// A write fails with an error of the service on the left, and of the encoder on the right.
pub proof fn sides_of_a_failed_write<S, U>(own: S, err: U)
    ensures
        IoDispatcherError::<S, U>::from_spec(Either::Left(own)) == IoDispatcherError::<
            S,
            U,
        >::Service(own),
        IoDispatcherError::<S, U>::from_spec(Either::Right(err)) == IoDispatcherError::<
            S,
            U,
        >::Encoder(err),
{
}

/// The error that is kept after some writes is that of the last one that failed: the error of
/// the service, or else that of the encoder. If none failed, it is the error that was kept.
pub proof fn failed_write_is_kept<P: Protocol>(
    error: Option<IoDispatcherError<P::ServiceError, P::EncoderError>>,
    outcomes: Seq<WriteOutcome<P>>,
    n: int,
)
    requires
        0 <= n <= outcomes.len(),
        forall|i: int| n <= i < outcomes.len() ==> (#[trigger] outcomes[i]) is Ok,
        n > 0 ==> outcomes[n - 1] is Err,
    ensures
        crate::inner::error_after::<P>(error, outcomes) == (if n == 0 {
            error
        } else {
            match outcomes[n - 1] {
                Err(Either::Left(err)) => Some(IoDispatcherError::Service(err)),
                Err(Either::Right(err)) => Some(IoDispatcherError::Encoder(err)),
                Ok(_) => error,
            }
        }),
    decreases outcomes.len(),
{
    if n < outcomes.len() {
        let before = outcomes.drop_last();
        assert(outcomes[outcomes.len() - 1] is Ok);
        assert forall|i: int| n <= i < before.len() implies (#[trigger] before[i]) is Ok by {
            assert(outcomes[i] is Ok);
        }
        failed_write_is_kept::<P>(error, before, n);
    }
}

/// The outcomes of writes change the error that is kept, and nothing else. Then the poll goes
/// on, after the call that it was made for.
pub proof fn after_written<P: Protocol>(
    state: DispatcherView<P>,
    outcomes: Vec<WriteOutcome<P>>,
)
    requires
        state.phase is ResponseWrites || state.phase is CallWrite,
    ensures
        ({
            let outcome = state.resumed(Event::Written(outcomes));
            let after = outcome.state;
            &&& same_clock(state, after)
            &&& same_calls(state, after)
            &&& after.st == state.st
            &&& after.inner.error == crate::inner::error_after::<P>(
                state.inner.error,
                outcomes@,
            )
            &&& outcome.effects.len() == 0
            &&& if state.phase is CallWrite {
                follows_call(outcome)
            } else {
                lives_on(outcome)
            }
        }),
{
}

/// A service that is not ready pauses the task that reads and ends the poll, whether or not a
/// call is held. A service that is ready wakes that task, and the transport is looked at. One
/// that fails stops the dispatcher, which keeps the error.
pub proof fn after_readiness<P: Protocol>(
    state: DispatcherView<P>,
    res: Poll<Result<(), P::ServiceError>>,
)
    requires
        state.phase is Readiness,
    ensures
        ({
            let outcome = state.resumed(Event::Readiness(res));
            let after = outcome.state;
            &&& same_clock(state, after)
            &&& same_calls(state, after)
            &&& match res {
                Poll::Pending => {
                    &&& waits(outcome)
                    &&& outcome.effects == seq![Effect::<P>::ServiceNotReady]
                    &&& same(state, after)
                },
                Poll::Ready(Ok(_)) => {
                    &&& outcome.request is ReadFlags
                    &&& after.phase is Flags
                    &&& outcome.effects == seq![Effect::<P>::RestartRead]
                    &&& same(state, after)
                },
                Poll::Ready(Err(err)) => {
                    &&& begins(outcome)
                    &&& outcome.effects == seq![Effect::<P>::MarkStopped] + calls_off::<P>(
                        state.updated,
                        state.keepalive_timeout,
                    )
                    &&& after.st is Stop
                    &&& after.inner.error == Some(
                        IoDispatcherError::<P::ServiceError, P::EncoderError>::Service(err),
                    )
                },
            }
        }),
{
}

/// While the last calls are finished, it does not matter what the service replies when it is
/// polled. If no call is under way, the tasks of the transport are shut down, and then the
/// service is, in the same step. If one is, the poll is over.
pub proof fn after_drain<P: Protocol>(
    state: DispatcherView<P>,
    res: Poll<Result<(), P::ServiceError>>,
)
    requires
        state.wf(),
        state.phase is Drain,
    ensures
        ({
            let outcome = state.resumed(Event::Readiness(res));
            let after = outcome.state;
            &&& same_clock(state, after)
            &&& same_calls(state, after)
            &&& after.inner.error == state.inner.error
            &&& if state.inner.queue.len() == 0 {
                &&& after.st is Shutdown
                &&& after.phase is Shutdown
                &&& outcome.effects == seq![Effect::<P>::ShutdownIo]
                &&& outcome.request == Request::<P>::PollShutdown(state.inner.error is Some)
            } else {
                &&& after.st is Stop
                &&& waits(outcome)
                &&& outcome.effects == seq![Effect::<P>::RegisterTask]
            }
        }),
{
}

/// A call, after some effects, is a call with the item and nothing else.
proof fn lemma_calls<P: Protocol>(
    state: DispatcherView<P>,
    next: DispatcherView<P>,
    first: Seq<Effect<P>>,
    item: DispatcherItem<P>,
)
    requires
        state.inner.queue.len() <= usize::MAX,
        same_calls(state, next),
    ensures
        calls_service(state, next.called(item).after(first), first, item),
        calls_service(state, next.called(item), Seq::empty(), item),
        next.called(item).state.st == next.st,
        next.called(item).state.inner.error == next.inner.error,
        same_clock(next, next.called(item).state),
{
    let outcome = next.called(item);
    assert(first + Seq::<Effect<P>>::empty() == first);
    if state.response is Some {
        assert(outcome.effects == seq![outcome.effects.last()]);
        assert(outcome.effects.drop_last() == Seq::<Effect<P>>::empty());
        assert((first + outcome.effects).drop_last() == first);
    }
}

/// A transport that is to stop stops the dispatcher: its deadline is called off, unless it is
/// what has passed, and the service is called with the error to tell it of, if there is one.
/// If there is none, the transport is asked for its error.
///
/// The error to tell of is one of the encoder, or that the deadline has passed. An error of
/// the service, or one that it has been told of, is none, and stays as it is.
pub proof fn after_stop<P: Protocol>(
    state: DispatcherView<P>,
    keepalive_err: bool,
    read_ready: bool,
)
    requires
        state.inner.queue.len() <= usize::MAX,
        state.phase is Flags,
    ensures
        ({
            let outcome = state.resumed(
                Event::Flags { stopped: true, keepalive_err, read_ready },
            );
            let after = outcome.state;
            let first = if keepalive_err {
                Seq::empty()
            } else {
                calls_off::<P>(state.updated, state.keepalive_timeout)
            };
            &&& same_clock(state, after)
            &&& after.st is Stop
            &&& match state.inner.error {
                Some(IoDispatcherError::Encoder(err)) => {
                    &&& calls_service(state, outcome, first, DispatcherItem::EncoderError(err))
                    &&& after.inner.error matches Some(IoDispatcherError::Handled)
                },
                Some(IoDispatcherError::KeepAlive) => {
                    &&& calls_service(state, outcome, first, DispatcherItem::KeepAliveTimeout)
                    &&& after.inner.error matches Some(IoDispatcherError::Handled)
                },
                None => if keepalive_err {
                    &&& calls_service(state, outcome, first, DispatcherItem::KeepAliveTimeout)
                    &&& after.inner.error matches Some(IoDispatcherError::Handled)
                } else {
                    &&& outcome.request is TakeIoError
                    &&& after.phase is IoError
                    &&& outcome.effects == first
                    &&& same_calls(state, after)
                    &&& after.inner.error is None
                },
                Some(IoDispatcherError::Service(_)) | Some(IoDispatcherError::Handled) => {
                    &&& outcome.request is TakeIoError
                    &&& after.phase is IoError
                    &&& outcome.effects == first
                    &&& same_calls(state, after)
                    &&& after.inner.error == state.inner.error
                },
            }
        }),
{
    let first = if keepalive_err {
        Seq::empty()
    } else {
        calls_off::<P>(state.updated, state.keepalive_timeout)
    };
    let inner = if keepalive_err {
        state.inner.expired()
    } else {
        state.inner
    };
    let next = DispatcherView {
        st: IoDispatcherState::Stop,
        inner: inner.error_taken(),
        ..state
    };
    if let Some(item) = inner.error_item() {
        lemma_calls(state, next, first, item);
    }
    assert(first + Seq::<Effect<P>>::empty() == first);
}

/// A transport that goes on is read where it has data, else the poll is over.
pub proof fn after_flags<P: Protocol>(
    state: DispatcherView<P>,
    keepalive_err: bool,
    read_ready: bool,
)
    requires
        state.phase is Flags,
    ensures
        ({
            let outcome = state.resumed(
                Event::Flags { stopped: false, keepalive_err, read_ready },
            );
            &&& same(state, outcome.state)
            &&& if read_ready {
                &&& outcome.request is Decode
                &&& outcome.state.phase is Decode
                &&& outcome.effects.len() == 0
            } else {
                &&& waits(outcome)
                &&& outcome.effects == seq![Effect::<P>::RegisterTask]
            }
        }),
{
}

/// The service is called with the error of the transport. Without one, a poll begins.
pub proof fn after_io_error<P: Protocol>(state: DispatcherView<P>, err: Option<P::IoError>)
    requires
        state.inner.queue.len() <= usize::MAX,
        state.phase is IoError,
    ensures
        ({
            let outcome = state.resumed(Event::IoError(err));
            let after = outcome.state;
            &&& same_clock(state, after)
            &&& after.st == state.st
            &&& after.inner.error == state.inner.error
            &&& match err {
                Some(err) => calls_service(
                    state,
                    outcome,
                    Seq::empty(),
                    DispatcherItem::IoError(err),
                ),
                None => {
                    &&& follows_call(outcome)
                    &&& outcome.effects.len() == 0
                    &&& same_calls(state, after)
                },
            }
        }),
{
    if let Some(err) = err {
        lemma_calls(state, state, Seq::empty(), DispatcherItem::IoError(err));
    }
}

/// A frame is handed to the service: at once where there is no timeout, else the time is asked
/// for and the frame is kept for it. Where data is missing, the poll is over. What is no frame
/// stops the dispatcher, calls its deadline off, and is told to the service.
pub proof fn after_decoded<P: Protocol>(
    state: DispatcherView<P>,
    res: Result<Option<P::Item>, P::DecoderError>,
)
    requires
        state.inner.queue.len() <= usize::MAX,
        state.phase is Decode,
    ensures
        ({
            let outcome = state.resumed(Event::Decoded(res));
            let after = outcome.state;
            &&& same_clock(state, after)
            &&& after.inner.error == state.inner.error
            &&& match res {
                Ok(Some(el)) => {
                    &&& after.st == state.st
                    &&& if state.keepalive_timeout == 0 {
                        calls_service(state, outcome, Seq::empty(), DispatcherItem::Item(el))
                    } else {
                        &&& outcome.request is Now
                        &&& after.phase == Phase::<P>::Clock(el)
                        &&& outcome.effects.len() == 0
                        &&& same_calls(state, after)
                    }
                },
                Ok(None) => {
                    &&& waits(outcome)
                    &&& outcome.effects == seq![Effect::<P>::ReadMoreData]
                    &&& same(state, after)
                },
                Err(err) => {
                    &&& after.st is Stop
                    &&& calls_service(
                        state,
                        outcome,
                        calls_off::<P>(state.updated, state.keepalive_timeout),
                        DispatcherItem::DecoderError(err),
                    )
                },
            }
        }),
{
    let first = calls_off::<P>(state.updated, state.keepalive_timeout);
    match res {
        Ok(Some(el)) => lemma_calls(state, state, Seq::empty(), DispatcherItem::Item(el)),
        Err(err) => lemma_calls(
            state,
            DispatcherView { st: IoDispatcherState::Stop, ..state },
            first,
            DispatcherItem::DecoderError(err),
        ),
        Ok(None) => {},
    }
}

/// The frame that was kept is handed to the service, and nothing but the time changes besides.
/// The deadline moves from the timeout after the last time to the timeout after this one; if
/// it is the same time, it stays.
pub proof fn after_now<P: Protocol>(state: DispatcherView<P>, el: P::Item, now: Moment)
    requires
        state.inner.queue.len() <= usize::MAX,
        state.phase == Phase::<P>::Clock(el),
    ensures
        ({
            let outcome = state.resumed(Event::Now(now));
            let after = outcome.state;
            let timeout = state.keepalive_timeout;
            let first = if now == state.updated {
                Seq::empty()
            } else {
                seq![
                    Effect::<P>::RegisterTimer {
                        expire: Moment { secs: (now.secs + timeout) as u64, nanos: now.nanos },
                        prev: Moment {
                            secs: (state.updated.secs + timeout) as u64,
                            nanos: state.updated.nanos,
                        },
                    },
                ]
            };
            &&& after.updated == now
            &&& after.keepalive_timeout == timeout
            &&& after.st == state.st
            &&& after.inner.error == state.inner.error
            &&& calls_service(state, outcome, first, DispatcherItem::Item(el))
        }),
{
    let timeout = state.keepalive_timeout;
    let next = DispatcherView { updated: now, ..state };
    let expire = Moment { secs: (now.secs + timeout) as u64, nanos: now.nanos };
    let prev = Moment {
        secs: (state.updated.secs + timeout) as u64,
        nanos: state.updated.nanos,
    };
    lemma_calls(
        state,
        next,
        seq![Effect::RegisterTimer { expire, prev }],
        DispatcherItem::Item(el),
    );
    lemma_calls(state, state, Seq::empty(), DispatcherItem::Item(el));
}

/// A new call that is not answered is held, with the next index and the last place in the
/// queue. The result of one that is answered is written if no other call is under way, and the
/// dispatcher asks how that went; else it takes the last place in the queue.
pub proof fn after_called<P: Protocol>(state: DispatcherView<P>, res: Poll<CallResult<P>>)
    requires
        state.inner.queue.len() <= usize::MAX,
        state.phase is Call,
    ensures
        ({
            let outcome = state.resumed(Event::Called(res));
            let after = outcome.state;
            &&& same_clock(state, after)
            &&& after.st == state.st
            &&& after.inner.error == state.inner.error
            &&& after.inner.base == state.inner.base
            &&& match res {
                Poll::Pending => {
                    &&& after.response is Some
                    &&& after.response->0 == wrapped(
                        state.inner.base,
                        state.inner.queue.len() as int,
                    )
                    &&& after.inner.queue == state.inner.queue.push(ServiceResult::Pending)
                    &&& outcome.effects.len() == 0
                    &&& follows_call(outcome)
                },
                Poll::Ready(item) => {
                    &&& after.response == state.response
                    &&& if state.inner.queue.len() == 0 {
                        &&& outcome.effects == seq![Effect::<P>::Write(item)]
                        &&& outcome.request is WriteOutcomes
                        &&& after.phase is CallWrite
                        &&& after.inner.queue == state.inner.queue
                    } else {
                        &&& after.inner.queue == state.inner.queue.push(
                            ServiceResult::Ready(item),
                        )
                        &&& outcome.effects.len() == 0
                        &&& follows_call(outcome)
                    }
                },
            }
        }),
{
}

/// Once the service has shut down, the dispatcher ends: with the error of the service, if that
/// is the error that is kept, else without one. Until then, the poll is over.
pub proof fn after_service_shutdown<P: Protocol>(state: DispatcherView<P>, res: Poll<()>)
    requires
        state.phase is Shutdown,
    ensures
        ({
            let outcome = state.resumed(Event::ServiceShutdown(res));
            let after = outcome.state;
            &&& same_clock(state, after)
            &&& same_calls(state, after)
            &&& after.st == state.st
            &&& after.phase is Idle
            &&& outcome.effects.len() == 0
            &&& match res {
                Poll::Pending => waits(outcome) && same(state, after),
                Poll::Ready(_) => {
                    &&& after.inner.error is None
                    &&& outcome.request == Request::<P>::Return(
                        Poll::Ready(
                            match state.inner.error {
                                Some(IoDispatcherError::Service(err)) => Err(err),
                                Some(IoDispatcherError::Encoder(_)) => Ok(()),
                                Some(IoDispatcherError::KeepAlive) => Ok(()),
                                Some(IoDispatcherError::Handled) => Ok(()),
                                None => Ok(()),
                            },
                        ),
                    )
                },
            }
        }),
{
}

/// The answer of a call that has a task of its own changes the queue, and nothing else. The
/// dispatcher is woken if and only if the queue has been emptied.
pub proof fn after_answer<P: Protocol>(
    state: DispatcherView<P>,
    item: CallResult<P>,
    response_idx: usize,
)
    requires
        state.accepts(response_idx),
        state.inner.queue.len() <= usize::MAX,
    ensures
        ({
            let after = state.answered(item, response_idx);
            let effects = state.inner.answer_effects(item, response_idx, true);
            let emptied = response_idx == state.inner.base && after.inner.queue.len() == 0;
            &&& same_clock(state, after)
            &&& after.st == state.st
            &&& after.response == state.response
            &&& after.phase == state.phase
            &&& emptied ==> effects.len() > 0 && effects.last() is WakeTask
            &&& releases(
                state.inner,
                after.inner,
                item,
                response_idx,
                if emptied {
                    effects.drop_last()
                } else {
                    effects
                },
            )
        }),
{
    answer_releases(state.inner, item, response_idx);
    let quiet = state.inner.answer_effects(item, response_idx, false);
    assert(quiet.push(Effect::<P>::WakeTask).drop_last() == quiet);
}

/// The outcomes of the writes that such an answer gave rise to change the error that is kept,
/// and nothing else.
pub proof fn after_record<P: Protocol>(
    state: DispatcherView<P>,
    outcomes: Seq<WriteOutcome<P>>,
)
    ensures
        ({
            let after = state.recorded(outcomes);
            &&& same_clock(state, after)
            &&& same_calls(state, after)
            &&& after.st == state.st
            &&& after.phase == state.phase
            &&& after.inner.error == crate::inner::error_after::<P>(state.inner.error, outcomes)
        }),
{
}

/// A result has a place if it is that of the call at the front, or of another call in the
/// queue, and is not that of the call that is held.
pub proof fn accepts_what_is_queued<P: Protocol>(state: DispatcherView<P>, response_idx: usize)
    requires
        state.inner.queue.len() <= usize::MAX,
    ensures
        state.accepts(response_idx) <==> {
            &&& response_idx == state.inner.base || exists|i: int|
                0 <= i < state.inner.queue.len() && #[trigger] wrapped(state.inner.base, i)
                    == response_idx
            &&& state.response != Some(response_idx)
        },
{
    let i = state.inner.position(response_idx);
    assert(wrapped(state.inner.base, i) == response_idx);
}

} // verus!
