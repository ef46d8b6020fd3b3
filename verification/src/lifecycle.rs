//! How a dispatcher lives and ends.
use std::task::Poll;

use either::Either;
use vstd::prelude::*;
use vstd::std_specs::convert::FromSpec;

use crate::action::{CallResult, Effect, Event, Request, WriteOutcome};
use crate::error::IoDispatcherError;
use crate::inner::InnerView;
use crate::item::Protocol;
use crate::machine::{DispatcherView, IoDispatcherState};
use crate::moment::Moment;
use crate::run::Step;

verus! {

/// The place of a state in the life of a dispatcher.
pub open spec fn age(st: IoDispatcherState) -> int {
    match st {
        IoDispatcherState::Processing => 0,
        IoDispatcherState::Stop => 1,
        IoDispatcherState::Shutdown => 2,
    }
}

/// Whether `event` is a reply to `request`.
pub open spec fn answers<P: Protocol>(event: Event<P>, request: Request<P>) -> bool {
    match request {
        Request::PollResponse => event is Response,
        Request::WriteOutcomes => event is Written,
        Request::PollReady => event is Readiness,
        Request::ReadFlags => event is Flags,
        Request::TakeIoError => event is IoError,
        Request::Decode => event is Decoded,
        Request::Now => event is Now,
        Request::Call(_) => event is Called,
        Request::PollShutdown(_) => event is ServiceShutdown,
        Request::Return(_) => false,
    }
}

/// A dispatcher never goes back: from processing it comes to a stop, and from there to its
/// shutdown, one after the other.
pub proof fn life_goes_forward<P: Protocol>(state: DispatcherView<P>, step: Step<P>)
    requires
        state.wf(),
        state.allows(step),
    ensures
        age(state.st) <= age(state.stepped(step).st) <= age(state.st) + 1,
{
}

/// Each reply to what a step asks for is waited for afterwards, a time provided that the
/// deadline counted from it can be represented. Nothing is waited for once a poll is over.
pub proof fn replies_are_awaited<P: Protocol>(
    state: DispatcherView<P>,
    step: Step<P>,
    event: Event<P>,
)
    requires
        state.wf(),
        state.allows(step),
        state.request(step) is Some,
        event matches Event::Now(now) ==> now.fits(state.keepalive_timeout),
    ensures
        answers(event, state.request(step)->0) <==> state.stepped(step).awaits(event),
        state.request(step)->0 is Return <==> state.stepped(step).phase is Idle,
{
}

/// A frame is asked for only while the dispatcher is processing.
pub proof fn frames_while_processing<P: Protocol>(state: DispatcherView<P>, step: Step<P>)
    requires
        state.wf(),
        state.allows(step),
        state.request(step) == Some(Request::<P>::Decode),
    ensures
        state.st is Processing,
        state.stepped(step).st is Processing,
{
}

/// Once the dispatcher has come to a stop, and the service has been told of the error of
/// the transport, if there was one, the service is called no more.
pub proof fn no_calls_once_stopped<P: Protocol>(state: DispatcherView<P>, step: Step<P>)
    requires
        state.wf(),
        state.allows(step),
        !(state.st is Processing),
        !(state.phase is IoError),
    ensures
        !(state.request(step) matches Some(Request::Call(_))),
        forall|i: int|
            0 <= i < state.effects(step).len() ==> !(#[trigger] state.effects(step)[i] is Spawn),
{
}

/// The tasks of the transport are shut down exactly when the dispatcher goes from its stop
/// to its shutdown, and then no call is left to finish.
pub proof fn shutdown_after_last_response<P: Protocol>(state: DispatcherView<P>, step: Step<P>)
    requires
        state.wf(),
        state.allows(step),
    ensures
        state.effects(step).contains(Effect::ShutdownIo) <==> state.st is Stop && state.stepped(
            step,
        ).st is Shutdown,
        state.stepped(step).st is Shutdown ==> state.stepped(step).inner.queue.len() == 0,
{
    let effects = state.effects(step);
    if state.st is Stop && state.stepped(step).st is Shutdown {
        assert(effects[0] == Effect::<P>::ShutdownIo);
    }
}

/// After any run that has come to the shutdown, each call that was made is answered, and
/// its result is written.
pub proof fn all_answered_at_shutdown<P: Protocol>(
    now: Moment,
    keepalive_timeout: u16,
    steps: Seq<Step<P>>,
)
    requires
        now.fits(keepalive_timeout),
        crate::ordering::can_happen(crate::machine::made(now, keepalive_timeout), steps),
        crate::ordering::run(
            crate::machine::made::<P>(now, keepalive_timeout),
            steps,
        ).0.st is Shutdown,
    ensures
        ({
            let ledger = crate::ordering::run(
                crate::machine::made(now, keepalive_timeout),
                steps,
            ).1;
            &&& ledger.written.len() == ledger.calls
            &&& ledger.held is None
            &&& ledger.tasks.dom() == Set::<usize>::empty()
        }),
{
    crate::ordering::run_keeps_in_step(now, keepalive_timeout, steps);
}

/// A dispatcher ends only once it has come to its shutdown and the service has shut down.
/// It ends with an error if and only if the error that was met last is one of the service.
pub proof fn ends_after_shutdown<P: Protocol>(
    state: DispatcherView<P>,
    step: Step<P>,
    res: Result<(), P::ServiceError>,
)
    requires
        state.wf(),
        state.allows(step),
        state.request(step) == Some(Request::<P>::Return(Poll::Ready(res))),
    ensures
        state.st is Shutdown,
        step matches Step::Resume(Event::ServiceShutdown(Poll::Ready(_))),
        forall|err: P::ServiceError|
            res == Err::<(), P::ServiceError>(err) <==> state.inner.error == Some(
                IoDispatcherError::<P::ServiceError, P::EncoderError>::Service(err),
            ),
{
}

/// A poll that has not come to its end leaves someone to wake the dispatcher: the
/// transport is told to, or the service is shutting down.
pub proof fn pending_is_woken<P: Protocol>(state: DispatcherView<P>, step: Step<P>)
    requires
        state.wf(),
        state.allows(step),
        state.request(step) == Some(Request::<P>::Return(Poll::Pending)),
    ensures
        step == Step::<P>::Resume(Event::ServiceShutdown(Poll::Pending)) || {
            &&& state.effects(step).len() > 0
            &&& match state.effects(step).last() {
                Effect::ServiceNotReady | Effect::ReadMoreData | Effect::RegisterTask => true,
                _ => false,
            }
        },
{
}

/// The service is told of an error once: an error that it has been told of is not one to
/// tell it of. It is still an error.
pub proof fn error_told_once<P: Protocol>(inner: InnerView<P>)
    ensures
        inner.error_taken().error_item() is None,
        inner.error_taken().error is Some <==> inner.error is Some,
        inner.error_taken().outcome() == inner.outcome(),
{
}

/// When the answer of a call that has a task of its own leaves nothing to write, the
/// dispatcher is woken, so that one which waits for the last answer goes on.
pub proof fn last_answer_wakes<P: Protocol>(state: DispatcherView<P>, step: Step<P>)
    requires
        state.wf(),
        state.allows(step),
        step is Answer,
        state.inner.queue.len() > 0,
        state.stepped(step).inner.queue.len() == 0,
    ensures
        state.effects(step).len() > 0,
        state.effects(step).last() is WakeTask,
{
}

/// The last of some writes that failed, if one did, or else `before`.
pub open spec fn last_failed<P: Protocol>(
    before: Option<Either<P::ServiceError, P::EncoderError>>,
    outcomes: Seq<WriteOutcome<P>>,
) -> Option<Either<P::ServiceError, P::EncoderError>>
    decreases outcomes.len(),
{
    if outcomes.len() == 0 {
        before
    } else {
        match outcomes.last() {
            Ok(_) => last_failed::<P>(before, outcomes.drop_last()),
            Err(err) => Some(err),
        }
    }
}

/// The last failure in the steps of a run: that of a write, or of the service when it was
/// asked whether it is ready for a call.
pub open spec fn last_failure<P: Protocol>(
    init: DispatcherView<P>,
    steps: Seq<Step<P>>,
) -> Option<Either<P::ServiceError, P::EncoderError>>
    decreases steps.len(),
{
    if steps.len() == 0 {
        None
    } else {
        let before = last_failure(init, steps.drop_last());
        match steps.last() {
            Step::Resume(Event::Written(outcomes)) => last_failed::<P>(before, outcomes@),
            Step::Record(outcomes) => last_failed::<P>(before, outcomes),
            Step::Resume(Event::Readiness(Poll::Ready(Err(err)))) if crate::ordering::run(
                init,
                steps.drop_last(),
            ).0.phase is Readiness => Some(Either::Left(err)),
            _ => before,
        }
    }
}

/// Whether a step tells the dispatcher that it has ended.
pub open spec fn ends<P: Protocol>(step: Step<P>) -> bool {
    step matches Step::Resume(Event::ServiceShutdown(Poll::Ready(_)))
}

proof fn lemma_error_after<P: Protocol>(
    error: Option<IoDispatcherError<P::ServiceError, P::EncoderError>>,
    before: Option<Either<P::ServiceError, P::EncoderError>>,
    outcomes: Seq<WriteOutcome<P>>,
)
    ensures
        last_failed::<P>(None, outcomes) is None ==> {
            &&& crate::inner::error_after::<P>(error, outcomes) == error
            &&& last_failed::<P>(before, outcomes) == before
        },
        last_failed::<P>(None, outcomes) is Some ==> {
            &&& crate::inner::error_after::<P>(error, outcomes) == Some(
                IoDispatcherError::<P::ServiceError, P::EncoderError>::from_spec(
                    last_failed::<P>(None, outcomes)->0,
                ),
            )
            &&& last_failed::<P>(before, outcomes) == last_failed::<P>(None, outcomes)
        },
    decreases outcomes.len(),
{
    if outcomes.len() > 0 {
        lemma_error_after::<P>(error, before, outcomes.drop_last());
    }
}

/// What a step does to the error that is kept.
proof fn lemma_step_error<P: Protocol>(state: DispatcherView<P>, step: Step<P>)
    requires
        state.wf(),
        state.allows(step),
        !ends(step),
    ensures
        ({
            let inner = state.inner;
            let next = state.stepped(step).inner;
            match step {
                Step::Resume(Event::Written(outcomes)) => next.error
                    == crate::inner::error_after::<P>(inner.error, outcomes@),
                Step::Record(outcomes) => next.error == crate::inner::error_after::<P>(
                    inner.error,
                    outcomes,
                ),
                Step::Resume(
                    Event::Readiness(Poll::Ready(Err(err))),
                ) if state.phase is Readiness => next.error == Some(
                    IoDispatcherError::<P::ServiceError, P::EncoderError>::Service(err),
                ),
                _ => {
                    &&& next.error is Some <==> inner.error is Some || crate::keepalive::expires(
                        step,
                    )
                    &&& next.outcome() == inner.outcome()
                },
            }
        }),
{
}

/// After any run that has not ended, an error is kept if and only if something has failed
/// or the keep-alive deadline has stopped the dispatcher. It is an error of the service if
/// and only if the last failure is one.
#[verifier::spinoff_prover]
pub proof fn error_after_run<P: Protocol>(
    now: Moment,
    keepalive_timeout: u16,
    steps: Seq<Step<P>>,
)
    requires
        now.fits(keepalive_timeout),
        crate::ordering::can_happen(crate::machine::made(now, keepalive_timeout), steps),
        forall|i: int| 0 <= i < steps.len() ==> !ends(#[trigger] steps[i]),
    ensures
        ({
            let init = crate::machine::made::<P>(now, keepalive_timeout);
            let inner = crate::ordering::run(init, steps).0.inner;
            let failure = last_failure(init, steps);
            &&& inner.error is Some <==> failure is Some || crate::keepalive::has_expired(steps)
            &&& inner.outcome() == (match failure {
                Some(Either::Left(err)) => Err::<(), P::ServiceError>(err),
                _ => Ok(()),
            })
        }),
    decreases steps.len(),
{
    let init = crate::machine::made::<P>(now, keepalive_timeout);
    if steps.len() > 0 {
        let before = steps.drop_last();
        let step = steps.last();
        assert forall|i: int| 0 <= i < before.len() implies !ends(#[trigger] before[i]) by {
            assert(!ends(steps[i]));
        }
        error_after_run(now, keepalive_timeout, before);
        let (state, ledger) = crate::ordering::run(init, before);
        crate::ordering::run_keeps_in_step(now, keepalive_timeout, before);
        crate::ordering::step_keeps_in_step(state, ledger, step);
        assert(!ends(steps[steps.len() - 1]));
        lemma_step_error(state, step);
        crate::keepalive::lemma_has_expired(steps);
        match step {
            Step::Resume(Event::Written(outcomes)) => {
                lemma_error_after::<P>(state.inner.error, last_failure(init, before), outcomes@);
            },
            Step::Record(outcomes) => {
                lemma_error_after::<P>(state.inner.error, last_failure(init, before), outcomes);
            },
            _ => {},
        }
    }
}

/// A dispatcher ends with the error of the service if that is the last failure of its run,
/// else without an error.
pub proof fn ends_with_last_failure<P: Protocol>(
    now: Moment,
    keepalive_timeout: u16,
    steps: Seq<Step<P>>,
    step: Step<P>,
    res: Result<(), P::ServiceError>,
)
    requires
        now.fits(keepalive_timeout),
        crate::ordering::can_happen(crate::machine::made(now, keepalive_timeout), steps),
        forall|i: int| 0 <= i < steps.len() ==> !ends(#[trigger] steps[i]),
        crate::ordering::run(
            crate::machine::made::<P>(now, keepalive_timeout),
            steps,
        ).0.allows(step),
        crate::ordering::run(crate::machine::made(now, keepalive_timeout), steps).0.request(step)
            == Some(Request::<P>::Return(Poll::Ready(res))),
    ensures
        res == (match last_failure(crate::machine::made::<P>(now, keepalive_timeout), steps) {
            Some(Either::Left(err)) => Err::<(), P::ServiceError>(err),
            _ => Ok(()),
        }),
{
    error_after_run(now, keepalive_timeout, steps);
    crate::ordering::run_keeps_in_step(now, keepalive_timeout, steps);
    ends_after_shutdown(
        crate::ordering::run(crate::machine::made::<P>(now, keepalive_timeout), steps).0,
        step,
        res,
    );
}

/// Whether a step is a reason to stop: the service has failed when it was asked whether it is
/// ready, the transport is to stop, or the bytes received are no frame.
pub open spec fn is_reason_to_stop<P: Protocol>(state: DispatcherView<P>, step: Step<P>) -> bool {
    match step {
        Step::Resume(Event::Readiness(Poll::Ready(Err(_)))) => state.phase is Readiness,
        Step::Resume(Event::Flags { stopped, .. }) => stopped,
        Step::Resume(Event::Decoded(Err(_))) => true,
        _ => false,
    }
}

/// A dispatcher that is processing stops for a reason, and for no other; then it is not shut
/// down yet. One that has stopped is shut down if and only if the service has been polled
/// while no call was under way, whatever came of it.
pub proof fn what_stops<P: Protocol>(state: DispatcherView<P>, step: Step<P>)
    requires
        state.wf(),
        state.allows(step),
    ensures
        state.st is Processing ==> (state.stepped(step).st is Stop <==> is_reason_to_stop(
            state,
            step,
        )),
        state.st is Processing ==> !(state.stepped(step).st is Shutdown),
        state.st is Stop ==> (state.stepped(step).st is Shutdown <==> {
            &&& state.phase is Drain
            &&& step matches Step::Resume(Event::Readiness(_))
            &&& state.inner.queue.len() == 0
        }),
{
}

/// A dispatcher that has stopped, and has no call under way, comes to its end in one poll, as
/// soon as the service has shut down, whatever the service replies before that.
pub proof fn stopped_dispatcher_ends<P: Protocol>(
    state: DispatcherView<P>,
    res: Poll<Result<(), P::ServiceError>>,
)
    requires
        state.wf(),
        state.phase is Idle,
        state.st is Stop,
        state.inner.queue.len() == 0,
    ensures
        ({
            let polled = state.polled();
            let drained = polled.state.resumed(Event::Readiness(res));
            let ended = drained.state.resumed(Event::ServiceShutdown(Poll::Ready(())));
            &&& polled.request is PollReady
            &&& drained.effects == seq![Effect::<P>::ShutdownIo]
            &&& drained.request == Request::<P>::PollShutdown(state.inner.error is Some)
            &&& drained.state.st is Shutdown
            &&& ended.request matches Request::Return(Poll::Ready(_))
            &&& forall|err: P::ServiceError|
                ended.request == Request::<P>::Return(Poll::Ready(Err(err))) <==> state.inner.error
                    == Some(IoDispatcherError::<P::ServiceError, P::EncoderError>::Service(err))
        }),
{
    crate::replies::poll_begins(state);
    let polled = state.polled();
    crate::replies::after_drain(polled.state, res);
    let drained = polled.state.resumed(Event::Readiness(res));
    crate::replies::after_service_shutdown(drained.state, Poll::Ready(()));
}

/// The service is told, when it is shut down, whether something has failed or the deadline has
/// stopped the dispatcher in the run.
pub proof fn shutdown_tells_of_errors<P: Protocol>(
    now: Moment,
    keepalive_timeout: u16,
    steps: Seq<Step<P>>,
    is_err: bool,
)
    requires
        now.fits(keepalive_timeout),
        crate::ordering::can_happen(crate::machine::made(now, keepalive_timeout), steps),
        forall|i: int| 0 <= i < steps.len() ==> !ends(#[trigger] steps[i]),
        steps.len() > 0,
        crate::ordering::run(
            crate::machine::made(now, keepalive_timeout),
            steps.drop_last(),
        ).0.request(steps.last()) == Some(Request::<P>::PollShutdown(is_err)),
    ensures
        is_err <==> {
            ||| last_failure(crate::machine::made::<P>(now, keepalive_timeout), steps) is Some
            ||| crate::keepalive::has_expired(steps)
        },
{
    error_after_run(now, keepalive_timeout, steps);
    let init = crate::machine::made::<P>(now, keepalive_timeout);
    let before = steps.drop_last();
    crate::ordering::run_keeps_in_step(now, keepalive_timeout, before);
    let (state, ledger) = crate::ordering::run(init, before);
    crate::ordering::step_keeps_in_step(state, ledger, steps.last());
}

/// Each poll polls the call that is held, if there is one, before anything else. Whether or not
/// that call is answered, the poll then goes on to ask the service what the state of life asks
/// for, once what the answer gave rise to has been written.
pub proof fn held_call_comes_first<P: Protocol>(
    state: DispatcherView<P>,
    res: Poll<CallResult<P>>,
)
    requires
        state.wf(),
        state.phase is Idle,
    ensures
        state.polled().request is PollResponse <==> state.response is Some,
        state.response is Some ==> {
            let polled = state.polled().state;
            let request = polled.resumed(Event::Response(res)).request;
            &&& polled.response == state.response
            &&& res is Pending ==> polled.resumed(Event::Response(res)).state.response
                == state.response
            &&& res is Ready ==> polled.resumed(Event::Response(res)).state.response is None
            &&& request is WriteOutcomes || (if state.st is Shutdown {
                request is PollShutdown
            } else {
                request is PollReady
            })
        },
{
    crate::inner::lemma_leading_ready(state.inner.behind_first());
}

/// A transport that has data is read, and one that has none is waited for. One that is to stop
/// is asked for its error, unless there is another error to tell the service of.
pub proof fn transport_is_seen_to<P: Protocol>(
    state: DispatcherView<P>,
    stopped: bool,
    keepalive_err: bool,
    read_ready: bool,
)
    requires
        state.wf(),
        state.phase is Flags,
    ensures
        ({
            let step = Step::<P>::Resume(Event::Flags { stopped, keepalive_err, read_ready });
            let request = state.request(step)->0;
            &&& request is Decode <==> !stopped && read_ready
            &&& request is Return <==> !stopped && !read_ready
            &&& request is TakeIoError <==> stopped && crate::calls::calls(state, step).len() == 0
        }),
{
    let step = Step::<P>::Resume(Event::Flags { stopped, keepalive_err, read_ready });
    crate::calls::what_is_called(state, step);
}

/// What is waited for. The transport is told to get more data if and only if data is missing,
/// is told to wake the dispatcher if and only if it has no data or calls are to be finished,
/// and is marked as stopped if and only if the service has failed.
pub proof fn what_is_waited_for<P: Protocol>(state: DispatcherView<P>, step: Step<P>)
    requires
        state.wf(),
        state.allows(step),
    ensures
        state.effects(step).contains(Effect::ReadMoreData) <==> step == Step::<P>::Resume(
            Event::Decoded(Ok(None)),
        ),
        state.effects(step).contains(Effect::RegisterTask) <==> match step {
            Step::Resume(Event::Flags { stopped, read_ready, .. }) => !stopped && !read_ready,
            Step::Resume(Event::Readiness(_)) => state.phase is Drain && state.inner.queue.len()
                > 0,
            _ => false,
        },
        state.effects(step).contains(Effect::MarkStopped) <==> match step {
            Step::Resume(Event::Readiness(Poll::Ready(Err(_)))) => state.phase is Readiness,
            _ => false,
        },
        !state.effects(step).contains(Effect::StartIo),
{
    let effects = state.effects(step);
    if effects.len() > 0 {
        let first = effects[0];
        assert(first is ReadMoreData ==> effects.contains(Effect::ReadMoreData));
        assert(first is RegisterTask ==> effects.contains(Effect::RegisterTask));
        assert(first is MarkStopped ==> effects.contains(Effect::MarkStopped));
    }
}

} // verus!
