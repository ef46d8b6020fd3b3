//! When the service is called, and with what.
use std::task::Poll;

use vstd::prelude::*;

use crate::action::{Effect, Event, Request, WriteOutcome};
use crate::error::IoDispatcherError;
use crate::item::{DispatcherItem, Protocol};
use crate::machine::{DispatcherView, Phase};
use crate::moment::Moment;
use crate::run::Step;

verus! {

/// The items that the service is called with, in tasks of their own, by some effects.
pub open spec fn spawned<P: Protocol>(effects: Seq<Effect<P>>) -> Seq<DispatcherItem<P>>
    decreases effects.len(),
{
    if effects.len() == 0 {
        Seq::empty()
    } else {
        match effects.last() {
            Effect::Spawn { item, .. } => spawned(effects.drop_last()).push(item),
            _ => spawned(effects.drop_last()),
        }
    }
}

/// The items that the service is called with in a step.
pub open spec fn calls<P: Protocol>(state: DispatcherView<P>, step: Step<P>) -> Seq<
    DispatcherItem<P>,
> {
    match state.request(step) {
        Some(Request::Call(item)) => spawned(state.effects(step)).push(item),
        _ => spawned(state.effects(step)),
    }
}

/// The item that tells the service why it is that the transport stops, if it is to be told:
/// that a response could not be encoded, or that the deadline has passed.
pub open spec fn reason<P: Protocol>(
    error: Option<IoDispatcherError<P::ServiceError, P::EncoderError>>,
    keepalive_err: bool,
) -> Seq<DispatcherItem<P>> {
    match error {
        Some(IoDispatcherError::Encoder(err)) => seq![DispatcherItem::EncoderError(err)],
        Some(IoDispatcherError::KeepAlive) => seq![DispatcherItem::KeepAliveTimeout],
        Some(IoDispatcherError::Service(_)) => Seq::empty(),
        Some(IoDispatcherError::Handled) => Seq::empty(),
        None => if keepalive_err {
            seq![DispatcherItem::KeepAliveTimeout]
        } else {
            Seq::empty()
        },
    }
}

proof fn lemma_none_spawned<P: Protocol>(effects: Seq<Effect<P>>)
    requires
        forall|i: int| 0 <= i < effects.len() ==> !(#[trigger] effects[i] is Spawn),
    ensures
        spawned(effects) == Seq::<DispatcherItem<P>>::empty(),
    decreases effects.len(),
{
    if effects.len() > 0 {
        assert(!(effects[effects.len() - 1] is Spawn));
        lemma_none_spawned(effects.drop_last());
    }
}

/// What is called where the service is called with `item` and nothing else.
proof fn lemma_one_call<P: Protocol>(
    state: DispatcherView<P>,
    event: Event<P>,
    first: Seq<Effect<P>>,
    item: DispatcherItem<P>,
)
    requires
        crate::replies::calls_service(state, state.resumed(event), first, item),
        forall|i: int| 0 <= i < first.len() ==> !(#[trigger] first[i] is Spawn),
    ensures
        calls(state, Step::Resume(event)) == seq![item],
{
    lemma_none_spawned(first);
}

/// The service is called with each frame once it is decoded, with the error of the decoder,
/// with the error of the transport, and with the reason why the transport stops; and never
/// with anything else, nor at another time.
pub proof fn what_is_called<P: Protocol>(state: DispatcherView<P>, step: Step<P>)
    requires
        state.wf(),
        state.allows(step),
    ensures
        calls(state, step) == (match step {
            Step::Resume(Event::Decoded(Ok(Some(el)))) => if state.keepalive_timeout == 0 {
                seq![DispatcherItem::Item(el)]
            } else {
                Seq::empty()
            },
            Step::Resume(Event::Now(_)) => seq![DispatcherItem::Item(state.phase->Clock_0)],
            Step::Resume(Event::Decoded(Err(err))) => seq![DispatcherItem::DecoderError(err)],
            Step::Resume(Event::IoError(Some(err))) => seq![DispatcherItem::IoError(err)],
            Step::Resume(Event::Flags { stopped, keepalive_err, .. }) => if stopped {
                reason::<P>(state.inner.error, keepalive_err)
            } else {
                Seq::empty()
            },
            _ => Seq::<DispatcherItem<P>>::empty(),
        }),
{
    let effects = state.effects(step);
    match step {
        Step::Resume(Event::Decoded(res)) => {
            crate::replies::after_decoded(state, res);
            let off = crate::replies::calls_off::<P>(state.updated, state.keepalive_timeout);
            match res {
                Ok(Some(el)) => {
                    if state.keepalive_timeout == 0 {
                        lemma_one_call(
                            state,
                            Event::Decoded(res),
                            Seq::empty(),
                            DispatcherItem::Item(el),
                        );
                    } else {
                        lemma_none_spawned(effects);
                    }
                },
                Err(err) => lemma_one_call(
                    state,
                    Event::Decoded(res),
                    off,
                    DispatcherItem::DecoderError(err),
                ),
                Ok(None) => lemma_none_spawned(effects),
            }
        },
        Step::Resume(Event::Now(now)) => {
            let el = state.phase->Clock_0;
            crate::replies::after_now(state, el, now);
            let first = if effects.len() > 0 && effects[0] is RegisterTimer {
                seq![effects[0]]
            } else {
                Seq::empty()
            };
            if now != state.updated {
                if state.response is Some {
                    assert(effects[0] == effects.drop_last()[0]);
                    assert(effects.drop_last() == first);
                } else {
                    assert(effects == first);
                }
            }
            lemma_one_call(state, Event::Now(now), first, DispatcherItem::Item(el));
        },
        Step::Resume(Event::IoError(Some(err))) => {
            crate::replies::after_io_error(state, Some(err));
            lemma_one_call(
                state,
                Event::IoError(Some(err)),
                Seq::empty(),
                DispatcherItem::IoError(err),
            );
        },
        Step::Resume(Event::Flags { stopped, keepalive_err, read_ready }) if stopped => {
            crate::replies::after_stop(state, keepalive_err, read_ready);
            let first = if keepalive_err {
                Seq::empty()
            } else {
                crate::replies::calls_off::<P>(state.updated, state.keepalive_timeout)
            };
            let told = reason::<P>(state.inner.error, keepalive_err);
            if told.len() > 0 {
                lemma_one_call(
                    state,
                    Event::Flags { stopped, keepalive_err, read_ready },
                    first,
                    told[0],
                );
            } else {
                lemma_none_spawned(effects);
            }
        },
        _ => {
            lemma_none_spawned(effects);
        },
    }
}

/// An error is told to the service. When a transport stops, an error of the encoder, or that
/// the deadline has passed, is told in that very step, whether or not the deadline has passed
/// since. An error that is to be told becomes one that has been told only in a step that calls
/// the service with it, and is told in no other step.
pub proof fn errors_are_told<P: Protocol>(state: DispatcherView<P>, step: Step<P>)
    requires
        state.wf(),
        state.allows(step),
    ensures
        step matches Step::Resume(Event::Flags { stopped, keepalive_err, .. }) ==> (stopped
            ==> calls(state, step) == reason::<P>(state.inner.error, keepalive_err)),
        forall|err: P::EncoderError|
            state.inner.error == Some(
                IoDispatcherError::<P::ServiceError, P::EncoderError>::Encoder(err),
            ) && (state.stepped(step).inner.error matches Some(IoDispatcherError::Handled))
                ==> #[trigger] calls(state, step) == seq![DispatcherItem::<P>::EncoderError(err)],
        state.inner.error matches Some(IoDispatcherError::KeepAlive) ==> (state.stepped(
            step,
        ).inner.error matches Some(IoDispatcherError::Handled) ==> calls(state, step) == seq![
            DispatcherItem::<P>::KeepAliveTimeout,
        ]),
        state.inner.error is None ==> (state.stepped(step).inner.error matches Some(
            IoDispatcherError::Handled,
        ) ==> calls(state, step) == seq![DispatcherItem::<P>::KeepAliveTimeout]),
        calls(state, step).len() > 0 && (calls(state, step)[0] is EncoderError
            || calls(state, step)[0] is KeepAliveTimeout) ==> {
            state.stepped(step).inner.error matches Some(IoDispatcherError::Handled)
        },
{
    what_is_called(state, step);
    match step {
        Step::Resume(Event::Written(outcomes)) => {
            lemma_never_handled::<P>(state.inner.error, outcomes@);
        },
        Step::Record(outcomes) => {
            lemma_never_handled::<P>(state.inner.error, outcomes);
        },
        Step::Resume(Event::Flags { stopped, keepalive_err, read_ready }) if stopped => {
            crate::replies::after_stop(state, keepalive_err, read_ready);
        },
        _ => {},
    }
}

/// A write that fails leaves an error that is still to be dealt with.
proof fn lemma_never_handled<P: Protocol>(
    error: Option<IoDispatcherError<P::ServiceError, P::EncoderError>>,
    outcomes: Seq<WriteOutcome<P>>,
)
    ensures
        crate::inner::error_after::<P>(error, outcomes) == error || !(
        crate::inner::error_after::<P>(error, outcomes) matches Some(IoDispatcherError::Handled)),
    decreases outcomes.len(),
{
    if outcomes.len() > 0 {
        lemma_never_handled::<P>(error, outcomes.drop_last());
    }
}

/// Whether, after the steps of a run, the service has said in this poll that it is ready, and
/// has neither been called nor said anything else since.
pub open spec fn is_ready<P: Protocol>(init: DispatcherView<P>, steps: Seq<Step<P>>) -> bool
    decreases steps.len(),
{
    if steps.len() == 0 {
        false
    } else {
        let before = steps.drop_last();
        if calls(crate::ordering::run(init, before).0, steps.last()).len() > 0 {
            false
        } else {
            match steps.last() {
                Step::Poll => false,
                Step::Resume(Event::Readiness(Poll::Ready(Ok(_)))) => true,
                Step::Resume(Event::Readiness(_)) => false,
                _ => is_ready(init, before),
            }
        }
    }
}

proof fn lemma_ready_phases<P: Protocol>(
    now: Moment,
    keepalive_timeout: u16,
    steps: Seq<Step<P>>,
)
    requires
        now.fits(keepalive_timeout),
        crate::ordering::can_happen(crate::machine::made(now, keepalive_timeout), steps),
    ensures
        ({
            let init = crate::machine::made::<P>(now, keepalive_timeout);
            match crate::ordering::run(init, steps).0.phase {
                Phase::Flags | Phase::IoError | Phase::Decode | Phase::Clock(_) => is_ready(
                    init,
                    steps,
                ),
                _ => true,
            }
        }),
    decreases steps.len(),
{
    let init = crate::machine::made::<P>(now, keepalive_timeout);
    if steps.len() > 0 {
        let before = steps.drop_last();
        lemma_ready_phases(now, keepalive_timeout, before);
        crate::ordering::run_keeps_in_step(now, keepalive_timeout, before);
        let (state, ledger) = crate::ordering::run(init, before);
        crate::ordering::step_keeps_in_step(state, ledger, steps.last());
        what_is_called(state, steps.last());
    }
}

/// The service is called only when it is ready: before each call, and before each frame that
/// is asked for, it has said so in the same poll, and has neither been called nor said
/// anything else since. So it is called once for each time that it says so, at most.
pub proof fn called_when_ready<P: Protocol>(
    now: Moment,
    keepalive_timeout: u16,
    steps: Seq<Step<P>>,
    step: Step<P>,
)
    requires
        now.fits(keepalive_timeout),
        crate::ordering::can_happen(crate::machine::made(now, keepalive_timeout), steps),
        crate::ordering::run(
            crate::machine::made::<P>(now, keepalive_timeout),
            steps,
        ).0.allows(step),
    ensures
        ({
            let init = crate::machine::made::<P>(now, keepalive_timeout);
            let state = crate::ordering::run(init, steps).0;
            &&& calls(state, step).len() <= 1
            &&& calls(state, step).len() > 0 || state.request(step) == Some(Request::<P>::Decode)
                ==> is_ready(init, steps)
        }),
{
    lemma_ready_phases(now, keepalive_timeout, steps);
    crate::ordering::run_keeps_in_step(now, keepalive_timeout, steps);
    let state = crate::ordering::run(crate::machine::made::<P>(now, keepalive_timeout), steps).0;
    what_is_called(state, step);
}

/// A service that is not ready is left alone: the poll is over, the task that reads is paused,
/// and nothing of the state changes, whether or not a call is held. That task is woken by a
/// service that is ready, and by nothing else.
pub proof fn not_ready_pauses<P: Protocol>(state: DispatcherView<P>, step: Step<P>)
    requires
        state.wf(),
        state.allows(step),
    ensures
        state.effects(step).contains(Effect::ServiceNotReady) <==> {
            &&& state.phase is Readiness
            &&& step == Step::<P>::Resume(Event::Readiness(Poll::Pending))
        },
        state.effects(step).contains(Effect::RestartRead) <==> {
            &&& state.phase is Readiness
            &&& step matches Step::Resume(Event::Readiness(Poll::Ready(Ok(_))))
        },
        state.phase is Readiness && step == Step::<P>::Resume(Event::Readiness(Poll::Pending))
            ==> {
            &&& state.request(step) == Some(Request::<P>::Return(Poll::Pending))
            &&& state.effects(step) == seq![Effect::<P>::ServiceNotReady]
            &&& crate::replies::same(state, state.stepped(step))
        },
{
    let effects = state.effects(step);
    if let Step::Resume(Event::Readiness(res)) = step {
        if state.phase is Readiness {
            crate::replies::after_readiness(state, res);
            assert(res is Pending ==> effects[0] == Effect::<P>::ServiceNotReady);
            assert((res matches Poll::Ready(Ok(_))) ==> effects[0] == Effect::<P>::RestartRead);
        }
    }
}

} // verus!
