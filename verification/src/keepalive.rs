//! The keep-alive deadline.
use std::task::Poll;

use vstd::prelude::*;

use crate::action::{Effect, Event};
use crate::item::Protocol;
use crate::machine::DispatcherView;
use crate::moment::Moment;
use crate::run::Step;

verus! {

/// The deadlines that are set after one more effect.
pub open spec fn did<P: Protocol>(deadlines: Set<Moment>, effect: Effect<P>) -> Set<Moment> {
    match effect {
        Effect::RegisterTimer { expire, prev } => deadlines.remove(prev).insert(expire),
        Effect::UnregisterTimer(expire) => deadlines.remove(expire),
        _ => deadlines,
    }
}

/// The deadlines that are set after some effects, in order.
pub open spec fn did_all<P: Protocol>(deadlines: Set<Moment>, effects: Seq<Effect<P>>) -> Set<
    Moment,
>
    decreases effects.len(),
{
    if effects.len() == 0 {
        deadlines
    } else {
        did(did_all(deadlines, effects.drop_last()), effects.last())
    }
}

/// The deadlines that a dispatcher which is processing has set: the one that its keep-alive
/// timeout gives, if it has one.
pub open spec fn expected<P: Protocol>(state: DispatcherView<P>) -> Set<Moment> {
    if state.keepalive_timeout != 0 {
        set![state.deadline()]
    } else {
        Set::empty()
    }
}

/// Whether a step tells the dispatcher to stop because the deadline has passed.
pub open spec fn expires<P: Protocol>(step: Step<P>) -> bool {
    step matches Step::Resume(Event::Flags { stopped, keepalive_err, .. }) && stopped
        && keepalive_err
}

/// Whether the keep-alive deadline has stopped the dispatcher in the steps of a run.
pub open spec fn has_expired<P: Protocol>(steps: Seq<Step<P>>) -> bool {
    exists|i: int| 0 <= i < steps.len() && #[trigger] expires(steps[i])
}

/// A longer run has expired if the shorter one has, or if its last step expires it.
pub proof fn lemma_has_expired<P: Protocol>(steps: Seq<Step<P>>)
    requires
        steps.len() > 0,
    ensures
        has_expired(steps) <==> has_expired(steps.drop_last()) || expires(
            steps.last(),
        ),
{
    let before = steps.drop_last();
    if has_expired(steps) {
        let i = choose|i: int|
            0 <= i < steps.len() && #[trigger] expires(steps[i]);
        if i < before.len() {
            assert(expires(before[i]));
        }
    }
    if has_expired(before) {
        let i = choose|i: int|
            0 <= i < before.len() && #[trigger] expires(before[i]);
        assert(expires(steps[i]));
    }
    if expires(steps.last()) {
        assert(expires(steps[steps.len() - 1]));
    }
}

/// Effects that concern no deadline can be left out at the end.
proof fn lemma_rest_quiet<P: Protocol>(deadlines: Set<Moment>, effects: Seq<Effect<P>>, n: int)
    requires
        0 <= n <= effects.len(),
        forall|i: int|
            n <= i < effects.len() ==> !(#[trigger] effects[i] is RegisterTimer) && !(
            effects[i] is UnregisterTimer),
    ensures
        did_all(deadlines, effects) == did_all(deadlines, effects.take(n)),
    decreases effects.len(),
{
    if n == effects.len() {
        assert(effects.take(n) == effects);
    } else {
        assert(effects.drop_last().take(n) == effects.take(n));
        lemma_rest_quiet(deadlines, effects.drop_last(), n);
    }
}

/// A new dispatcher has set its deadline, and no other.
pub proof fn made_sets_deadline<P: Protocol>(now: Moment, keepalive_timeout: u16)
    requires
        keepalive_timeout != 0,
    ensures
        did_all(
            Set::empty(),
            crate::machine::made_effects::<P>(now, keepalive_timeout),
        ) == expected(crate::machine::made::<P>(now, keepalive_timeout)),
{
    let effects = crate::machine::made_effects::<P>(now, keepalive_timeout);
    reveal_with_fuel(did_all, 3);
    assert(effects.drop_last().drop_last() == Seq::<Effect<P>>::empty());
}

/// Another timeout moves the deadline. Without a timeout there is none.
pub proof fn timeout_moves_deadline<P: Protocol>(state: DispatcherView<P>, timeout: u16)
    ensures
        did_all(expected(state), state.timeout_effects(timeout)) == expected(
            state.with_timeout(timeout),
        ),
{
    let effects = state.timeout_effects(timeout);
    reveal_with_fuel(did_all, 2);
    assert(effects.drop_last() == Seq::<Effect<P>>::empty());
}

/// While a dispatcher is processing, the one deadline that is set is its own, or none where
/// it has no timeout. When it comes to a stop, its deadline is called off, unless it is the
/// deadline that stopped it.
#[verifier::spinoff_prover]
pub proof fn deadline_follows_state<P: Protocol>(state: DispatcherView<P>, step: Step<P>)
    requires
        state.wf(),
        state.allows(step),
        state.st is Processing,
    ensures
        did_all(expected(state), state.effects(step)) == (if state.stepped(step).st is Processing {
            expected(state.stepped(step))
        } else if expires(step) {
            expected(state)
        } else {
            Set::empty()
        }),
{
    let effects = state.effects(step);
    let start = expected(state);
    reveal_with_fuel(did_all, 3);
    match step {
        Step::Resume(Event::Readiness(Poll::Ready(Err(_)))) => {
            assert(effects == seq![Effect::<P>::MarkStopped] + state.unregister());
            if state.keepalive_timeout != 0 {
                assert(effects.drop_last() == seq![Effect::<P>::MarkStopped]);
                assert(effects.drop_last().drop_last() == Seq::<Effect<P>>::empty());
            } else {
                lemma_rest_quiet(start, effects, 0);
            }
        },
        Step::Resume(Event::Flags { stopped, keepalive_err, .. }) if stopped && !keepalive_err
            && state.keepalive_timeout != 0 => {
            lemma_rest_quiet(start, effects, 1);
            assert(effects.take(1) == state.unregister());
            assert(effects.take(1).drop_last() == Seq::<Effect<P>>::empty());
        },
        Step::Resume(Event::Decoded(Err(_))) if state.keepalive_timeout != 0 => {
            lemma_rest_quiet(start, effects, 1);
            assert(effects.take(1) == state.unregister());
            assert(effects.take(1).drop_last() == Seq::<Effect<P>>::empty());
        },
        Step::Resume(Event::Now(now)) if now != state.updated => {
            lemma_rest_quiet(start, effects, 1);
            assert(effects.take(1).drop_last() == Seq::<Effect<P>>::empty());
        },
        _ => {
            lemma_rest_quiet(start, effects, 0);
            assert(effects.take(0) == Seq::<Effect<P>>::empty());
        },
    }
}

/// Once a dispatcher has come to a stop, it leaves the deadlines alone.
pub proof fn deadline_left_alone<P: Protocol>(
    state: DispatcherView<P>,
    step: Step<P>,
    deadlines: Set<Moment>,
)
    requires
        state.wf(),
        state.allows(step),
        !(state.st is Processing),
    ensures
        did_all(deadlines, state.effects(step)) == deadlines,
{
    let effects = state.effects(step);
    lemma_rest_quiet(deadlines, effects, 0);
    assert(effects.take(0) == Seq::<Effect<P>>::empty());
}

/// The deadlines that are set after the steps of a run, where the dispatcher `init` had set
/// its own.
pub open spec fn deadlines_after<P: Protocol>(
    init: DispatcherView<P>,
    steps: Seq<Step<P>>,
) -> Set<Moment>
    decreases steps.len(),
{
    if steps.len() == 0 {
        expected(init)
    } else {
        did_all(
            deadlines_after(init, steps.drop_last()),
            crate::ordering::run(init, steps.drop_last()).0.effects(steps.last()),
        )
    }
}

/// The time at which the last frame came in a run, or else the time `made` of its start.
pub open spec fn last_frame<P: Protocol>(made: Moment, steps: Seq<Step<P>>) -> Moment
    decreases steps.len(),
{
    if steps.len() == 0 {
        made
    } else {
        match steps.last() {
            Step::Resume(Event::Now(now)) => now,
            _ => last_frame(made, steps.drop_last()),
        }
    }
}

/// After any run in which a dispatcher is still processing, the one deadline that is set
/// lies the keep-alive timeout after the last frame, and there is none where there is no
/// timeout. After any other run, none is set, unless the deadline was what stopped it.
pub proof fn deadline_after_run<P: Protocol>(
    now: Moment,
    keepalive_timeout: u16,
    steps: Seq<Step<P>>,
)
    requires
        now.fits(keepalive_timeout),
        crate::ordering::can_happen(crate::machine::made(now, keepalive_timeout), steps),
    ensures
        ({
            let init = crate::machine::made::<P>(now, keepalive_timeout);
            let state = crate::ordering::run(init, steps).0;
            let deadlines = deadlines_after(init, steps);
            let own = if keepalive_timeout != 0 {
                set![last_frame(now, steps).later(keepalive_timeout)]
            } else {
                Set::empty()
            };
            if state.st is Processing {
                deadlines == own
            } else {
                deadlines == Set::<Moment>::empty() || {
                    &&& deadlines == own
                    &&& has_expired(steps)
                }
            }
        }),
        ({
            let state = crate::ordering::run(
                crate::machine::made::<P>(now, keepalive_timeout),
                steps,
            ).0;
            &&& state.updated == last_frame(now, steps)
            &&& state.keepalive_timeout == keepalive_timeout
        }),
    decreases steps.len(),
{
    let init = crate::machine::made::<P>(now, keepalive_timeout);
    if steps.len() > 0 {
        let before = steps.drop_last();
        let step = steps.last();
        deadline_after_run(now, keepalive_timeout, before);
        crate::ordering::run_keeps_in_step(now, keepalive_timeout, before);
        let (state, ledger) = crate::ordering::run(init, before);
        crate::ordering::step_keeps_in_step(state, ledger, step);
        lemma_has_expired(steps);
        if state.st is Processing {
            deadline_follows_state(state, step);
        } else {
            deadline_left_alone(state, step, deadlines_after(init, before));
        }
    }
}

/// The deadlines of a timeout that is counted from `updated`: one that lies the timeout after
/// it, or none where the timeout is zero.
pub open spec fn timed(updated: Moment, timeout: u16) -> Set<Moment> {
    if timeout == 0 {
        Set::empty()
    } else {
        set![Moment { secs: (updated.secs + timeout) as u64, nanos: updated.nanos }]
    }
}

/// The deadline that a dispatcher has lies its timeout after the last frame.
pub proof fn deadline_is_timed<P: Protocol>(state: DispatcherView<P>)
    ensures
        expected(state) == timed(state.updated, state.keepalive_timeout),
        state.updated.fits(state.keepalive_timeout) ==> {
            &&& state.deadline().secs == state.updated.secs + state.keepalive_timeout
            &&& state.deadline().nanos == state.updated.nanos
        },
{
}

/// Setting the timeout sets that very timeout, whatever it is, and no other field. Where the
/// deadline of the old timeout was the one that was set, that of the new timeout is the one
/// that is set afterwards: it lies the new timeout after the last frame, and there is none
/// where the new timeout is zero.
pub proof fn timeout_is_set<P: Protocol>(state: DispatcherView<P>, timeout: u16)
    requires
        state.updated.fits(state.keepalive_timeout),
        state.updated.fits(timeout),
    ensures
        ({
            let after = state.with_timeout(timeout);
            &&& after.keepalive_timeout == timeout
            &&& after.updated == state.updated
            &&& after.st == state.st
            &&& after.inner == state.inner
            &&& after.response == state.response
            &&& after.phase == state.phase
        }),
        did_all(
            timed(state.updated, state.keepalive_timeout),
            state.timeout_effects(timeout),
        ) == timed(state.updated, timeout),
        state.timeout_effects(timeout).len() == 1,
        state.timeout_effects(timeout)[0] is RegisterTimer <==> timeout != 0,
{
    timeout_moves_deadline(state, timeout);
}

/// A new dispatcher is processing. It has no error and no calls, has the timeout that it was
/// made with, counts it from the time at which it was made, and waits for a poll. The tasks of
/// the transport are started, and its deadline is set.
pub proof fn made_is_new<P: Protocol>(now: Moment, keepalive_timeout: u16)
    requires
        now.fits(keepalive_timeout),
        keepalive_timeout != 0,
    ensures
        ({
            let state = crate::machine::made::<P>(now, keepalive_timeout);
            &&& state.st is Processing
            &&& state.inner.error is None
            &&& state.inner.queue.len() == 0
            &&& state.response is None
            &&& state.phase is Idle
            &&& state.updated == now
            &&& state.keepalive_timeout == keepalive_timeout
            &&& state.wf()
        }),
        ({
            let effects = crate::machine::made_effects::<P>(now, keepalive_timeout);
            &&& did_all(Set::empty(), effects) == timed(now, keepalive_timeout)
            &&& effects.len() == 2
            &&& effects[0] is RegisterTimer
            &&& effects[1] is StartIo
        }),
        crate::dispatcher::KEEPALIVE_TIMEOUT == 30,
{
    made_sets_deadline::<P>(now, keepalive_timeout);
}

} // verus!
