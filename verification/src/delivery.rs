//! The frames are handed to the service in the order in which they were decoded, each
//! once.
use vstd::prelude::*;

use crate::action::{Effect, Event, Request};
use crate::item::{DispatcherItem, Protocol};
use crate::machine::{DispatcherView, Phase};
use crate::moment::Moment;
use crate::run::Step;

verus! {

/// The frames that were decoded in the steps of a run.
pub open spec fn decoded<P: Protocol>(steps: Seq<Step<P>>) -> Seq<P::Item>
    decreases steps.len(),
{
    if steps.len() == 0 {
        Seq::empty()
    } else {
        match steps.last() {
            Step::Resume(Event::Decoded(Ok(Some(el)))) => decoded(steps.drop_last()).push(el),
            _ => decoded(steps.drop_last()),
        }
    }
}

/// The frames among the items that the service is called with by some effects.
pub open spec fn frames<P: Protocol>(effects: Seq<Effect<P>>) -> Seq<P::Item>
    decreases effects.len(),
{
    if effects.len() == 0 {
        Seq::empty()
    } else {
        match effects.last() {
            Effect::Spawn { item: DispatcherItem::Item(el), .. } => frames(
                effects.drop_last(),
            ).push(el),
            _ => frames(effects.drop_last()),
        }
    }
}

/// The frames that the service is called with in a step.
pub open spec fn step_frames<P: Protocol>(state: DispatcherView<P>, step: Step<P>) -> Seq<P::Item> {
    match state.request(step) {
        Some(Request::Call(DispatcherItem::Item(el))) => frames(state.effects(step)).push(el),
        _ => frames(state.effects(step)),
    }
}

/// The frames that the service was called with in the steps of a run.
pub open spec fn handed<P: Protocol>(init: DispatcherView<P>, steps: Seq<Step<P>>) -> Seq<P::Item>
    decreases steps.len(),
{
    if steps.len() == 0 {
        Seq::empty()
    } else {
        handed(init, steps.drop_last()) + step_frames(
            crate::ordering::run(init, steps.drop_last()).0,
            steps.last(),
        )
    }
}

/// The frame that a dispatcher has decoded and not yet handed to the service, while it asks
/// for the time.
pub open spec fn in_hand<P: Protocol>(state: DispatcherView<P>) -> Seq<P::Item> {
    match state.phase {
        Phase::Clock(el) => seq![el],
        _ => Seq::empty(),
    }
}

proof fn lemma_no_frames<P: Protocol>(effects: Seq<Effect<P>>)
    requires
        forall|i: int|
            0 <= i < effects.len() ==> !(#[trigger] effects[i] matches Effect::Spawn {
                item: DispatcherItem::Item(_),
                ..
            }),
    ensures
        frames(effects) == Seq::<P::Item>::empty(),
    decreases effects.len(),
{
    if effects.len() > 0 {
        assert(!(effects[effects.len() - 1] matches Effect::Spawn {
            item: DispatcherItem::Item(_),
            ..
        }));
        lemma_no_frames(effects.drop_last());
    }
}

/// A step hands the frame in hand, or the frame that it decodes, to the service, or keeps
/// it in hand.
pub proof fn step_hands_frames_on<P: Protocol>(state: DispatcherView<P>, step: Step<P>)
    requires
        state.wf(),
        state.allows(step),
    ensures
        step_frames(state, step) + in_hand(state.stepped(step)) == in_hand(state) + (match step {
            Step::Resume(Event::Decoded(Ok(Some(el)))) => seq![el],
            _ => Seq::empty(),
        }),
{
    let effects = state.effects(step);
    reveal_with_fuel(frames, 3);
    match step {
        Step::Resume(Event::Decoded(Ok(Some(_)))) => {},
        Step::Resume(Event::Now(now)) => {
            if now != state.updated && state.response is Some {
                assert(effects.drop_last().drop_last() == Seq::<Effect<P>>::empty());
            }
        },
        _ => {
            lemma_no_frames(effects);
        },
    }
}

/// After any run, the service has been called with the frames that were decoded, in order
/// and each once. At most the last frame is still to be handed on, while the time is asked
/// for.
pub proof fn frames_in_order<P: Protocol>(
    now: Moment,
    keepalive_timeout: u16,
    steps: Seq<Step<P>>,
)
    requires
        now.fits(keepalive_timeout),
        crate::ordering::can_happen(crate::machine::made(now, keepalive_timeout), steps),
    ensures
        ({
            let init = crate::machine::made::<P>(now, keepalive_timeout);
            handed(init, steps) + in_hand(crate::ordering::run(init, steps).0) == decoded(steps)
        }),
    decreases steps.len(),
{
    let init = crate::machine::made::<P>(now, keepalive_timeout);
    if steps.len() > 0 {
        let before = steps.drop_last();
        let step = steps.last();
        frames_in_order(now, keepalive_timeout, before);
        crate::ordering::run_keeps_in_step(now, keepalive_timeout, before);
        let (state, ledger) = crate::ordering::run(init, before);
        crate::ordering::step_keeps_in_step(state, ledger, step);
        step_hands_frames_on(state, step);
        let next = crate::ordering::run(init, steps).0;
        assert(handed(init, steps) + in_hand(next) == handed(init, before) + (step_frames(
            state,
            step,
        ) + in_hand(next)));
    }
}

} // verus!
