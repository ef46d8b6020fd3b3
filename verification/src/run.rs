//! Runs of a dispatcher: all that can happen to one from the time when it was made.
use vstd::prelude::*;

use crate::action::{CallResult, Effect, Event, Request, WriteOutcome};
use crate::item::Protocol;
use crate::machine::DispatcherView;

verus! {

/// One thing that happens to a dispatcher.
pub enum Step<P: Protocol> {
    /// A poll starts.
    Poll,
    /// A reply comes that a poll waits for.
    Resume(Event<P>),
    /// A call that has a task of its own is answered.
    Answer {
        /// The answer.
        item: CallResult<P>,
        /// The index of the call.
        response_idx: usize,
    },
    /// The outcomes of the writes that such an answer gave rise to.
    Record(Seq<WriteOutcome<P>>),
}

impl<P: Protocol> DispatcherView<P> {
    /// Whether a step can happen.
    pub open spec fn allows(self, step: Step<P>) -> bool {
        match step {
            Step::Poll => self.phase is Idle,
            Step::Resume(event) => self.awaits(event),
            Step::Answer { item, response_idx } => self.accepts(response_idx),
            Step::Record(_) => true,
        }
    }

    /// The state after a step.
    pub open spec fn stepped(self, step: Step<P>) -> Self {
        match step {
            Step::Poll => self.polled().state,
            Step::Resume(event) => self.resumed(event).state,
            Step::Answer { item, response_idx } => self.answered(item, response_idx),
            Step::Record(outcomes) => self.recorded(outcomes),
        }
    }

    /// The effects of a step.
    pub open spec fn effects(self, step: Step<P>) -> Seq<Effect<P>> {
        match step {
            Step::Poll => self.polled().effects,
            Step::Resume(event) => self.resumed(event).effects,
            Step::Answer { item, response_idx } => self.inner.answer_effects(
                item,
                response_idx,
                true,
            ),
            Step::Record(_) => Seq::empty(),
        }
    }

    /// What a step asks for.
    pub open spec fn request(self, step: Step<P>) -> Option<Request<P>> {
        match step {
            Step::Poll => Some(self.polled().request),
            Step::Resume(event) => Some(self.resumed(event).request),
            Step::Answer { .. } | Step::Record(_) => None,
        }
    }
}

/// Each step keeps what holds between any two steps, as long as the calls that are under
/// way can be counted.
pub proof fn step_keeps_wf<P: Protocol>(state: DispatcherView<P>, step: Step<P>)
    requires
        state.wf(),
        state.allows(step),
        state.stepped(step).inner.queue.len() <= usize::MAX,
    ensures
        state.stepped(step).wf(),
{
    let inner = state.inner;
    crate::inner::lemma_leading_ready(inner.behind_first());
    if let Step::Answer { item, response_idx } = step {
        if let Some(held) = state.response {
            crate::inner::lemma_stays_outstanding(inner, item, response_idx, held);
        }
    }
}

} // verus!
