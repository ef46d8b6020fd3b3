//! The queue that puts the responses of the service into the order of the calls.
use std::collections::VecDeque;

use either::Either;
use vstd::prelude::*;

use crate::action::{CallResult, Effect, WriteOutcome};
use crate::error::IoDispatcherError;
use crate::item::{DispatcherItem, Protocol};
use crate::service_result::ServiceResult;

verus! {

/// The number of answered calls at the front of a queue.
pub open spec fn leading_ready<T>(queue: Seq<ServiceResult<T>>) -> nat
    decreases queue.len(),
{
    if queue.len() > 0 && queue[0] is Ready {
        1 + leading_ready(queue.drop_first())
    } else {
        0
    }
}

/// The calls that `leading_ready` counts are answered, and the one behind them is not.
pub proof fn lemma_leading_ready<T>(queue: Seq<ServiceResult<T>>)
    ensures
        leading_ready(queue) <= queue.len(),
        forall|i: int| 0 <= i < leading_ready(queue) ==> queue[i] is Ready,
        leading_ready(queue) < queue.len() ==> queue[leading_ready(queue) as int] is Pending,
    decreases queue.len(),
{
    if queue.len() > 0 && queue[0] is Ready {
        let rest = queue.drop_first();
        lemma_leading_ready(rest);
        assert forall|i: int| 0 <= i < leading_ready(queue) implies queue[i] is Ready by {
            if i > 0 {
                assert(rest[i - 1] is Ready);
            }
        }
    }
}

/// The effects that write the answers of the first `n` calls of a queue.
pub open spec fn writes<P: Protocol>(queue: Seq<ServiceResult<CallResult<P>>>, n: nat) -> Seq<
    Effect<P>,
> {
    Seq::new(n, |i: int| Effect::Write(queue[i]->Ready_0))
}

/// The error that is kept after some writes: that of the last write that failed.
pub open spec fn error_after<P: Protocol>(
    error: Option<IoDispatcherError<P::ServiceError, P::EncoderError>>,
    outcomes: Seq<WriteOutcome<P>>,
) -> Option<IoDispatcherError<P::ServiceError, P::EncoderError>>
    decreases outcomes.len(),
{
    if outcomes.len() == 0 {
        error
    } else {
        match outcomes.last() {
            Ok(_) => error_after::<P>(error, outcomes.drop_last()),
            Err(Either::Left(err)) => Some(IoDispatcherError::Service(err)),
            Err(Either::Right(err)) => Some(IoDispatcherError::Encoder(err)),
        }
    }
}

/// The view of [`IoDispatcherInner`].
#[verifier::ext_equal]
pub struct InnerView<P: Protocol> {
    /// The error that was met last.
    pub error: Option<IoDispatcherError<P::ServiceError, P::EncoderError>>,
    /// The index of the call at the front of the queue.
    pub base: usize,
    /// The calls that are not answered or whose answer is not written yet, in the order
    /// in which they were made.
    pub queue: Seq<ServiceResult<CallResult<P>>>,
}

impl<P: Protocol> InnerView<P> {
    /// The place in the queue of the call with this index. Indices wrap around.
    pub open spec fn position(self, response_idx: usize) -> int {
        if response_idx >= self.base {
            response_idx - self.base
        } else {
            response_idx - self.base + usize::MAX + 1
        }
    }

    /// The index that lies `n` after that of the front of the queue.
    pub open spec fn index(self, n: int) -> usize {
        if self.base + n <= usize::MAX {
            (self.base + n) as usize
        } else {
            (self.base + n - usize::MAX - 1) as usize
        }
    }

    /// The index of the next call.
    pub open spec fn next_index(self) -> usize {
        self.index(self.queue.len() as int)
    }

    /// Whether the call with this index is in the queue and not answered.
    pub open spec fn is_outstanding(self, response_idx: usize) -> bool {
        &&& self.position(response_idx) < self.queue.len()
        &&& self.queue[self.position(response_idx)] is Pending
    }

    /// Whether a result with this index has a place: it is that of the first call, or of
    /// another call in the queue.
    pub open spec fn accepts(self, response_idx: usize) -> bool {
        self.position(response_idx) == 0 || self.position(response_idx) < self.queue.len()
    }

    /// Whether the front of the queue still waits for its answer: nothing that could be
    /// written is held back.
    pub open spec fn is_drained(self) -> bool {
        self.queue.len() > 0 ==> self.queue[0] is Pending
    }

    /// With the queue entry `entry` added.
    pub open spec fn pushed(self, entry: ServiceResult<CallResult<P>>) -> Self {
        InnerView { queue: self.queue.push(entry), ..self }
    }

    /// The calls behind the first.
    pub open spec fn behind_first(self) -> Seq<ServiceResult<CallResult<P>>> {
        if self.queue.len() > 0 {
            self.queue.skip(1)
        } else {
            self.queue
        }
    }

    /// After the call with this index has been answered.
    ///
    /// The answer of the first call leaves the queue together with the answers that
    /// waited for it. Any other answer waits.
    pub open spec fn answered(self, item: CallResult<P>, response_idx: usize) -> Self {
        let position = self.position(response_idx);
        if position == 0 {
            let waiting = leading_ready(self.behind_first()) as int;
            InnerView {
                base: self.index(1 + waiting),
                queue: self.behind_first().skip(waiting),
                ..self
            }
        } else {
            InnerView { queue: self.queue.update(position, ServiceResult::Ready(item)), ..self }
        }
    }

    /// The results that are written when the call with this index has been answered.
    pub open spec fn answer_writes(self, item: CallResult<P>, response_idx: usize) -> Seq<
        Effect<P>,
    > {
        if self.position(response_idx) == 0 {
            seq![Effect::Write(item)] + writes::<P>(
                self.behind_first(),
                leading_ready(self.behind_first()),
            )
        } else {
            Seq::empty()
        }
    }

    /// The effects of an answer. With `wake`, the dispatcher is woken where the queue has
    /// been emptied.
    pub open spec fn answer_effects(
        self,
        item: CallResult<P>,
        response_idx: usize,
        wake: bool,
    ) -> Seq<Effect<P>> {
        let woken = wake && self.position(response_idx) == 0 && self.answered(
            item,
            response_idx,
        ).queue.len() == 0;
        self.answer_writes(item, response_idx) + (if woken {
            seq![Effect::WakeTask]
        } else {
            Seq::empty()
        })
    }

    /// After writes with these outcomes.
    pub open spec fn recorded(self, outcomes: Seq<WriteOutcome<P>>) -> Self {
        InnerView { error: error_after::<P>(self.error, outcomes), ..self }
    }

    /// After the keep-alive deadline has passed. An earlier error stays.
    pub open spec fn expired(self) -> Self {
        InnerView {
            error: match self.error {
                Some(err) => Some(err),
                None => Some(IoDispatcherError::KeepAlive),
            },
            ..self
        }
    }

    /// The item that tells the service of the error that is kept.
    pub open spec fn error_item(self) -> Option<DispatcherItem<P>> {
        match self.error {
            Some(err) => err.item::<P>(),
            None => None,
        }
    }

    /// After the service has been told of the error that is kept.
    pub open spec fn error_taken(self) -> Self {
        InnerView {
            error: match self.error {
                Some(err) => Some(err.taken()),
                None => None,
            },
            ..self
        }
    }

    /// What the dispatcher ends with: the error that is kept, if it is one of the service.
    pub open spec fn outcome(self) -> Result<(), P::ServiceError> {
        match self.error {
            Some(IoDispatcherError::Service(err)) => Err(err),
            _ => Ok(()),
        }
    }
}

/// A call that is outstanding stays so when another call is answered.
pub proof fn lemma_stays_outstanding<P: Protocol>(
    inner: InnerView<P>,
    item: CallResult<P>,
    response_idx: usize,
    other: usize,
)
    requires
        inner.accepts(response_idx),
        inner.is_outstanding(other),
        response_idx != other,
    ensures
        inner.answered(item, response_idx).is_outstanding(other),
        inner.answered(item, response_idx).position(other) == inner.position(other) - (
        inner.queue.len() - inner.answered(item, response_idx).queue.len()),
{
    let rest = inner.behind_first();
    lemma_leading_ready(rest);
    if inner.position(response_idx) == 0 {
        assert(rest[inner.position(other) - 1] is Pending);
    }
}

/// The calls that are under way, and the error that was met last.
pub struct IoDispatcherInner<P: Protocol> {
    error: Option<IoDispatcherError<P::ServiceError, P::EncoderError>>,
    base: usize,
    queue: VecDeque<ServiceResult<CallResult<P>>>,
}

impl<P: Protocol> View for IoDispatcherInner<P> {
    type V = InnerView<P>;

    closed spec fn view(&self) -> InnerView<P> {
        InnerView { error: self.error, base: self.base, queue: self.queue@ }
    }
}

impl<P: Protocol> IoDispatcherInner<P> {
    /// No calls and no error.
    pub fn new() -> (inner: Self)
        ensures
            inner@ == (InnerView::<P> { error: None, base: 0, queue: Seq::empty() }),
    {
        IoDispatcherInner { error: None, base: 0, queue: VecDeque::new() }
    }

    /// Takes the result `item` of the call with the index `response_idx`.
    ///
    /// The results that can be written now are written, in the order of the calls. With
    /// `wake`, the dispatcher is woken where the queue has been emptied.
    pub fn handle_result(
        &mut self,
        item: CallResult<P>,
        response_idx: usize,
        wake: bool,
        effects: &mut Vec<Effect<P>>,
    )
        requires
            old(self)@.accepts(response_idx),
        ensures
            final(self)@ == old(self)@.answered(item, response_idx),
            final(effects)@ == old(effects)@ + old(self)@.answer_effects(item, response_idx, wake),
    {
        let idx: usize = response_idx.wrapping_sub(self.base);

        // handle first response
        if idx == 0 {
            let ghost rest = self@.behind_first();
            assert(self.queue.len() == self.queue@.len());
            assert(rest.skip(0) == rest);
            let _ = self.queue.pop_front();
            self.base = self.base.wrapping_add(1);
            effects.push(Effect::Write(item));

            // check remaining responses
            let ghost mut n: nat = 0;
            while self.queue.len() > 0 && self.queue[0].is_ready()
                invariant
                    n <= rest.len() <= usize::MAX,
                    self.queue@ == rest.skip(n as int),
                    self.error == old(self).error,
                    self.base == old(self)@.index(1 + n as int),
                    leading_ready(rest) == n + leading_ready(rest.skip(n as int)),
                    effects@ == old(effects)@ + seq![Effect::Write(item)] + writes::<P>(rest, n),
                decreases self.queue@.len(),
            {
                if let Some(mut slot) = self.queue.pop_front() {
                    self.base = self.base.wrapping_add(1);
                    if let Some(item) = slot.take() {
                        effects.push(Effect::Write(item));
                    }
                }
                proof {
                    assert(rest.skip(n as int).drop_first() == rest.skip(n as int + 1));
                    n = n + 1;
                }
            }

            if wake && self.queue.len() == 0 {
                effects.push(Effect::WakeTask);
            }
        } else {
            let _ = self.queue.remove(idx);
            self.queue.insert(idx, ServiceResult::Ready(item));
        }
    }

    /// Queues a call that is not answered yet, and gives its index.
    pub fn push_pending(&mut self) -> (response_idx: usize)
        ensures
            final(self)@ == old(self)@.pushed(ServiceResult::Pending),
            response_idx == old(self)@.next_index(),
            final(self)@.queue.len() <= usize::MAX,
    {
        let response_idx: usize = self.base.wrapping_add(self.queue.len());
        self.queue.push_back(ServiceResult::Pending);
        assert(self.queue.len() == self.queue@.len());
        response_idx
    }

    /// Takes the result of a call that was answered at once.
    ///
    /// It is written if it is the only response, else it waits for those before it. The
    /// result says whether it is written.
    pub fn push_result(&mut self, res: CallResult<P>, effects: &mut Vec<Effect<P>>) -> (written:
        bool)
        ensures
            written == (old(self)@.queue.len() == 0),
            final(self)@.queue.len() <= usize::MAX,
            written ==> {
                &&& final(self)@ == old(self)@
                &&& final(effects)@ == old(effects)@.push(Effect::Write(res))
            },
            !written ==> {
                &&& final(self)@ == old(self)@.pushed(ServiceResult::Ready(res))
                &&& final(effects)@ == old(effects)@
            },
    {
        if self.queue.len() == 0 {
            effects.push(Effect::Write(res));
            true
        } else {
            self.queue.push_back(ServiceResult::Ready(res));
            assert(self.queue.len() == self.queue@.len());
            false
        }
    }

    /// Keeps the error of the last of these writes that failed.
    pub fn record_writes(&mut self, outcomes: Vec<WriteOutcome<P>>)
        ensures
            final(self)@ == old(self)@.recorded(outcomes@),
    {
        let mut rest = outcomes;
        while rest.len() > 0
            invariant
                self@ == old(self)@,
                error_after::<P>(self.error, rest@) == error_after::<P>(self.error, outcomes@),
            decreases rest.len(),
        {
            let ghost before = rest@;
            if let Some(outcome) = rest.pop() {
                assert(rest@ == before.drop_last());
                if let Err(err) = outcome {
                    self.error = Some(IoDispatcherError::from(err));
                    return;
                }
            }
        }
    }

    /// Keeps an error.
    pub fn set_error(&mut self, err: IoDispatcherError<P::ServiceError, P::EncoderError>)
        ensures
            final(self)@ == (InnerView { error: Some(err), ..old(self)@ }),
    {
        self.error = Some(err);
    }

    /// Keeps the error that the keep-alive timeout ran out, unless there is one already.
    pub fn set_keepalive_error(&mut self)
        ensures
            final(self)@ == old(self)@.expired(),
    {
        if self.error.is_none() {
            self.error = Some(IoDispatcherError::KeepAlive);
        }
    }

    /// Takes the item that tells the service of the error that is kept.
    pub fn take_error_item(&mut self) -> (item: Option<DispatcherItem<P>>)
        ensures
            item == old(self)@.error_item(),
            final(self)@ == old(self)@.error_taken(),
    {
        match &mut self.error {
            Some(err) => err.take(),
            None => None,
        }
    }

    /// Takes the error that is kept, and gives it where it is one of the service.
    pub fn take_service_error(&mut self) -> (res: Result<(), P::ServiceError>)
        ensures
            res == old(self)@.outcome(),
            final(self)@ == (InnerView { error: None, ..old(self)@ }),
    {
        if let Some(IoDispatcherError::Service(err)) = self.error.take() {
            Err(err)
        } else {
            Ok(())
        }
    }

    /// Whether an error has been met.
    pub fn has_error(&self) -> (has_error: bool)
        ensures
            has_error == (self@.error is Some),
    {
        self.error.is_some()
    }

    /// Whether all calls are answered and all answers are written.
    pub fn is_empty(&self) -> (empty: bool)
        ensures
            empty == (self@.queue.len() == 0),
    {
        self.queue.len() == 0
    }

    /// Whether a result with this index has a place: it is that of the first call, or of
    /// another call in the queue.
    pub fn accepts(&self, response_idx: usize) -> (accepts: bool)
        ensures
            accepts == self@.accepts(response_idx),
    {
        let idx: usize = response_idx.wrapping_sub(self.base);
        idx == 0 || idx < self.queue.len()
    }
}

} // verus!
