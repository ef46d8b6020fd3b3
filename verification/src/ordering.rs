//! The responses are written in the order of the calls, each once.
//!
//! A [`Ledger`] is kept by someone who sees the steps of a dispatcher, its effects and
//! its requests, but not its queue: it numbers the calls of the service, notes which
//! call got which result, and lists what is written.
use std::task::Poll;

use vstd::prelude::*;

use crate::action::{CallResult, Effect, Event, Request};
use crate::inner::InnerView;
use crate::item::{DispatcherItem, Protocol};
use crate::machine::DispatcherView;
use crate::moment::Moment;
use crate::run::Step;
use crate::service_result::ServiceResult;

verus! {

/// What an observer knows of the calls of the service.
#[verifier::ext_equal]
pub struct Ledger<P: Protocol> {
    /// The number of calls so far. The first call has the number zero.
    pub calls: nat,
    /// The number of the call that the dispatcher holds.
    pub held: Option<nat>,
    /// The numbers of the calls that have a task of their own and are not answered, by
    /// the index that the task was given.
    pub tasks: Map<usize, nat>,
    /// The results of the calls that are answered, by their number.
    pub results: Map<nat, CallResult<P>>,
    /// What has been written, in order.
    pub written: Seq<CallResult<P>>,
}

impl<P: Protocol> Ledger<P> {
    /// Nothing has happened yet.
    pub open spec fn new() -> Self {
        Ledger {
            calls: 0,
            held: None,
            tasks: Map::empty(),
            results: Map::empty(),
            written: Seq::empty(),
        }
    }

    /// The call that is held got its result.
    pub open spec fn held_answered(self, item: CallResult<P>) -> Self {
        Ledger { held: None, results: self.results.insert(self.held->0, item), ..self }
    }

    /// The call with this index got its result.
    pub open spec fn task_answered(self, item: CallResult<P>, response_idx: usize) -> Self {
        Ledger {
            tasks: self.tasks.remove(response_idx),
            results: self.results.insert(self.tasks[response_idx], item),
            ..self
        }
    }

    /// What happened in a step before the dispatcher did anything.
    pub open spec fn told(self, step: Step<P>) -> Self {
        match step {
            Step::Resume(Event::Response(Poll::Ready(item))) => self.held_answered(item),
            Step::Resume(Event::Called(Poll::Ready(item))) => self.held_answered(item),
            Step::Answer { item, response_idx } => self.task_answered(item, response_idx),
            _ => self,
        }
    }

    /// One effect was performed.
    pub open spec fn did(self, effect: Effect<P>) -> Self {
        match effect {
            Effect::Spawn { item, response_idx } => Ledger {
                calls: self.calls + 1,
                tasks: self.tasks.insert(response_idx, self.calls),
                ..self
            },
            Effect::Write(item) => Ledger { written: self.written.push(item), ..self },
            _ => self,
        }
    }

    /// Some effects were performed, in order.
    pub open spec fn did_all(self, effects: Seq<Effect<P>>) -> Self
        decreases effects.len(),
    {
        if effects.len() == 0 {
            self
        } else {
            self.did_all(effects.drop_last()).did(effects.last())
        }
    }

    /// A request was performed.
    pub open spec fn asked(self, request: Option<Request<P>>) -> Self {
        match request {
            Some(Request::Call(_)) => Ledger {
                calls: self.calls + 1,
                held: Some(self.calls),
                ..self
            },
            _ => self,
        }
    }

    /// After a step of a dispatcher in the state `state`.
    pub open spec fn stepped(self, state: DispatcherView<P>, step: Step<P>) -> Self {
        self.told(step).did_all(state.effects(step)).asked(state.request(step))
    }

    /// Whether a step can happen as far as an observer can tell: a task answers its call
    /// once.
    pub open spec fn allows(self, step: Step<P>) -> bool {
        match step {
            Step::Answer { item, response_idx } => self.tasks.contains_key(response_idx),
            _ => true,
        }
    }
}

/// The state of a dispatcher and the ledger of an observer after the steps of a run, from
/// the start `init`.
pub open spec fn run<P: Protocol>(init: DispatcherView<P>, steps: Seq<Step<P>>) -> (
    DispatcherView<P>,
    Ledger<P>,
)
    decreases steps.len(),
{
    if steps.len() == 0 {
        (init, Ledger::new())
    } else {
        let (state, ledger) = run(init, steps.drop_last());
        (state.stepped(steps.last()), ledger.stepped(state, steps.last()))
    }
}

/// Whether the steps of a run can happen one after the other, without more calls under
/// way at once than can be counted.
pub open spec fn can_happen<P: Protocol>(init: DispatcherView<P>, steps: Seq<Step<P>>) -> bool
    decreases steps.len(),
{
    steps.len() > 0 ==> {
        let (state, ledger) = run(init, steps.drop_last());
        &&& can_happen(init, steps.drop_last())
        &&& ledger.allows(steps.last())
        &&& steps.last() is Answer || state.allows(steps.last())
        &&& state.stepped(steps.last()).inner.queue.len() <= usize::MAX
    }
}

/// Whether a ledger agrees with the calls that a dispatcher has under way. With `fresh`,
/// the last call has been made and is not in the queue yet.
pub open spec fn agrees<P: Protocol>(
    inner: InnerView<P>,
    response: Option<usize>,
    fresh: bool,
    ledger: Ledger<P>,
) -> bool {
    let w = ledger.written.len();
    &&& inner.queue.len() <= usize::MAX
    &&& ledger.calls == w + inner.queue.len() + (if fresh {
        1int
    } else {
        0int
    })
    // what is written
    &&& forall|i: nat|
        i < w ==> #[trigger] ledger.results.contains_key(i) && ledger.results[i]
            == ledger.written[i as int]
    // what is queued
    &&& forall|j: int|
        #![trigger inner.queue[j]]
        0 <= j < inner.queue.len() ==> match inner.queue[j] {
            ServiceResult::Ready(item) => ledger.results.contains_key((w + j) as nat)
                && ledger.results[(w + j) as nat] == item,
            ServiceResult::Pending => !ledger.results.contains_key((w + j) as nat)
                && (response == Some(inner.index(j)) || ledger.tasks.contains_key(inner.index(j))),
        }
    // what is answered
    &&& forall|i: nat| #[trigger]
        ledger.results.contains_key(i) ==> i < w + inner.queue.len()
    // who answers
    &&& ledger.held == (if fresh {
        Some((w + inner.queue.len()) as nat)
    } else {
        match response {
            Some(idx) => Some((w + inner.position(idx)) as nat),
            None => None,
        }
    })
    &&& response is Some ==> inner.is_outstanding(response->0)
    &&& forall|idx: usize| #[trigger]
        ledger.tasks.contains_key(idx) ==> {
            &&& inner.is_outstanding(idx)
            &&& ledger.tasks[idx] == w + inner.position(idx)
            &&& response != Some(idx)
        }
}

/// Whether a ledger agrees with a dispatcher.
pub open spec fn in_step<P: Protocol>(state: DispatcherView<P>, ledger: Ledger<P>) -> bool {
    agrees(state.inner, state.response, state.phase is Call, ledger)
}

proof fn lemma_did_all_push<P: Protocol>(
    ledger: Ledger<P>,
    effects: Seq<Effect<P>>,
    last: Effect<P>,
)
    ensures
        ledger.did_all(effects.push(last)) == ledger.did_all(effects).did(last),
{
    assert(effects.push(last).drop_last() == effects);
}

proof fn lemma_did_all_add<P: Protocol>(
    ledger: Ledger<P>,
    first: Seq<Effect<P>>,
    second: Seq<Effect<P>>,
)
    ensures
        ledger.did_all(first + second) == ledger.did_all(first).did_all(second),
    decreases second.len(),
{
    if second.len() == 0 {
        assert(first + second == first);
    } else {
        assert((first + second).drop_last() == first + second.drop_last());
        lemma_did_all_add(ledger, first, second.drop_last());
    }
}

/// An effect that neither calls the service nor writes.
spec fn is_quiet<P: Protocol>(effect: Effect<P>) -> bool {
    !(effect is Spawn) && !(effect is Write)
}

proof fn lemma_did_quiet<P: Protocol>(ledger: Ledger<P>, effects: Seq<Effect<P>>)
    requires
        forall|i: int| 0 <= i < effects.len() ==> is_quiet(#[trigger] effects[i]),
    ensures
        ledger.did_all(effects) == ledger,
    decreases effects.len(),
{
    if effects.len() > 0 {
        assert(is_quiet(effects[effects.len() - 1]));
        lemma_did_quiet(ledger, effects.drop_last());
    }
}

proof fn lemma_did_one<P: Protocol>(ledger: Ledger<P>, effect: Effect<P>)
    ensures
        ledger.did_all(seq![effect]) == ledger.did(effect),
{
    lemma_did_all_push(ledger, Seq::empty(), effect);
    assert(Seq::empty().push(effect) == seq![effect]);
}

/// A call that gets a task of its own keeps a ledger in step.
proof fn lemma_spawned<P: Protocol>(
    inner: InnerView<P>,
    response: Option<usize>,
    ledger: Ledger<P>,
    item: DispatcherItem<P>,
)
    requires
        agrees(inner, response, false, ledger),
        inner.queue.len() < usize::MAX,
    ensures
        agrees(
            inner.pushed(ServiceResult::Pending),
            response,
            false,
            ledger.did(Effect::Spawn { item, response_idx: inner.next_index() }),
        ),
{
    let idx = inner.next_index();
    let pushed = inner.pushed(ServiceResult::Pending);
    let next = ledger.did(Effect::Spawn { item, response_idx: idx });
    let w = ledger.written.len();
    assert(pushed.position(idx) == inner.queue.len());
    assert(!ledger.results.contains_key((w + inner.queue.len()) as nat));
    assert forall|j: int|
        #![trigger pushed.queue[j]]
        0 <= j < pushed.queue.len() implies match pushed.queue[j] {
        ServiceResult::Ready(item) => next.results.contains_key((w + j) as nat)
            && next.results[(w + j) as nat] == item,
        ServiceResult::Pending => !next.results.contains_key((w + j) as nat) && (response == Some(
            pushed.index(j),
        ) || next.tasks.contains_key(pushed.index(j))),
    } by {
        if j < inner.queue.len() {
            assert(pushed.queue[j] == inner.queue[j]);
            assert(pushed.index(j) == inner.index(j));
        }
    }
    assert forall|i: usize| #[trigger] next.tasks.contains_key(i) implies {
        &&& pushed.is_outstanding(i)
        &&& next.tasks[i] == w + pushed.position(i)
        &&& response != Some(i)
    } by {
        if i != idx {
            assert(ledger.tasks.contains_key(i));
        }
    }
}

/// A call keeps a ledger in step.
proof fn lemma_called<P: Protocol>(
    state: DispatcherView<P>,
    ledger: Ledger<P>,
    item: DispatcherItem<P>,
)
    requires
        agrees(state.inner, state.response, false, ledger),
        state.called(item).state.inner.queue.len() <= usize::MAX,
    ensures
        in_step(
            state.called(item).state,
            ledger.did_all(state.called(item).effects).asked(Some(state.called(item).request)),
        ),
{
    if state.response is Some {
        let idx = state.inner.next_index();
        let effect = Effect::Spawn { item, response_idx: idx };
        assert(seq![effect] + Seq::<Effect<P>>::empty() == seq![effect]);
        lemma_did_one(ledger, effect);
        lemma_spawned(state.inner, state.response, ledger, item);
    }
}

proof fn lemma_did_writes<P: Protocol>(
    ledger: Ledger<P>,
    queue: Seq<ServiceResult<CallResult<P>>>,
    n: nat,
)
    ensures
        ledger.did_all(crate::inner::writes::<P>(queue, n)) == (Ledger {
            written: ledger.written + Seq::new(n, |i: int| queue[i]->Ready_0),
            ..ledger
        }),
    decreases n,
{
    let effects = crate::inner::writes::<P>(queue, n);
    let values = Seq::new(n, |i: int| queue[i]->Ready_0);
    if n == 0 {
        assert(ledger.written + values == ledger.written);
    } else {
        let m = (n - 1) as nat;
        lemma_did_writes(ledger, queue, m);
        assert(effects.drop_last() == crate::inner::writes::<P>(queue, m));
        assert(ledger.written + values == (ledger.written + Seq::new(
            m,
            |i: int| queue[i]->Ready_0,
        )).push(queue[m as int]->Ready_0));
    }
}

/// What the effects of an answer write.
proof fn lemma_did_answer<P: Protocol>(
    ledger: Ledger<P>,
    inner: InnerView<P>,
    item: CallResult<P>,
    response_idx: usize,
    wake: bool,
)
    ensures
        ledger.did_all(inner.answer_effects(item, response_idx, wake)) == (if inner.position(
            response_idx,
        ) == 0 {
            let rest = inner.behind_first();
            Ledger {
                written: ledger.written.push(item) + Seq::new(
                    crate::inner::leading_ready(rest),
                    |i: int| rest[i]->Ready_0,
                ),
                ..ledger
            }
        } else {
            ledger
        }),
{
    let writes = inner.answer_writes(item, response_idx);
    let effects = inner.answer_effects(item, response_idx, wake);
    if effects != writes {
        assert(effects == writes.push(Effect::WakeTask));
        lemma_did_all_push(ledger, writes, Effect::WakeTask);
    }
    if inner.position(response_idx) == 0 {
        let rest = inner.behind_first();
        let n = crate::inner::leading_ready(rest);
        lemma_did_one(ledger, Effect::Write(item));
        lemma_did_all_add(ledger, seq![Effect::Write(item)], crate::inner::writes::<P>(rest, n));
        lemma_did_writes(ledger.did(Effect::Write(item)), rest, n);
    }
}

/// An answer keeps a ledger in step. With `held`, it is the call that is held which is
/// answered, else one that has a task of its own.
#[verifier::spinoff_prover]
proof fn lemma_answered<P: Protocol>(
    inner: InnerView<P>,
    response: Option<usize>,
    fresh: bool,
    ledger: Ledger<P>,
    item: CallResult<P>,
    response_idx: usize,
    wake: bool,
    held: bool,
)
    requires
        agrees(inner, response, fresh, ledger),
        if held {
            response == Some(response_idx) && !fresh
        } else {
            ledger.tasks.contains_key(response_idx)
        },
    ensures
        agrees(
            inner.answered(item, response_idx),
            if held {
                None
            } else {
                response
            },
            fresh,
            (if held {
                ledger.held_answered(item)
            } else {
                ledger.task_answered(item, response_idx)
            }).did_all(inner.answer_effects(item, response_idx, wake)),
        ),
{
    let told = if held {
        ledger.held_answered(item)
    } else {
        ledger.task_answered(item, response_idx)
    };
    let next = inner.answered(item, response_idx);
    let after = told.did_all(inner.answer_effects(item, response_idx, wake));
    let owner = if held {
        None
    } else {
        response
    };
    let p = inner.position(response_idx);
    let w = ledger.written.len();
    let c = (w + p) as nat;
    lemma_did_answer(told, inner, item, response_idx, wake);
    let rest = inner.behind_first();
    crate::inner::lemma_leading_ready(rest);
    let n = crate::inner::leading_ready(rest);
    let gone: int = if p == 0 {
        1 + n as int
    } else {
        0
    };
    assert(after.results == ledger.results.insert(c, item));
    assert(after.written.len() == w + gone);
    assert(next.queue.len() == inner.queue.len() - gone);
    assert forall|i: nat| i < w + gone implies #[trigger] after.results.contains_key(i)
        && after.results[i] == after.written[i as int] by {
        if i < w {
            assert(ledger.results.contains_key(i));
        } else if i > w {
            assert(rest[i - w - 1] is Ready);
            assert(inner.queue[i - w] == rest[i - w - 1]);
        }
    }
    assert forall|j: int|
        #![trigger next.queue[j]]
        0 <= j < next.queue.len() implies match next.queue[j] {
        ServiceResult::Ready(item) => after.results.contains_key((w + gone + j) as nat)
            && after.results[(w + gone + j) as nat] == item,
        ServiceResult::Pending => !after.results.contains_key((w + gone + j) as nat) && (owner
            == Some(next.index(j)) || after.tasks.contains_key(next.index(j))),
    } by {
        assert(next.index(j) == inner.index(gone + j));
        assert(inner.position(inner.index(gone + j)) == gone + j);
        if gone + j != p {
            assert(next.queue[j] == inner.queue[gone + j]);
        }
    }
    assert forall|idx: usize| #[trigger] after.tasks.contains_key(idx) implies {
        &&& next.is_outstanding(idx)
        &&& after.tasks[idx] == w + gone + next.position(idx)
        &&& owner != Some(idx)
    } by {
        assert(ledger.tasks.contains_key(idx));
        crate::inner::lemma_stays_outstanding(inner, item, response_idx, idx);
    }
    if let Some(idx) = owner {
        crate::inner::lemma_stays_outstanding(inner, item, response_idx, idx);
    }
}

/// A call after some quiet effects keeps a ledger in step.
proof fn lemma_called_after<P: Protocol>(
    state: DispatcherView<P>,
    ledger: Ledger<P>,
    item: DispatcherItem<P>,
    effects: Seq<Effect<P>>,
)
    requires
        agrees(state.inner, state.response, false, ledger),
        state.called(item).state.inner.queue.len() <= usize::MAX,
        forall|i: int| 0 <= i < effects.len() ==> is_quiet(#[trigger] effects[i]),
    ensures
        in_step(
            state.called(item).state,
            ledger.did_all(state.called(item).after(effects).effects).asked(
                Some(state.called(item).request),
            ),
        ),
{
    lemma_did_all_add(ledger, effects, state.called(item).effects);
    lemma_did_quiet(ledger, effects);
    lemma_called(state, ledger, item);
}

/// The first poll of a new call keeps a ledger in step.
#[verifier::spinoff_prover]
proof fn lemma_on_called<P: Protocol>(
    state: DispatcherView<P>,
    ledger: Ledger<P>,
    res: Poll<CallResult<P>>,
)
    requires
        state.wf(),
        state.phase is Call,
        in_step(state, ledger),
        state.on_called(res).state.inner.queue.len() <= usize::MAX,
    ensures
        in_step(
            state.on_called(res).state,
            ledger.stepped(state, Step::Resume(Event::Called(res))),
        ),
{
    let inner = state.inner;
    let step = Step::Resume(Event::Called(res));
    let told = ledger.told(step);
    let next = state.on_called(res).state;
    let w = ledger.written.len();
    let n = inner.queue.len();
    match res {
        Poll::Ready(item) => {
            if n == 0 {
                assert(state.effects(step) == seq![Effect::<P>::Write(item)]);
                lemma_did_one(told, Effect::Write(item));
            } else {
                assert(state.effects(step) == Seq::<Effect<P>>::empty());
                lemma_did_quiet(told, state.effects(step));
            }
        },
        Poll::Pending => {
            assert(state.effects(step) == Seq::<Effect<P>>::empty());
            lemma_did_quiet(told, state.effects(step));
            assert(next.inner.position(inner.next_index()) == n);
            assert(!ledger.results.contains_key((w + n) as nat));
        },
    }
    let after = ledger.stepped(state, step);
    assert(ledger.held == Some((w + n) as nat));
    assert(after.calls == after.written.len() + next.inner.queue.len());
    assert forall|i: nat| i < after.written.len() implies #[trigger] after.results.contains_key(i)
        && after.results[i] == after.written[i as int] by {
        if i < w {
            assert(ledger.results.contains_key(i));
        }
    }
    assert forall|i: nat| #[trigger] after.results.contains_key(i) implies i
        < after.written.len() + next.inner.queue.len() by {
        if i != w + n {
            assert(ledger.results.contains_key(i));
        }
    }
    assert forall|j: int|
        #![trigger next.inner.queue[j]]
        0 <= j < next.inner.queue.len() implies match next.inner.queue[j] {
        ServiceResult::Ready(item) => after.results.contains_key((after.written.len() + j) as nat)
            && after.results[(after.written.len() + j) as nat] == item,
        ServiceResult::Pending => !after.results.contains_key((after.written.len() + j) as nat) && (
        next.response == Some(next.inner.index(j)) || after.tasks.contains_key(
            next.inner.index(j),
        )),
    } by {
        if j < n {
            assert(next.inner.queue[j] == inner.queue[j]);
            assert(next.inner.index(j) == inner.index(j));
        }
    }
    assert forall|idx: usize| #[trigger] after.tasks.contains_key(idx) implies {
        &&& next.inner.is_outstanding(idx)
        &&& after.tasks[idx] == after.written.len() + next.inner.position(idx)
        &&& next.response != Some(idx)
    } by {
        assert(ledger.tasks.contains_key(idx));
    }
}

/// Each step keeps a ledger in step.
#[verifier::spinoff_prover]
pub proof fn step_keeps_in_step<P: Protocol>(
    state: DispatcherView<P>,
    ledger: Ledger<P>,
    step: Step<P>,
)
    requires
        state.wf(),
        in_step(state, ledger),
        ledger.allows(step),
        step is Answer || state.allows(step),
        state.stepped(step).inner.queue.len() <= usize::MAX,
    ensures
        state.allows(step),
        in_step(state.stepped(step), ledger.stepped(state, step)),
{
    let told = ledger.told(step);
    let effects = state.effects(step);
    match step {
        Step::Answer { item, response_idx } => {
            lemma_answered(
                state.inner,
                state.response,
                state.phase is Call,
                ledger,
                item,
                response_idx,
                true,
                false,
            );
        },
        Step::Record(_) => {},
        Step::Poll => {
            lemma_did_quiet(told, effects);
        },
        Step::Resume(event) => match event {
            Event::Response(Poll::Ready(item)) => {
                let response_idx = state.response->0;
                lemma_answered(
                    state.inner,
                    state.response,
                    false,
                    ledger,
                    item,
                    response_idx,
                    false,
                    true,
                );
                assert(effects == state.inner.answer_effects(item, response_idx, false));
            },
            Event::Called(res) => {
                lemma_on_called(state, ledger, res);
            },
            Event::Flags { stopped, keepalive_err, read_ready } => {
                if stopped {
                    let inner = if keepalive_err {
                        state.inner.expired()
                    } else {
                        state.inner
                    };
                    let next = DispatcherView {
                        st: crate::machine::IoDispatcherState::Stop,
                        inner: inner.error_taken(),
                        ..state
                    };
                    let first = if keepalive_err {
                        Seq::<Effect<P>>::empty()
                    } else {
                        state.unregister()
                    };
                    match inner.error_item() {
                        Some(item) => lemma_called_after(next, ledger, item, first),
                        None => lemma_did_quiet(told, effects),
                    }
                } else {
                    lemma_did_quiet(told, effects);
                }
            },
            Event::IoError(Some(err)) => {
                lemma_called(state, ledger, DispatcherItem::IoError(err));
            },
            Event::Decoded(Ok(Some(el))) => {
                if state.keepalive_timeout != 0 {
                    lemma_did_quiet(told, effects);
                } else {
                    lemma_called(state, ledger, DispatcherItem::Item(el));
                }
            },
            Event::Decoded(Err(err)) => {
                let next = DispatcherView {
                    st: crate::machine::IoDispatcherState::Stop,
                    ..state
                };
                lemma_called_after(
                    next,
                    ledger,
                    DispatcherItem::DecoderError(err),
                    state.unregister(),
                );
            },
            Event::Now(now) => {
                let item = DispatcherItem::Item(state.phase->Clock_0);
                if now != state.updated {
                    let next = DispatcherView { updated: now, ..state };
                    let first = seq![
                        Effect::RegisterTimer { expire: next.deadline(), prev: state.deadline() },
                    ];
                    lemma_called_after(next, ledger, item, first);
                } else {
                    lemma_called(state, ledger, item);
                }
            },
            _ => {
                lemma_did_quiet(told, effects);
            },
        },
    }
}

/// After any run, the dispatcher is well formed and the ledger agrees with it.
pub proof fn run_keeps_in_step<P: Protocol>(
    now: Moment,
    keepalive_timeout: u16,
    steps: Seq<Step<P>>,
)
    requires
        now.fits(keepalive_timeout),
        can_happen(crate::machine::made(now, keepalive_timeout), steps),
    ensures
        ({
            let (state, ledger) = run(crate::machine::made(now, keepalive_timeout), steps);
            state.wf() && in_step(state, ledger)
        }),
    decreases steps.len(),
{
    let init = crate::machine::made::<P>(now, keepalive_timeout);
    if steps.len() > 0 {
        run_keeps_in_step(now, keepalive_timeout, steps.drop_last());
        let (state, ledger) = run(init, steps.drop_last());
        step_keeps_in_step(state, ledger, steps.last());
        crate::run::step_keeps_wf(state, steps.last());
    }
}

/// The responses are written in the order of the calls: what is written in the place `i`
/// is the result of the call with the number `i`. So each result is written once at most.
pub proof fn responses_in_order<P: Protocol>(
    now: Moment,
    keepalive_timeout: u16,
    steps: Seq<Step<P>>,
)
    requires
        now.fits(keepalive_timeout),
        can_happen(crate::machine::made(now, keepalive_timeout), steps),
    ensures
        ({
            let ledger = run(crate::machine::made(now, keepalive_timeout), steps).1;
            &&& ledger.written.len() <= ledger.calls
            &&& forall|i: int|
                #![trigger ledger.written[i]]
                0 <= i < ledger.written.len() ==> ledger.results.contains_key(i as nat)
                    && ledger.written[i] == ledger.results[i as nat]
        }),
{
    run_keeps_in_step(now, keepalive_timeout, steps);
    let ledger = run(crate::machine::made(now, keepalive_timeout), steps).1;
    assert forall|i: int|
        #![trigger ledger.written[i]]
        0 <= i < ledger.written.len() implies ledger.results.contains_key(i as nat)
        && ledger.written[i] == ledger.results[i as nat] by {
        assert(ledger.results.contains_key(i as nat));
    }
}

/// No response is held back: once a call and all calls before it are answered, its result
/// is written.
pub proof fn no_response_held_back<P: Protocol>(
    now: Moment,
    keepalive_timeout: u16,
    steps: Seq<Step<P>>,
    n: nat,
)
    requires
        now.fits(keepalive_timeout),
        can_happen(crate::machine::made(now, keepalive_timeout), steps),
        forall|i: nat|
            i <= n ==> #[trigger] run(
                crate::machine::made(now, keepalive_timeout),
                steps,
            ).1.results.contains_key(i),
    ensures
        n < run(crate::machine::made(now, keepalive_timeout), steps).1.written.len(),
{
    run_keeps_in_step(now, keepalive_timeout, steps);
    let (state, ledger) = run(crate::machine::made(now, keepalive_timeout), steps);
    let w = ledger.written.len();
    if w <= n {
        assert(ledger.results.contains_key(n));
        assert(ledger.results.contains_key(w));
        assert(state.inner.queue[0] is Pending);
    }
}

/// A call that has a task of its own can hand in its result at any time.
pub proof fn tasks_are_accepted<P: Protocol>(
    now: Moment,
    keepalive_timeout: u16,
    steps: Seq<Step<P>>,
    response_idx: usize,
)
    requires
        now.fits(keepalive_timeout),
        can_happen(crate::machine::made(now, keepalive_timeout), steps),
        run(crate::machine::made(now, keepalive_timeout), steps).1.tasks.contains_key(
            response_idx,
        ),
    ensures
        run(crate::machine::made::<P>(now, keepalive_timeout), steps).0.accepts(response_idx),
{
    run_keeps_in_step(now, keepalive_timeout, steps);
}

/// How each write went is asked for: a step of a poll that writes asks for the outcomes next,
/// and no other step does. So no error of a write is lost.
pub proof fn writes_are_followed_up<P: Protocol>(state: DispatcherView<P>, step: Step<P>)
    requires
        state.wf(),
        state.allows(step),
        step is Poll || step is Resume,
    ensures
        (exists|i: int| 0 <= i < state.effects(step).len() && #[trigger] state.effects(
            step,
        )[i] is Write) <==> state.request(step) == Some(Request::<P>::WriteOutcomes),
{
    let effects = state.effects(step);
    if state.request(step) == Some(Request::<P>::WriteOutcomes) {
        match step {
            Step::Resume(Event::Response(Poll::Ready(item))) => {
                crate::replies::after_response(state, Poll::Ready(item));
                let response_idx = state.response->0;
                crate::replies::answer_releases(state.inner, item, response_idx);
                assert(effects[0] == Effect::<P>::Write(item));
            },
            Step::Resume(Event::Called(res)) => {
                crate::replies::after_called(state, res);
                assert(effects[0] is Write);
            },
            _ => {},
        }
    }
}

} // verus!
