//! The state machine of the dispatcher: what one step does to the state, which effects
//! it has, and what it asks for next.
use std::task::Poll;

use vstd::prelude::*;

use crate::action::{CallResult, Effect, Event, Request, WriteOutcome};
use crate::error::IoDispatcherError;
use crate::inner::InnerView;
use crate::item::{DispatcherItem, Protocol};
use crate::moment::Moment;
use crate::service_result::ServiceResult;

verus! {

/// How far the life of a dispatcher has come.
#[derive(Clone, Copy, Debug, PartialEq, Eq, Structural)]
pub enum IoDispatcherState {
    /// Frames are read and handed to the service.
    Processing,
    /// No more frames are read. The calls that are under way are finished.
    Stop,
    /// The service is shut down.
    Shutdown,
}

/// The reply that a poll waits for.
pub enum Phase<P: Protocol> {
    /// None: no poll is under way.
    Idle,
    /// What the call that is held returned.
    Response,
    /// How the writes went that the call that was held gave rise to.
    ResponseWrites,
    /// Whether the service is ready for a call.
    Readiness,
    /// The state of the transport.
    Flags,
    /// The error of the transport.
    IoError,
    /// The next frame.
    Decode,
    /// The time, with the frame that was decoded.
    Clock(P::Item),
    /// What the new call returned.
    Call,
    /// How the write of the result of the new call went.
    CallWrite,
    /// Whether the service is ready, asked while calls are finished.
    Drain,
    /// Whether the service has shut down.
    Shutdown,
}

/// The view of a dispatcher.
#[verifier::ext_equal]
pub struct DispatcherView<P: Protocol> {
    /// The calls that are under way, and the error that was met last.
    pub inner: InnerView<P>,
    /// How far the life of the dispatcher has come.
    pub st: IoDispatcherState,
    /// When the last frame came, or else when the dispatcher was made.
    pub updated: Moment,
    /// The keep-alive timeout in seconds, or zero where there is none.
    pub keepalive_timeout: u16,
    /// The index of the call that is held, if one is.
    pub response: Option<usize>,
    /// The reply that is waited for.
    pub phase: Phase<P>,
}

/// A dispatcher that was made at the moment `now`, with the keep-alive timeout
/// `keepalive_timeout`.
pub open spec fn made<P: Protocol>(now: Moment, keepalive_timeout: u16) -> DispatcherView<P> {
    DispatcherView {
        inner: InnerView { error: None, base: 0, queue: Seq::empty() },
        st: IoDispatcherState::Processing,
        updated: now,
        keepalive_timeout,
        response: None,
        phase: Phase::Idle,
    }
}

/// What setting up a dispatcher at the moment `now` comes to: its keep-alive deadline is
/// set, and the tasks of the transport are started.
pub open spec fn made_effects<P: Protocol>(now: Moment, keepalive_timeout: u16) -> Seq<Effect<P>> {
    seq![
        Effect::RegisterTimer {
            expire: now.later(keepalive_timeout),
            prev: now.later(keepalive_timeout),
        },
        Effect::StartIo,
    ]
}

/// What a step comes to.
#[verifier::ext_equal]
pub struct Outcome<P: Protocol> {
    /// The state afterwards.
    pub state: DispatcherView<P>,
    /// The outside work that is done without a reply, in order.
    pub effects: Seq<Effect<P>>,
    /// What is asked for next.
    pub request: Request<P>,
}

impl<P: Protocol> Outcome<P> {
    /// With some effects before those of this outcome.
    pub open spec fn after(self, effects: Seq<Effect<P>>) -> Self {
        Outcome { effects: effects + self.effects, ..self }
    }
}

impl<P: Protocol> DispatcherView<P> {
    /// The keep-alive deadline.
    pub open spec fn deadline(self) -> Moment {
        self.updated.later(self.keepalive_timeout)
    }

    /// What calls the keep-alive deadline off, if there is one.
    pub open spec fn unregister(self) -> Seq<Effect<P>> {
        if self.keepalive_timeout != 0 {
            seq![Effect::UnregisterTimer(self.deadline())]
        } else {
            Seq::empty()
        }
    }

    /// With another keep-alive timeout.
    pub open spec fn with_timeout(self, timeout: u16) -> Self {
        DispatcherView { keepalive_timeout: timeout, ..self }
    }

    /// What moves the keep-alive deadline to that of another timeout.
    pub open spec fn timeout_effects(self, timeout: u16) -> Seq<Effect<P>> {
        if timeout == 0 {
            seq![Effect::UnregisterTimer(self.deadline())]
        } else {
            seq![
                Effect::RegisterTimer {
                    expire: self.with_timeout(timeout).deadline(),
                    prev: self.deadline(),
                },
            ]
        }
    }

    /// In another phase.
    pub open spec fn at(self, phase: Phase<P>) -> Self {
        DispatcherView { phase, ..self }
    }

    /// In the phase `phase`, with `request` asked for.
    pub open spec fn asks(self, phase: Phase<P>, request: Request<P>) -> Outcome<P> {
        Outcome { state: self.at(phase), effects: Seq::empty(), request }
    }

    /// The end of a poll that has not come to its end, after one more effect.
    pub open spec fn pends(self, effect: Effect<P>) -> Outcome<P> {
        self.asks(Phase::Idle, Request::Return(Poll::Pending)).after(seq![effect])
    }

    /// A poll: the call that is held comes first.
    pub open spec fn polled(self) -> Outcome<P> {
        if self.response is Some {
            self.asks(Phase::Response, Request::PollResponse)
        } else {
            self.dispatched()
        }
    }

    /// A poll, once the call that is held has been seen to.
    pub open spec fn dispatched(self) -> Outcome<P> {
        match self.st {
            IoDispatcherState::Processing => self.asks(Phase::Readiness, Request::PollReady),
            IoDispatcherState::Stop => self.asks(Phase::Drain, Request::PollReady),
            IoDispatcherState::Shutdown => self.asks(
                Phase::Shutdown,
                Request::PollShutdown(self.inner.error is Some),
            ),
        }
    }

    /// A call of the service. Where a call is held already, the new one gets a task of
    /// its own.
    pub open spec fn called(self, item: DispatcherItem<P>) -> Outcome<P> {
        if self.response is None {
            self.asks(Phase::Call, Request::Call(item))
        } else {
            DispatcherView {
                inner: self.inner.pushed(ServiceResult::Pending),
                ..self
            }.after_call().after(
                seq![Effect::Spawn { item, response_idx: self.inner.next_index() }],
            )
        }
    }

    /// What follows a call: the next frame, or, where the dispatcher stops, a new poll.
    pub open spec fn after_call(self) -> Outcome<P> {
        if self.st is Processing {
            self.asks(Phase::Readiness, Request::PollReady)
        } else {
            self.polled()
        }
    }

    /// The reply of the call that is held.
    pub open spec fn on_response(self, res: Poll<CallResult<P>>) -> Outcome<P> {
        match res {
            Poll::Pending => self.dispatched(),
            Poll::Ready(item) => {
                let response_idx = self.response->0;
                let writes = self.inner.answer_effects(item, response_idx, false);
                let next = DispatcherView {
                    inner: self.inner.answered(item, response_idx),
                    response: None,
                    ..self
                };
                if writes.len() > 0 {
                    next.asks(Phase::ResponseWrites, Request::WriteOutcomes).after(writes)
                } else {
                    next.dispatched()
                }
            },
        }
    }

    /// The outcomes of writes.
    pub open spec fn on_written(self, outcomes: Seq<WriteOutcome<P>>) -> Outcome<P> {
        let next = DispatcherView { inner: self.inner.recorded(outcomes), ..self };
        if self.phase is CallWrite {
            next.after_call()
        } else {
            next.dispatched()
        }
    }

    /// Whether the service is ready for a call.
    pub open spec fn on_readiness(self, res: Poll<Result<(), P::ServiceError>>) -> Outcome<P> {
        match res {
            Poll::Pending => self.pends(Effect::ServiceNotReady),
            Poll::Ready(Ok(_)) => self.asks(Phase::Flags, Request::ReadFlags).after(
                seq![Effect::RestartRead],
            ),
            Poll::Ready(Err(err)) => DispatcherView {
                st: IoDispatcherState::Stop,
                inner: InnerView { error: Some(IoDispatcherError::Service(err)), ..self.inner },
                ..self
            }.polled().after(seq![Effect::MarkStopped] + self.unregister()),
        }
    }

    /// A poll of the service while calls are finished, whatever it came to.
    pub open spec fn on_drained(self) -> Outcome<P> {
        if self.inner.queue.len() == 0 {
            DispatcherView { st: IoDispatcherState::Shutdown, ..self }.polled().after(
                seq![Effect::ShutdownIo],
            )
        } else {
            self.pends(Effect::RegisterTask)
        }
    }

    /// The state of the transport.
    ///
    /// Where the dispatcher is told to stop, the service is told of the error that was
    /// met; where it cannot be told of one, the transport is asked for its error.
    pub open spec fn on_flags(
        self,
        stopped: bool,
        keepalive_err: bool,
        read_ready: bool,
    ) -> Outcome<
        P,
    > {
        if stopped {
            let inner = if keepalive_err {
                self.inner.expired()
            } else {
                self.inner
            };
            let next = DispatcherView {
                st: IoDispatcherState::Stop,
                inner: inner.error_taken(),
                ..self
            };
            (match inner.error_item() {
                Some(item) => next.called(item),
                None => next.asks(Phase::IoError, Request::TakeIoError),
            }).after(
                if keepalive_err {
                    Seq::empty()
                } else {
                    self.unregister()
                },
            )
        } else if read_ready {
            self.asks(Phase::Decode, Request::Decode)
        } else {
            self.pends(Effect::RegisterTask)
        }
    }

    /// The error of the transport.
    pub open spec fn on_io_error(self, err: Option<P::IoError>) -> Outcome<P> {
        match err {
            Some(err) => self.called(DispatcherItem::IoError(err)),
            None => self.after_call(),
        }
    }

    /// The next frame.
    pub open spec fn on_decoded(self, res: Result<Option<P::Item>, P::DecoderError>) -> Outcome<P> {
        match res {
            Ok(Some(el)) => if self.keepalive_timeout != 0 {
                self.asks(Phase::Clock(el), Request::Now)
            } else {
                self.called(DispatcherItem::Item(el))
            },
            Ok(None) => self.pends(Effect::ReadMoreData),
            Err(err) => DispatcherView { st: IoDispatcherState::Stop, ..self }.called(
                DispatcherItem::DecoderError(err),
            ).after(self.unregister()),
        }
    }

    /// The time at which the frame `el` came, which moves the keep-alive deadline.
    pub open spec fn on_now(self, el: P::Item, now: Moment) -> Outcome<P> {
        if now != self.updated {
            let next = DispatcherView { updated: now, ..self };
            next.called(DispatcherItem::Item(el)).after(
                seq![Effect::RegisterTimer { expire: next.deadline(), prev: self.deadline() }],
            )
        } else {
            self.called(DispatcherItem::Item(el))
        }
    }

    /// The reply of a new call.
    ///
    /// A result is written at once if it is the only response, else it waits in the
    /// queue.
    pub open spec fn on_called(self, res: Poll<CallResult<P>>) -> Outcome<P> {
        match res {
            Poll::Ready(res) => if self.inner.queue.len() == 0 {
                self.asks(Phase::CallWrite, Request::WriteOutcomes).after(
                    seq![Effect::Write(res)],
                )
            } else {
                DispatcherView {
                    inner: self.inner.pushed(ServiceResult::Ready(res)),
                    ..self
                }.after_call()
            },
            Poll::Pending => DispatcherView {
                inner: self.inner.pushed(ServiceResult::Pending),
                response: Some(self.inner.next_index()),
                ..self
            }.after_call(),
        }
    }

    /// Whether the service has shut down.
    pub open spec fn on_shutdown(self, res: Poll<()>) -> Outcome<P> {
        match res {
            Poll::Ready(_) => DispatcherView {
                inner: InnerView { error: None, ..self.inner },
                ..self
            }.asks(Phase::Idle, Request::Return(Poll::Ready(self.inner.outcome()))),
            Poll::Pending => self.asks(Phase::Idle, Request::Return(Poll::Pending)),
        }
    }

    /// Whether a call that has a task of its own may hand in a result with this index.
    pub open spec fn accepts(self, response_idx: usize) -> bool {
        self.inner.accepts(response_idx) && self.response != Some(response_idx)
    }

    /// After a call that has a task of its own has been answered.
    pub open spec fn answered(self, item: CallResult<P>, response_idx: usize) -> Self {
        DispatcherView { inner: self.inner.answered(item, response_idx), ..self }
    }

    /// After writes, outside of a poll, with these outcomes.
    pub open spec fn recorded(self, outcomes: Seq<WriteOutcome<P>>) -> Self {
        DispatcherView { inner: self.inner.recorded(outcomes), ..self }
    }

    /// Whether `event` is a reply that is waited for.
    pub open spec fn awaits(self, event: Event<P>) -> bool {
        match event {
            Event::Response(_) => self.phase is Response,
            Event::Written(_) => self.phase is ResponseWrites || self.phase is CallWrite,
            Event::Readiness(_) => self.phase is Readiness || self.phase is Drain,
            Event::Flags { .. } => self.phase is Flags,
            Event::IoError(_) => self.phase is IoError,
            Event::Decoded(_) => self.phase is Decode,
            Event::Now(now) => self.phase is Clock && now.fits(self.keepalive_timeout),
            Event::Called(_) => self.phase is Call,
            Event::ServiceShutdown(_) => self.phase is Shutdown,
        }
    }

    /// What a reply comes to.
    pub open spec fn resumed(self, event: Event<P>) -> Outcome<P> {
        match event {
            Event::Response(res) => self.on_response(res),
            Event::Written(outcomes) => self.on_written(outcomes@),
            Event::Readiness(res) => if self.phase is Drain {
                self.on_drained()
            } else {
                self.on_readiness(res)
            },
            Event::Flags { stopped, keepalive_err, read_ready } => self.on_flags(
                stopped,
                keepalive_err,
                read_ready,
            ),
            Event::IoError(err) => self.on_io_error(err),
            Event::Decoded(res) => self.on_decoded(res),
            Event::Now(now) => self.on_now(self.phase->Clock_0, now),
            Event::Called(res) => self.on_called(res),
            Event::ServiceShutdown(res) => self.on_shutdown(res),
        }
    }

    /// What holds between any two steps.
    pub open spec fn wf(self) -> bool {
        &&& self.updated.fits(self.keepalive_timeout)
        &&& self.inner.queue.len() <= usize::MAX
        &&& self.inner.is_drained()
        &&& self.response is Some ==> self.inner.is_outstanding(self.response->0)
        &&& self.st is Shutdown ==> self.inner.queue.len() == 0
        &&& match self.phase {
            Phase::Idle => true,
            Phase::Response => self.response is Some,
            Phase::ResponseWrites => self.response is None,
            Phase::Readiness | Phase::Flags | Phase::Decode => self.st is Processing,
            Phase::Clock(_) => self.st is Processing && self.keepalive_timeout != 0,
            Phase::IoError | Phase::Drain => self.st is Stop,
            Phase::Call => self.response is None && !(self.st is Shutdown),
            Phase::CallWrite => self.response is None && self.inner.queue.len() == 0 && !(
            self.st is Shutdown),
            Phase::Shutdown => self.st is Shutdown,
        }
    }
}

} // verus!
