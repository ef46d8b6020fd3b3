//! The dispatcher.
use std::task::Poll;

use vstd::prelude::*;

use crate::action::{CallResult, Effect, Event, Request, WriteOutcome};
use crate::error::IoDispatcherError;
use crate::inner::IoDispatcherInner;
use crate::item::{DispatcherItem, Protocol};
use crate::machine::{DispatcherView, IoDispatcherState, Phase};
use crate::moment::Moment;

verus! {

/// The keep-alive timeout of a new dispatcher, in seconds.
pub const KEEPALIVE_TIMEOUT: u16 = 30;

/// Reads frames from a transport, hands them to a service, and writes what the service
/// answers, in the order of the calls.
pub struct Dispatcher<P: Protocol> {
    inner: IoDispatcherInner<P>,
    st: IoDispatcherState,
    updated: Moment,
    keepalive_timeout: u16,
    response: Option<usize>,
    phase: Phase<P>,
}

impl<P: Protocol> View for Dispatcher<P> {
    type V = DispatcherView<P>;

    closed spec fn view(&self) -> DispatcherView<P> {
        DispatcherView {
            inner: self.inner@,
            st: self.st,
            updated: self.updated,
            keepalive_timeout: self.keepalive_timeout,
            response: self.response,
            phase: self.phase,
        }
    }
}

impl<P: Protocol> Dispatcher<P> {
    /// A dispatcher that was made at the moment `now`. Its keep-alive deadline is set,
    /// and the tasks of the transport are started.
    pub fn with(now: Moment, effects: &mut Vec<Effect<P>>) -> (dispatcher: Self)
        requires
            now.fits(KEEPALIVE_TIMEOUT),
        ensures
            dispatcher@ == crate::machine::made::<P>(now, KEEPALIVE_TIMEOUT),
            dispatcher@.updated == now,
            dispatcher@.keepalive_timeout == 30,
            dispatcher@.wf(),
            final(effects)@ == old(effects)@ + crate::machine::made_effects::<P>(
                now,
                KEEPALIVE_TIMEOUT,
            ),
    {
        // register keepalive timer
        let expire = now.plus(KEEPALIVE_TIMEOUT);
        effects.push(Effect::RegisterTimer { expire, prev: expire });

        // start support tasks
        effects.push(Effect::StartIo);

        Dispatcher {
            inner: IoDispatcherInner::new(),
            st: IoDispatcherState::Processing,
            updated: now,
            keepalive_timeout: KEEPALIVE_TIMEOUT,
            response: None,
            phase: Phase::Idle,
        }
    }

    /// Sets the keep-alive timeout, in seconds.
    ///
    /// Zero means that there is none.
    ///
    /// A new dispatcher has a keep-alive timeout of 30 seconds.
    pub fn keepalive_timeout(self, timeout: u16, effects: &mut Vec<Effect<P>>) -> (dispatcher:
        Self)
        requires
            self@.wf(),
            self@.phase is Idle,
            self@.updated.fits(timeout),
        ensures
            dispatcher@ == self@.with_timeout(timeout),
            dispatcher@.keepalive_timeout == timeout,
            dispatcher@.updated == self@.updated,
            dispatcher@.wf(),
            final(effects)@ == old(effects)@ + self@.timeout_effects(timeout),
    {
        // register keepalive timer
        let prev = self.updated.plus(self.keepalive_timeout);
        if timeout == 0 {
            effects.push(Effect::UnregisterTimer(prev));
        } else {
            let expire = self.updated.plus(timeout);
            effects.push(Effect::RegisterTimer { expire, prev });
        }

        Dispatcher { keepalive_timeout: timeout, ..self }
    }

    /// Sets the time, in milliseconds, within which the transport has to disconnect.
    ///
    /// A connection that has not disconnected by then is dropped. Zero means that there
    /// is no such limit.
    pub fn disconnect_timeout(self, val: u16, effects: &mut Vec<Effect<P>>) -> (dispatcher: Self)
        ensures
            dispatcher == self,
            final(effects)@ == old(effects)@.push(Effect::SetDisconnectTimeout(val)),
    {
        effects.push(Effect::SetDisconnectTimeout(val));
        self
    }

    /// Starts a poll.
    pub fn poll(&mut self, effects: &mut Vec<Effect<P>>) -> (request: Request<P>)
        requires
            old(self)@.wf(),
            old(self)@.phase is Idle,
        ensures
            final(self)@ == old(self)@.polled().state,
            final(effects)@ == old(effects)@ + old(self)@.polled().effects,
            request == old(self)@.polled().request,
            final(self)@.wf(),
    {
        self.start()
    }

    /// Goes on with a poll after the reply `event`.
    pub fn resume(&mut self, event: Event<P>, effects: &mut Vec<Effect<P>>) -> (request: Request<P>)
        requires
            old(self)@.wf(),
            old(self)@.awaits(event),
        ensures
            final(self)@ == old(self)@.resumed(event).state,
            final(effects)@ == old(effects)@ + old(self)@.resumed(event).effects,
            request == old(self)@.resumed(event).request,
            final(self)@.wf(),
    {
        match event {
            Event::Response(res) => self.on_response(res, effects),
            Event::Written(outcomes) => self.on_written(outcomes),
            Event::Readiness(res) => match self.phase {
                Phase::Drain => self.on_drained(effects),
                _ => self.on_readiness(res, effects),
            },
            Event::Flags { stopped, keepalive_err, read_ready } => self.on_flags(
                stopped,
                keepalive_err,
                read_ready,
                effects,
            ),
            Event::IoError(err) => self.on_io_error(err, effects),
            Event::Decoded(res) => self.on_decoded(res, effects),
            Event::Now(now) => self.on_now(now, effects),
            Event::Called(res) => self.on_called(res, effects),
            Event::ServiceShutdown(res) => self.on_shutdown(res),
        }
    }

    /// Takes the result of a call that has a task of its own.
    ///
    /// The results that can be written now are written, in the order of the calls, and
    /// the dispatcher is woken where nothing is left to write. How the writes went is
    /// told to [`Dispatcher::record_writes`].
    pub fn handle_result(
        &mut self,
        item: CallResult<P>,
        response_idx: usize,
        effects: &mut Vec<Effect<P>>,
    )
        requires
            old(self)@.wf(),
            old(self)@.accepts(response_idx),
        ensures
            final(self)@ == old(self)@.answered(item, response_idx),
            final(effects)@ == old(effects)@ + old(self)@.inner.answer_effects(
                item,
                response_idx,
                true,
            ),
            final(self)@.wf(),
    {
        proof {
            crate::inner::lemma_leading_ready(self.inner@.behind_first());
            if let Some(held) = self.response {
                crate::inner::lemma_stays_outstanding(self.inner@, item, response_idx, held);
            }
        }
        self.inner.handle_result(item, response_idx, true, effects);
    }

    /// Takes the outcomes of the writes that [`Dispatcher::handle_result`] gave rise to:
    /// the error of the last write that failed is kept.
    pub fn record_writes(&mut self, outcomes: Vec<WriteOutcome<P>>)
        requires
            old(self)@.wf(),
        ensures
            final(self)@ == old(self)@.recorded(outcomes@),
            final(self)@.wf(),
    {
        self.inner.record_writes(outcomes);
    }

    /// Whether a call that has a task of its own may hand in a result with this index.
    pub fn accepts(&self, response_idx: usize) -> (accepts: bool)
        ensures
            accepts == self@.accepts(response_idx),
    {
        let held = match self.response {
            Some(held) => held == response_idx,
            None => false,
        };
        self.inner.accepts(response_idx) && !held
    }

    /// Whether `event` is a reply that is waited for.
    pub fn awaits(&self, event: &Event<P>) -> (awaits: bool)
        ensures
            awaits == self@.awaits(*event),
    {
        match (event, &self.phase) {
            (Event::Response(_), Phase::Response) => true,
            (Event::Written(_), Phase::ResponseWrites) => true,
            (Event::Written(_), Phase::CallWrite) => true,
            (Event::Readiness(_), Phase::Readiness) => true,
            (Event::Readiness(_), Phase::Drain) => true,
            (Event::Flags { .. }, Phase::Flags) => true,
            (Event::IoError(_), Phase::IoError) => true,
            (Event::Decoded(_), Phase::Decode) => true,
            (Event::Now(now), Phase::Clock(_)) => now.can_add(self.keepalive_timeout),
            (Event::Called(_), Phase::Call) => true,
            (Event::ServiceShutdown(_), Phase::Shutdown) => true,
            _ => false,
        }
    }

    /// Whether no poll is under way.
    pub fn is_idle(&self) -> (idle: bool)
        ensures
            idle == (self@.phase is Idle),
    {
        match &self.phase {
            Phase::Idle => true,
            _ => false,
        }
    }

    /// When the last frame came, or else when the dispatcher was made.
    pub fn updated(&self) -> (updated: Moment)
        ensures
            updated == self@.updated,
    {
        self.updated
    }
}

impl<P: Protocol> Dispatcher<P> {
    /// Begins a poll: the call that is held comes first.
    fn start(&mut self) -> (request: Request<P>)
        requires
            old(self)@.at(Phase::Idle).wf(),
        ensures
            final(self)@ == old(self)@.polled().state,
            Seq::<Effect<P>>::empty() == old(self)@.polled().effects,
            request == old(self)@.polled().request,
            final(self)@.wf(),
    {
        if self.response.is_some() {
            self.phase = Phase::Response;
            Request::PollResponse
        } else {
            self.dispatch()
        }
    }

    /// Goes on with a poll once the call that is held has been seen to.
    fn dispatch(&mut self) -> (request: Request<P>)
        requires
            old(self)@.at(Phase::Idle).wf(),
        ensures
            final(self)@ == old(self)@.dispatched().state,
            Seq::<Effect<P>>::empty() == old(self)@.dispatched().effects,
            request == old(self)@.dispatched().request,
            final(self)@.wf(),
    {
        match self.st {
            IoDispatcherState::Processing => {
                self.phase = Phase::Readiness;
                Request::PollReady
            },
            // drain service responses
            IoDispatcherState::Stop => {
                // service may rely on poll_ready for response results
                self.phase = Phase::Drain;
                Request::PollReady
            },
            // shutdown service
            IoDispatcherState::Shutdown => {
                self.phase = Phase::Shutdown;
                Request::PollShutdown(self.inner.has_error())
            },
        }
    }

    /// Calls the service.
    fn call(&mut self, item: DispatcherItem<P>, effects: &mut Vec<Effect<P>>) -> (request: Request<
        P,
    >)
        requires
            old(self)@.at(Phase::Idle).wf(),
            !(old(self)@.st is Shutdown),
        ensures
            final(self)@ == old(self)@.called(item).state,
            final(effects)@ == old(effects)@ + old(self)@.called(item).effects,
            request == old(self)@.called(item).request,
            final(self)@.wf(),
    {
        // optimize first call
        if self.response.is_none() {
            self.phase = Phase::Call;
            Request::Call(item)
        } else {
            let response_idx: usize = self.inner.push_pending();
            effects.push(Effect::Spawn { item, response_idx });
            self.after_call()
        }
    }

    /// Goes on after a call.
    fn after_call(&mut self) -> (request: Request<P>)
        requires
            old(self)@.at(Phase::Idle).wf(),
        ensures
            final(self)@ == old(self)@.after_call().state,
            Seq::<Effect<P>>::empty() == old(self)@.after_call().effects,
            request == old(self)@.after_call().request,
            final(self)@.wf(),
    {
        match self.st {
            IoDispatcherState::Processing => {
                self.phase = Phase::Readiness;
                Request::PollReady
            },
            // run again
            _ => self.start(),
        }
    }
}

impl<P: Protocol> Dispatcher<P> {
    /// Goes on after a poll of the call that is held.
    fn on_response(
        &mut self,
        res: Poll<CallResult<P>>,
        effects: &mut Vec<Effect<P>>,
    ) -> (request: Request<P>)
        requires
            old(self)@.wf(),
            old(self)@.phase is Response,
        ensures
            final(self)@ == old(self)@.on_response(res).state,
            final(effects)@ == old(effects)@ + old(self)@.on_response(res).effects,
            request == old(self)@.on_response(res).request,
            final(self)@.wf(),
    {
        match res {
            Poll::Pending => self.dispatch(),
            Poll::Ready(item) => {
                if let Some(response_idx) = self.response.take() {
                    proof {
                        crate::inner::lemma_leading_ready(self.inner@.behind_first());
                    }
                    let writes: usize = effects.len();
                    self.inner.handle_result(item, response_idx, false, effects);
                    if effects.len() > writes {
                        self.phase = Phase::ResponseWrites;
                        return Request::WriteOutcomes;
                    }
                }
                self.dispatch()
            },
        }
    }

    /// Goes on after some writes.
    fn on_written(&mut self, outcomes: Vec<WriteOutcome<P>>) -> (request: Request<P>)
        requires
            old(self)@.wf(),
            old(self)@.phase is ResponseWrites || old(self)@.phase is CallWrite,
        ensures
            final(self)@ == old(self)@.on_written(outcomes@).state,
            Seq::<Effect<P>>::empty() == old(self)@.on_written(outcomes@).effects,
            request == old(self)@.on_written(outcomes@).request,
            final(self)@.wf(),
    {
        self.inner.record_writes(outcomes);
        match self.phase {
            Phase::CallWrite => self.after_call(),
            _ => self.dispatch(),
        }
    }

    /// Goes on once it is known whether the service is ready for a call.
    fn on_readiness(
        &mut self,
        res: Poll<Result<(), P::ServiceError>>,
        effects: &mut Vec<Effect<P>>,
    ) -> (request: Request<P>)
        requires
            old(self)@.wf(),
            old(self)@.phase is Readiness,
        ensures
            final(self)@ == old(self)@.on_readiness(res).state,
            final(effects)@ == old(effects)@ + old(self)@.on_readiness(res).effects,
            request == old(self)@.on_readiness(res).request,
            final(self)@.wf(),
    {
        match res {
            Poll::Ready(Ok(_)) => {
                // service is ready, wake io read task
                effects.push(Effect::RestartRead);
                self.phase = Phase::Flags;
                Request::ReadFlags
            },
            Poll::Pending => {
                // pause io read task
                effects.push(Effect::ServiceNotReady);
                self.phase = Phase::Idle;
                Request::Return(Poll::Pending)
            },
            Poll::Ready(Err(err)) => {
                // service readiness error
                self.st = IoDispatcherState::Stop;
                self.inner.set_error(IoDispatcherError::Service(err));
                effects.push(Effect::MarkStopped);
                self.unregister_timer(effects);
                self.start()
            },
        }
    }

    /// Goes on after a poll of the service while calls are finished.
    fn on_drained(&mut self, effects: &mut Vec<Effect<P>>) -> (request: Request<P>)
        requires
            old(self)@.wf(),
            old(self)@.phase is Drain,
        ensures
            final(self)@ == old(self)@.on_drained().state,
            final(effects)@ == old(effects)@ + old(self)@.on_drained().effects,
            request == old(self)@.on_drained().request,
            final(self)@.wf(),
    {
        if self.inner.is_empty() {
            effects.push(Effect::ShutdownIo);
            self.st = IoDispatcherState::Shutdown;
            self.start()
        } else {
            effects.push(Effect::RegisterTask);
            self.phase = Phase::Idle;
            Request::Return(Poll::Pending)
        }
    }

    /// Goes on once the state of the transport is known.
    fn on_flags(
        &mut self,
        stopped: bool,
        keepalive_err: bool,
        read_ready: bool,
        effects: &mut Vec<Effect<P>>,
    ) -> (request: Request<P>)
        requires
            old(self)@.wf(),
            old(self)@.phase is Flags,
        ensures
            final(self)@ == old(self)@.on_flags(stopped, keepalive_err, read_ready).state,
            final(effects)@ == old(effects)@ + old(self)@.on_flags(
                stopped,
                keepalive_err,
                read_ready,
            ).effects,
            request == old(self)@.on_flags(stopped, keepalive_err, read_ready).request,
            final(self)@.wf(),
    {
        if stopped {
            // check keepalive timeout
            if keepalive_err {
                self.inner.set_keepalive_error();
            } else {
                self.unregister_timer(effects);
            }

            // check for errors
            self.st = IoDispatcherState::Stop;
            match self.inner.take_error_item() {
                Some(item) => self.call(item, effects),
                None => {
                    self.phase = Phase::IoError;
                    Request::TakeIoError
                },
            }
        } else if read_ready {
            // decode incoming bytes stream
            self.phase = Phase::Decode;
            Request::Decode
        } else {
            effects.push(Effect::RegisterTask);
            self.phase = Phase::Idle;
            Request::Return(Poll::Pending)
        }
    }

    /// Goes on once the error of the transport is known.
    fn on_io_error(
        &mut self,
        err: Option<P::IoError>,
        effects: &mut Vec<Effect<P>>,
    ) -> (request: Request<P>)
        requires
            old(self)@.wf(),
            old(self)@.phase is IoError,
        ensures
            final(self)@ == old(self)@.on_io_error(err).state,
            final(effects)@ == old(effects)@ + old(self)@.on_io_error(err).effects,
            request == old(self)@.on_io_error(err).request,
            final(self)@.wf(),
    {
        match err {
            Some(err) => self.call(DispatcherItem::IoError(err), effects),
            None => self.after_call(),
        }
    }

    /// Goes on with the next frame.
    fn on_decoded(
        &mut self,
        res: Result<Option<P::Item>, P::DecoderError>,
        effects: &mut Vec<Effect<P>>,
    ) -> (request: Request<P>)
        requires
            old(self)@.wf(),
            old(self)@.phase is Decode,
        ensures
            final(self)@ == old(self)@.on_decoded(res).state,
            final(effects)@ == old(effects)@ + old(self)@.on_decoded(res).effects,
            request == old(self)@.on_decoded(res).request,
            final(self)@.wf(),
    {
        match res {
            Ok(Some(el)) => {
                // update keep-alive timer
                if self.keepalive_timeout != 0 {
                    self.phase = Phase::Clock(el);
                    Request::Now
                } else {
                    self.call(DispatcherItem::Item(el), effects)
                }
            },
            Ok(None) => {
                // not enough data to decode next frame
                effects.push(Effect::ReadMoreData);
                self.phase = Phase::Idle;
                Request::Return(Poll::Pending)
            },
            Err(err) => {
                self.st = IoDispatcherState::Stop;
                self.unregister_timer(effects);
                self.call(DispatcherItem::DecoderError(err), effects)
            },
        }
    }

    /// Goes on with the frame that was decoded, once the time is known.
    fn on_now(&mut self, now: Moment, effects: &mut Vec<Effect<P>>) -> (request: Request<P>)
        requires
            old(self)@.wf(),
            old(self)@.phase is Clock,
            now.fits(old(self)@.keepalive_timeout),
        ensures
            final(self)@ == old(self)@.on_now(old(self)@.phase->Clock_0, now).state,
            final(effects)@ == old(effects)@ + old(self)@.on_now(
                old(self)@.phase->Clock_0,
                now,
            ).effects,
            request == old(self)@.on_now(old(self)@.phase->Clock_0, now).request,
            final(self)@.wf(),
    {
        let mut phase = Phase::Idle;
        std::mem::swap(&mut self.phase, &mut phase);
        match phase {
            Phase::Clock(el) => {
                if now != self.updated {
                    let expire = now.plus(self.keepalive_timeout);
                    let prev = self.updated.plus(self.keepalive_timeout);
                    effects.push(Effect::RegisterTimer { expire, prev });
                    self.updated = now;
                }
                self.call(DispatcherItem::Item(el), effects)
            },
            _ => self.start(),
        }
    }

    /// Goes on after a new call has been polled once.
    fn on_called(
        &mut self,
        res: Poll<CallResult<P>>,
        effects: &mut Vec<Effect<P>>,
    ) -> (request: Request<P>)
        requires
            old(self)@.wf(),
            old(self)@.phase is Call,
        ensures
            final(self)@ == old(self)@.on_called(res).state,
            final(effects)@ == old(effects)@ + old(self)@.on_called(res).effects,
            request == old(self)@.on_called(res).request,
            final(self)@.wf(),
    {
        match res {
            Poll::Ready(res) => {
                // check if current result is only response atm
                if self.inner.push_result(res, effects) {
                    self.phase = Phase::CallWrite;
                    Request::WriteOutcomes
                } else {
                    self.after_call()
                }
            },
            Poll::Pending => {
                let response_idx: usize = self.inner.push_pending();
                self.response = Some(response_idx);
                self.after_call()
            },
        }
    }

    /// Goes on once it is known whether the service has shut down.
    fn on_shutdown(&mut self, res: Poll<()>) -> (request: Request<P>)
        requires
            old(self)@.wf(),
            old(self)@.phase is Shutdown,
        ensures
            final(self)@ == old(self)@.on_shutdown(res).state,
            Seq::<Effect<P>>::empty() == old(self)@.on_shutdown(res).effects,
            request == old(self)@.on_shutdown(res).request,
            final(self)@.wf(),
    {
        self.phase = Phase::Idle;
        match res {
            Poll::Ready(_) => Request::Return(Poll::Ready(self.inner.take_service_error())),
            Poll::Pending => Request::Return(Poll::Pending),
        }
    }

    /// Calls the keep-alive deadline off, if there is one.
    fn unregister_timer(&self, effects: &mut Vec<Effect<P>>)
        requires
            self@.updated.fits(self@.keepalive_timeout),
        ensures
            final(effects)@ == old(effects)@ + self@.unregister(),
    {
        if self.keepalive_timeout != 0 {
            effects.push(Effect::UnregisterTimer(self.updated.plus(self.keepalive_timeout)));
        }
    }
}

} // verus!
