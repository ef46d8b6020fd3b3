//! Whole connections: a dispatcher, a transport in memory, a clock and a service.
use std::task::Poll;

use either::Either;
use io_dispatcher::action::{CallResult, Effect, Event, Request, WriteOutcome};
use io_dispatcher::dispatcher::Dispatcher;
use io_dispatcher::item::{DispatcherItem, Protocol};
use io_dispatcher::moment::Moment;

/// Frames are whatever bytes there are.
struct BytesCodec;

impl Protocol for BytesCodec {
    type Item = Vec<u8>;
    type Response = Option<Vec<u8>>;
    type ServiceError = ();
    type DecoderError = ();
    type EncoderError = ();
    type IoError = ();
}

/// What the service does with a frame.
#[derive(Clone, Copy)]
enum Service {
    /// Answers with the frame after some milliseconds.
    Echo(u64),
    /// Answers with the frame once the condition is notified.
    EchoNotified,
    /// Fails.
    Fail,
}

/// A call that is under way.
struct Call {
    item: DispatcherItem<BytesCodec>,
    since: u64,
}

/// One connection, with the client at its other end.
struct Connection {
    // the client
    to_server: Vec<u8>,
    to_client: Vec<u8>,
    remote_buffer_cap: usize,
    client_closed: bool,
    // the transport
    read_buf: Vec<u8>,
    write_buf: Vec<u8>,
    read_ready: bool,
    read_paused: bool,
    dsp_stopped: bool,
    keepalive_err: bool,
    dsp_err: bool,
    shutdown_at: Option<u64>,
    write_closed: bool,
    server_dropped: bool,
    disconnect_timeout: u64,
    deadlines: Vec<Moment>,
    // the service
    service: Service,
    notified: bool,
    held: Option<Call>,
    spawned: Vec<(usize, Call)>,
    told: Vec<&'static str>,
    // the dispatcher
    now: u64,
    dispatcher: Option<Dispatcher<BytesCodec>>,
    outcome: Option<Result<(), ()>>,
}

fn moment(millis: u64) -> Moment {
    Moment { secs: millis / 1000, nanos: (millis % 1000) as u32 * 1_000_000 }
}

impl Connection {
    fn new(service: Service) -> Self {
        Self::with(service, |dispatcher, _| dispatcher)
    }

    fn with(
        service: Service,
        configure: fn(
            Dispatcher<BytesCodec>,
            &mut Vec<Effect<BytesCodec>>,
        ) -> Dispatcher<BytesCodec>,
    ) -> Self {
        let mut effects = Vec::new();
        let dispatcher = Dispatcher::with(moment(0), &mut effects);
        let dispatcher = configure(dispatcher, &mut effects);
        let mut io = Connection {
            to_server: Vec::new(),
            to_client: Vec::new(),
            remote_buffer_cap: 0,
            client_closed: false,
            read_buf: Vec::new(),
            write_buf: Vec::new(),
            read_ready: false,
            read_paused: false,
            dsp_stopped: false,
            keepalive_err: false,
            dsp_err: false,
            shutdown_at: None,
            write_closed: false,
            server_dropped: false,
            disconnect_timeout: 1000,
            deadlines: Vec::new(),
            service,
            notified: false,
            held: None,
            spawned: Vec::new(),
            told: Vec::new(),
            now: 0,
            dispatcher: Some(dispatcher),
            outcome: None,
        };
        assert!(io.perform(effects).is_empty());
        io
    }

    /// The result of a call, if the service has come to one.
    fn poll_call(&self, call: &Call) -> Poll<CallResult<BytesCodec>> {
        let echo = match &call.item {
            DispatcherItem::Item(msg) => Ok(Some(msg.clone())),
            _ => Ok(None),
        };
        match self.service {
            Service::Echo(delay) if self.now < call.since + delay => Poll::Pending,
            Service::Echo(_) => Poll::Ready(echo),
            Service::EchoNotified if self.notified => Poll::Ready(echo),
            Service::EchoNotified => Poll::Pending,
            Service::Fail => Poll::Ready(Err(())),
        }
    }

    fn call(&mut self, item: DispatcherItem<BytesCodec>) -> Call {
        self.told.push(match &item {
            DispatcherItem::Item(_) => "item",
            DispatcherItem::KeepAliveTimeout => "keep-alive",
            DispatcherItem::DecoderError(_) => "decoder",
            DispatcherItem::EncoderError(_) => "encoder",
            DispatcherItem::IoError(_) => "io",
        });
        Call { item, since: self.now }
    }

    fn write_result(&mut self, res: CallResult<BytesCodec>) -> WriteOutcome<BytesCodec> {
        if self.dsp_err {
            return Ok(());
        }
        match res {
            Ok(Some(msg)) => self.write_buf.extend(msg),
            Ok(None) => (),
            Err(err) => {
                self.dsp_err = true;
                self.dsp_stopped = true;
                return Err(Either::Left(err));
            }
        }
        Ok(())
    }

    fn perform(&mut self, effects: Vec<Effect<BytesCodec>>) -> Vec<WriteOutcome<BytesCodec>> {
        let mut outcomes = Vec::new();
        for effect in effects {
            match effect {
                Effect::RegisterTimer { expire, prev } => {
                    self.deadlines.retain(|deadline| *deadline != prev);
                    self.deadlines.push(expire);
                }
                Effect::UnregisterTimer(expire) => {
                    self.deadlines.retain(|deadline| *deadline != expire);
                }
                Effect::SetDisconnectTimeout(val) => self.disconnect_timeout = val as u64,
                Effect::RestartRead => self.read_paused = false,
                Effect::ServiceNotReady => self.read_paused = true,
                Effect::ReadMoreData => self.read_ready = false,
                Effect::MarkStopped => self.dsp_stopped = true,
                Effect::ShutdownIo => self.shutdown_at = Some(self.now),
                Effect::Spawn { item, response_idx } => {
                    let call = self.call(item);
                    self.spawned.push((response_idx, call));
                }
                Effect::Write(res) => {
                    let outcome = self.write_result(res);
                    outcomes.push(outcome);
                }
                Effect::StartIo | Effect::RegisterTask | Effect::WakeTask => (),
            }
        }
        outcomes
    }

    fn poll_dispatcher(&mut self) {
        let mut dispatcher = match self.dispatcher.take() {
            Some(dispatcher) if self.outcome.is_none() => dispatcher,
            _ => return,
        };
        let mut effects = Vec::new();
        assert!(dispatcher.is_idle());
        let mut request = dispatcher.poll(&mut effects);
        loop {
            let outcomes = self.perform(std::mem::take(&mut effects));
            let event = match request {
                Request::PollResponse => {
                    let res = self.poll_call(self.held.as_ref().unwrap());
                    if res.is_ready() {
                        self.held = None;
                    }
                    Event::Response(res)
                }
                Request::WriteOutcomes => Event::Written(outcomes),
                Request::PollReady => Event::Readiness(Poll::Ready(Ok(()))),
                Request::ReadFlags => Event::Flags {
                    stopped: self.dsp_stopped,
                    keepalive_err: self.keepalive_err,
                    read_ready: self.read_ready,
                },
                Request::TakeIoError => Event::IoError(None),
                Request::Decode => {
                    let msg = std::mem::take(&mut self.read_buf);
                    Event::Decoded(Ok(if msg.is_empty() { None } else { Some(msg) }))
                }
                Request::Now => Event::Now(moment(self.now)),
                Request::Call(item) => {
                    let call = self.call(item);
                    let res = self.poll_call(&call);
                    if res.is_pending() {
                        self.held = Some(call);
                    }
                    Event::Called(res)
                }
                Request::PollShutdown(_) => Event::ServiceShutdown(Poll::Ready(())),
                Request::Return(Poll::Pending) => break,
                Request::Return(Poll::Ready(res)) => {
                    self.outcome = Some(res);
                    break;
                }
            };
            assert!(dispatcher.awaits(&event));
            request = dispatcher.resume(event, &mut effects);
        }
        assert!(dispatcher.is_idle());
        self.dispatcher = Some(dispatcher);
    }

    fn run_spawned(&mut self) {
        let mut index = 0;
        while index < self.spawned.len() {
            match self.poll_call(&self.spawned[index].1) {
                Poll::Pending => index += 1,
                Poll::Ready(res) => {
                    let (response_idx, _) = self.spawned.remove(index);
                    let mut dispatcher = self.dispatcher.take().unwrap();
                    assert!(dispatcher.accepts(response_idx));
                    let mut effects = Vec::new();
                    dispatcher.handle_result(res, response_idx, &mut effects);
                    let outcomes = self.perform(effects);
                    dispatcher.record_writes(outcomes);
                    self.dispatcher = Some(dispatcher);
                }
            }
        }
    }

    /// Runs all tasks until nothing moves.
    fn run(&mut self) {
        for _ in 0..8 {
            // the task that reads
            if !self.read_paused && self.shutdown_at.is_none() && !self.to_server.is_empty() {
                self.read_buf.append(&mut self.to_server);
                self.read_ready = true;
            }
            if self.client_closed {
                self.dsp_stopped = true;
            }
            if self.deadlines.iter().any(|deadline| {
                (deadline.secs, deadline.nanos) <= (moment(self.now).secs, moment(self.now).nanos)
            }) {
                self.dsp_stopped = true;
                self.keepalive_err = true;
            }
            self.run_spawned();
            self.poll_dispatcher();
            // the task that writes
            let room = self.remote_buffer_cap.saturating_sub(self.to_client.len());
            let n = room.min(self.write_buf.len());
            self.to_client.extend(self.write_buf.drain(..n));
            if let Some(since) = self.shutdown_at {
                if self.write_buf.is_empty() {
                    self.write_closed = true;
                }
                if (self.write_closed && self.client_closed)
                    || (self.disconnect_timeout != 0 && self.now >= since + self.disconnect_timeout)
                {
                    self.server_dropped = true;
                }
            }
        }
    }

    fn write(&mut self, data: &[u8]) {
        self.to_server.extend(data);
        self.run();
    }

    fn read_any(&mut self) -> Vec<u8> {
        std::mem::take(&mut self.to_client)
    }

    /// Waits for data, and gives up after a while.
    fn read(&mut self) -> Vec<u8> {
        for _ in 0..100 {
            self.run();
            if !self.to_client.is_empty() {
                break;
            }
            self.now += 1;
        }
        self.read_any()
    }

    fn delay_for(&mut self, millis: u64) {
        for _ in 0..millis {
            self.now += 1;
            self.run();
        }
    }

    fn close(&mut self) {
        self.client_closed = true;
        self.run();
    }
}

#[test]
fn test_basic() {
    let mut client = Connection::new(Service::Echo(50));
    client.remote_buffer_cap = 1024;
    client.write(b"GET /test HTTP/1\r\n\r\n");

    let buf = client.read();
    assert_eq!(buf, b"GET /test HTTP/1\r\n\r\n");
    assert_eq!(client.now, 50);

    client.close();
    assert!(client.server_dropped);
    assert_eq!(client.outcome, Some(Ok(())));
}

#[test]
fn test_ordering() {
    let mut client = Connection::new(Service::EchoNotified);
    client.remote_buffer_cap = 1024;
    client.write(b"test");

    client.delay_for(50);

    client.write(b"test");
    client.delay_for(50);
    client.write(b"test");
    client.delay_for(50);
    assert_eq!(client.told, ["item", "item", "item"]);
    assert_eq!(client.spawned.len(), 2);
    client.notified = true;

    let buf = client.read();
    assert_eq!(buf, b"testtesttest");

    client.close();
    assert!(client.server_dropped);
}

#[test]
fn test_sink() {
    let mut client = Connection::with(Service::Echo(0), |dispatcher, effects| {
        dispatcher.disconnect_timeout(25, effects)
    });
    client.remote_buffer_cap = 1024;
    client.write(b"GET /test HTTP/1\r\n\r\n");

    let buf = client.read();
    assert_eq!(buf, b"GET /test HTTP/1\r\n\r\n");

    assert!(client.write_result(Ok(Some(b"test".to_vec()))).is_ok());
    let buf = client.read();
    assert_eq!(buf, b"test");

    client.dsp_stopped = true;
    client.run();
    assert!(!client.server_dropped);
    client.delay_for(200);
    assert!(client.server_dropped);
}

#[test]
fn test_err_in_service() {
    let mut client = Connection::new(Service::Fail);
    client.remote_buffer_cap = 0;
    client.to_server.extend(b"GET /test HTTP/1\r\n\r\n");

    client.write_result(Ok(Some(b"GET /test HTTP/1\r\n\r\n".to_vec()))).unwrap();

    let buf = client.read_any();
    assert_eq!(buf, b"");
    client.delay_for(25);

    // buffer should be flushed
    client.remote_buffer_cap = 1024;
    let buf = client.read();
    assert_eq!(buf, b"GET /test HTTP/1\r\n\r\n");

    // write side must be closed, dispatcher waiting for read side to close
    assert!(client.write_closed);
    assert!(!client.server_dropped);

    // close read side
    client.close();
    assert!(client.server_dropped);
    assert_eq!(client.outcome, Some(Err(())));
}

#[test]
fn keepalive_deadline_moves_with_each_frame() {
    let mut client = Connection::with(Service::Echo(0), |dispatcher, effects| {
        dispatcher.keepalive_timeout(1, effects)
    });
    client.remote_buffer_cap = 1024;
    assert_eq!(client.deadlines, [moment(1000)]);

    client.delay_for(900);
    client.write(b"one");
    assert_eq!(client.deadlines, [moment(1900)]);

    client.delay_for(999);
    assert_eq!(client.told, ["item"]);
    client.delay_for(1);
    assert_eq!(client.told, ["item", "keep-alive"]);
    assert_eq!(client.outcome, Some(Ok(())));
    assert_eq!(client.deadlines, [moment(1900)]);
}

#[test]
fn default_keepalive_timeout_is_thirty_seconds() {
    let client = Connection::new(Service::Echo(0));
    assert_eq!(client.deadlines, [moment(30_000)]);
}

#[test]
fn no_keepalive_timeout_no_deadline() {
    let mut client = Connection::with(Service::Echo(0), |dispatcher, effects| {
        dispatcher.keepalive_timeout(0, effects)
    });
    client.remote_buffer_cap = 1024;
    assert!(client.deadlines.is_empty());
    client.write(b"one");
    assert!(client.deadlines.is_empty());
    client.delay_for(40_000);
    assert_eq!(client.told, ["item"]);
    assert_eq!(client.outcome, None);
}

#[test]
fn stop_waits_for_calls_under_way() {
    let mut client = Connection::new(Service::EchoNotified);
    client.remote_buffer_cap = 1024;
    client.write(b"a");
    client.write(b"b");
    client.dsp_stopped = true;
    client.delay_for(5);
    assert_eq!(client.outcome, None);
    assert!(client.deadlines.is_empty());
    assert!(client.shutdown_at.is_none());

    // a frame that comes now is not read
    client.to_server.extend(b"c");
    client.delay_for(5);

    client.notified = true;
    assert_eq!(client.read(), b"ab");
    assert_eq!(client.told, ["item", "item"]);
    assert_eq!(client.outcome, Some(Ok(())));
}
