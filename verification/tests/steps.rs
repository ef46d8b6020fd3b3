//! Single steps of a dispatcher.
use std::task::Poll;

use either::Either;
use io_dispatcher::action::{Effect, Event, Request};
use io_dispatcher::dispatcher::Dispatcher;
use io_dispatcher::item::{DispatcherItem, Protocol};
use io_dispatcher::moment::Moment;

/// All types are small, so that each value can be told apart.
struct Small;

impl Protocol for Small {
    type Item = u8;
    type Response = &'static str;
    type ServiceError = u16;
    type DecoderError = u32;
    type EncoderError = u64;
    type IoError = i8;
}

type Effects = Vec<Effect<Small>>;

fn at(secs: u64) -> Moment {
    Moment { secs, nanos: 7 }
}

/// Effects in short: what kind they are, and what they carry.
fn show(effects: &mut Effects) -> Vec<String> {
    std::mem::take(effects)
        .into_iter()
        .map(|effect| match effect {
            Effect::StartIo => "start".to_string(),
            Effect::RegisterTimer { expire, prev } => {
                format!("set {} for {}", expire.secs, prev.secs)
            }
            Effect::UnregisterTimer(expire) => format!("unset {}", expire.secs),
            Effect::SetDisconnectTimeout(val) => format!("disconnect {}", val),
            Effect::RestartRead => "restart".to_string(),
            Effect::ServiceNotReady => "not ready".to_string(),
            Effect::ReadMoreData => "more data".to_string(),
            Effect::RegisterTask => "register".to_string(),
            Effect::WakeTask => "wake".to_string(),
            Effect::MarkStopped => "stopped".to_string(),
            Effect::ShutdownIo => "shutdown".to_string(),
            Effect::Spawn { item, response_idx } => {
                format!("spawn {} as {}", show_item(item), response_idx)
            }
            Effect::Write(res) => format!("write {:?}", res),
        })
        .collect()
}

fn show_item(item: DispatcherItem<Small>) -> String {
    match item {
        DispatcherItem::Item(el) => format!("item {}", el),
        DispatcherItem::KeepAliveTimeout => "keep-alive".to_string(),
        DispatcherItem::DecoderError(err) => format!("decoder {}", err),
        DispatcherItem::EncoderError(err) => format!("encoder {}", err),
        DispatcherItem::IoError(err) => format!("io {}", err),
    }
}

fn show_request(request: Request<Small>) -> String {
    match request {
        Request::PollResponse => "poll response".to_string(),
        Request::WriteOutcomes => "write outcomes".to_string(),
        Request::PollReady => "poll ready".to_string(),
        Request::ReadFlags => "read flags".to_string(),
        Request::TakeIoError => "take io error".to_string(),
        Request::Decode => "decode".to_string(),
        Request::Now => "now".to_string(),
        Request::Call(item) => format!("call {}", show_item(item)),
        Request::PollShutdown(is_err) => format!("poll shutdown {}", is_err),
        Request::Return(res) => format!("return {:?}", res),
    }
}

fn none() -> Vec<String> {
    Vec::new()
}

fn ready() -> Event<Small> {
    Event::Readiness(Poll::Ready(Ok(())))
}

fn flags(stopped: bool, keepalive_err: bool, read_ready: bool) -> Event<Small> {
    Event::Flags { stopped, keepalive_err, read_ready }
}

fn resume(
    dispatcher: &mut Dispatcher<Small>,
    event: Event<Small>,
    effects: &mut Effects,
) -> String {
    assert!(dispatcher.awaits(&event));
    show_request(dispatcher.resume(event, effects))
}

/// A dispatcher without a keep-alive timeout, in a poll that has found the service ready.
fn started(effects: &mut Effects) -> Dispatcher<Small> {
    let dispatcher = Dispatcher::with(at(100), effects);
    let mut dispatcher = dispatcher.keepalive_timeout(0, effects);
    assert_eq!(show_request(dispatcher.poll(effects)), "poll ready");
    assert_eq!(resume(&mut dispatcher, ready(), effects), "read flags");
    effects.clear();
    dispatcher
}

/// Hands one frame to the service, which does not answer yet.
fn frame(dispatcher: &mut Dispatcher<Small>, el: u8, effects: &mut Effects) -> String {
    assert_eq!(resume(dispatcher, flags(false, false, true), effects), "decode");
    resume(dispatcher, Event::Decoded(Ok(Some(el))), effects)
}

/// A dispatcher that holds one call, and has two others in tasks of their own.
fn three_calls(effects: &mut Effects) -> Dispatcher<Small> {
    let mut dispatcher = started(effects);
    assert_eq!(frame(&mut dispatcher, 1, effects), "call item 1");
    assert_eq!(resume(&mut dispatcher, Event::Called(Poll::Pending), effects), "poll ready");
    assert!(show(effects).is_empty());
    for (el, response_idx) in [(2, 1), (3, 2)] {
        assert_eq!(resume(&mut dispatcher, ready(), effects), "read flags");
        assert_eq!(frame(&mut dispatcher, el, effects), "poll ready");
        assert_eq!(
            show(effects),
            ["restart".to_string(), format!("spawn item {} as {}", el, response_idx)]
        );
    }
    dispatcher
}

#[test]
fn new_dispatcher_sets_deadline_and_starts_tasks() {
    let mut effects = Effects::new();
    let dispatcher = Dispatcher::<Small>::with(at(100), &mut effects);
    assert_eq!(show(&mut effects), ["set 130 for 130", "start"]);
    assert!(dispatcher.is_idle());
    assert_eq!(dispatcher.updated(), at(100));
}

#[test]
fn keepalive_timeout_replaces_deadline() {
    let mut effects = Effects::new();
    let dispatcher = Dispatcher::<Small>::with(at(100), &mut effects)
        .keepalive_timeout(5, &mut effects)
        .keepalive_timeout(0, &mut effects)
        .keepalive_timeout(9, &mut effects);
    assert_eq!(
        show(&mut effects),
        ["set 130 for 130", "start", "set 105 for 130", "unset 105", "set 109 for 100"]
    );
    assert!(dispatcher.is_idle());
}

#[test]
fn disconnect_timeout_is_handed_on() {
    let mut effects = Effects::new();
    let dispatcher = Dispatcher::<Small>::with(at(100), &mut effects);
    effects.clear();
    let dispatcher = dispatcher.disconnect_timeout(25, &mut effects);
    assert_eq!(show(&mut effects), ["disconnect 25"]);
    assert_eq!(dispatcher.updated(), at(100));
}

#[test]
fn service_that_is_not_ready_pauses_reading() {
    let mut effects = Effects::new();
    let mut dispatcher = Dispatcher::<Small>::with(at(100), &mut effects);
    effects.clear();
    assert_eq!(show_request(dispatcher.poll(&mut effects)), "poll ready");
    assert_eq!(
        resume(&mut dispatcher, Event::Readiness(Poll::Pending), &mut effects),
        "return Pending"
    );
    assert_eq!(show(&mut effects), ["not ready"]);
    assert!(dispatcher.is_idle());
}

#[test]
fn nothing_to_read_waits() {
    let mut effects = Effects::new();
    let mut dispatcher = started(&mut effects);
    assert_eq!(
        resume(&mut dispatcher, flags(false, false, false), &mut effects),
        "return Pending"
    );
    assert_eq!(show(&mut effects), ["register"]);
}

#[test]
fn half_a_frame_waits_for_more_data() {
    let mut effects = Effects::new();
    let mut dispatcher = started(&mut effects);
    assert_eq!(resume(&mut dispatcher, flags(false, false, true), &mut effects), "decode");
    assert_eq!(
        resume(&mut dispatcher, Event::Decoded(Ok(None)), &mut effects),
        "return Pending"
    );
    assert_eq!(show(&mut effects), ["more data"]);
}

#[test]
fn frame_moves_deadline_once_per_moment() {
    let mut effects = Effects::new();
    let mut dispatcher = Dispatcher::<Small>::with(at(100), &mut effects);
    effects.clear();
    dispatcher.poll(&mut effects);
    resume(&mut dispatcher, ready(), &mut effects);
    assert_eq!(frame(&mut dispatcher, 1, &mut effects), "now");
    assert_eq!(resume(&mut dispatcher, Event::Now(at(104)), &mut effects), "call item 1");
    assert_eq!(show(&mut effects), ["restart", "set 134 for 130"]);
    assert_eq!(dispatcher.updated(), at(104));
    let called = Event::Called(Poll::Ready(Ok("one")));
    assert_eq!(resume(&mut dispatcher, called, &mut effects), "write outcomes");
    assert_eq!(show(&mut effects), ["write Ok(\"one\")"]);
    assert_eq!(
        resume(&mut dispatcher, Event::Written(vec![Ok(())]), &mut effects),
        "poll ready"
    );
    resume(&mut dispatcher, ready(), &mut effects);
    assert_eq!(frame(&mut dispatcher, 2, &mut effects), "now");
    assert_eq!(resume(&mut dispatcher, Event::Now(at(104)), &mut effects), "call item 2");
    assert_eq!(show(&mut effects), ["restart"]);
}

#[test]
fn time_without_room_for_a_deadline_is_not_awaited() {
    let mut effects = Effects::new();
    let mut dispatcher = Dispatcher::<Small>::with(at(100), &mut effects);
    dispatcher.poll(&mut effects);
    resume(&mut dispatcher, ready(), &mut effects);
    assert_eq!(frame(&mut dispatcher, 1, &mut effects), "now");
    assert!(!dispatcher.awaits(&Event::Now(at(u64::MAX - 29))));
    assert!(dispatcher.awaits(&Event::Now(at(u64::MAX - 30))));
    assert!(!dispatcher.awaits(&ready()));
    assert!(at(5).can_add(9));
    assert_eq!(at(5).plus(9), at(14));
}

#[test]
fn decoder_error_stops_and_is_told() {
    let mut effects = Effects::new();
    let mut dispatcher = Dispatcher::<Small>::with(at(100), &mut effects);
    effects.clear();
    dispatcher.poll(&mut effects);
    resume(&mut dispatcher, ready(), &mut effects);
    assert_eq!(resume(&mut dispatcher, flags(false, false, true), &mut effects), "decode");
    assert_eq!(
        resume(&mut dispatcher, Event::Decoded(Err(77)), &mut effects),
        "call decoder 77"
    );
    assert_eq!(show(&mut effects), ["restart", "unset 130"]);
    let called = Event::Called(Poll::Ready(Ok("bye")));
    assert_eq!(resume(&mut dispatcher, called, &mut effects), "write outcomes");
    assert_eq!(show(&mut effects), ["write Ok(\"bye\")"]);
    // the dispatcher has stopped: a poll of the service, whatever it comes to
    assert_eq!(
        resume(&mut dispatcher, Event::Written(vec![Ok(())]), &mut effects),
        "poll ready"
    );
    assert_eq!(
        resume(&mut dispatcher, Event::Readiness(Poll::Pending), &mut effects),
        "poll shutdown false"
    );
    assert_eq!(show(&mut effects), ["shutdown"]);
    assert_eq!(
        resume(&mut dispatcher, Event::ServiceShutdown(Poll::Pending), &mut effects),
        "return Pending"
    );
    assert_eq!(show_request(dispatcher.poll(&mut effects)), "poll shutdown false");
    assert_eq!(
        resume(&mut dispatcher, Event::ServiceShutdown(Poll::Ready(())), &mut effects),
        "return Ready(Ok(()))"
    );
    assert_eq!(show(&mut effects), none());
}

#[test]
fn readiness_error_ends_the_dispatcher() {
    let mut effects = Effects::new();
    let mut dispatcher = Dispatcher::<Small>::with(at(100), &mut effects);
    effects.clear();
    dispatcher.poll(&mut effects);
    assert_eq!(
        resume(&mut dispatcher, Event::Readiness(Poll::Ready(Err(9))), &mut effects),
        "poll ready"
    );
    assert_eq!(show(&mut effects), ["stopped", "unset 130"]);
    assert_eq!(resume(&mut dispatcher, ready(), &mut effects), "poll shutdown true");
    assert_eq!(
        resume(&mut dispatcher, Event::ServiceShutdown(Poll::Ready(())), &mut effects),
        "return Ready(Err(9))"
    );
}

#[test]
fn stop_asks_for_io_error() {
    let mut effects = Effects::new();
    let mut dispatcher = started(&mut effects);
    assert_eq!(resume(&mut dispatcher, flags(true, false, true), &mut effects), "take io error");
    assert_eq!(resume(&mut dispatcher, Event::IoError(Some(-3)), &mut effects), "call io -3");
    assert_eq!(show(&mut effects), none());

    let mut dispatcher = started(&mut effects);
    assert_eq!(resume(&mut dispatcher, flags(true, false, true), &mut effects), "take io error");
    assert_eq!(resume(&mut dispatcher, Event::IoError(None), &mut effects), "poll ready");
    assert_eq!(resume(&mut dispatcher, ready(), &mut effects), "poll shutdown false");
    assert_eq!(show(&mut effects), ["shutdown"]);
}

#[test]
fn keepalive_error_is_told_and_remains_an_error() {
    let mut effects = Effects::new();
    let mut dispatcher = Dispatcher::<Small>::with(at(100), &mut effects);
    effects.clear();
    dispatcher.poll(&mut effects);
    resume(&mut dispatcher, ready(), &mut effects);
    assert_eq!(resume(&mut dispatcher, flags(true, true, true), &mut effects), "call keep-alive");
    // the deadline has passed, so it is not called off
    assert_eq!(show(&mut effects), ["restart"]);
    let called = Event::Called(Poll::Ready(Ok("bye")));
    resume(&mut dispatcher, called, &mut effects);
    resume(&mut dispatcher, Event::Written(vec![Ok(())]), &mut effects);
    assert_eq!(resume(&mut dispatcher, ready(), &mut effects), "poll shutdown true");
    assert_eq!(
        resume(&mut dispatcher, Event::ServiceShutdown(Poll::Ready(())), &mut effects),
        "return Ready(Ok(()))"
    );
}

#[test]
fn encoder_error_is_told() {
    let mut effects = Effects::new();
    let mut dispatcher = started(&mut effects);
    assert_eq!(frame(&mut dispatcher, 1, &mut effects), "call item 1");
    resume(&mut dispatcher, Event::Called(Poll::Ready(Ok("x"))), &mut effects);
    let written = Event::Written(vec![Err(Either::Right(55))]);
    assert_eq!(resume(&mut dispatcher, written, &mut effects), "poll ready");
    resume(&mut dispatcher, ready(), &mut effects);
    // an earlier error stays when the deadline passes
    assert_eq!(resume(&mut dispatcher, flags(true, true, false), &mut effects), "call encoder 55");
}

#[test]
fn service_error_is_not_told_but_returned() {
    let mut effects = Effects::new();
    let mut dispatcher = started(&mut effects);
    assert_eq!(frame(&mut dispatcher, 1, &mut effects), "call item 1");
    resume(&mut dispatcher, Event::Called(Poll::Ready(Err(4))), &mut effects);
    assert_eq!(show(&mut effects), ["write Err(4)"]);
    let written = Event::Written(vec![Err(Either::Left(4))]);
    assert_eq!(resume(&mut dispatcher, written, &mut effects), "poll ready");
    resume(&mut dispatcher, ready(), &mut effects);
    assert_eq!(resume(&mut dispatcher, flags(true, false, false), &mut effects), "take io error");
    assert_eq!(resume(&mut dispatcher, Event::IoError(None), &mut effects), "poll ready");
    assert_eq!(resume(&mut dispatcher, ready(), &mut effects), "poll shutdown true");
    assert_eq!(
        resume(&mut dispatcher, Event::ServiceShutdown(Poll::Ready(())), &mut effects),
        "return Ready(Err(4))"
    );
}

#[test]
fn last_failed_write_is_the_error() {
    let mut effects = Effects::new();
    let mut dispatcher = three_calls(&mut effects);
    dispatcher.record_writes(vec![Err(Either::Right(1)), Err(Either::Left(2)), Ok(())]);
    resume(&mut dispatcher, Event::Readiness(Poll::Pending), &mut effects);
    effects.clear();
    dispatcher.poll(&mut effects);
    let response = Event::Response(Poll::Ready(Ok("a")));
    assert_eq!(resume(&mut dispatcher, response, &mut effects), "write outcomes");
    let written = Event::Written(vec![Ok(())]);
    assert_eq!(resume(&mut dispatcher, written, &mut effects), "poll ready");
    resume(&mut dispatcher, ready(), &mut effects);
    // the error is one of the service, which it is not told of
    assert_eq!(resume(&mut dispatcher, flags(true, false, false), &mut effects), "take io error");
}

#[test]
fn responses_wait_for_their_turn() {
    let mut effects = Effects::new();
    let mut dispatcher = three_calls(&mut effects);
    resume(&mut dispatcher, Event::Readiness(Poll::Pending), &mut effects);
    effects.clear();

    // the last call is answered first
    assert!(dispatcher.accepts(2));
    dispatcher.handle_result(Ok("c"), 2, &mut effects);
    assert_eq!(show(&mut effects), none());

    // the call that is held is answered, but the one in the middle is not
    assert_eq!(show_request(dispatcher.poll(&mut effects)), "poll response");
    let response = Event::Response(Poll::Ready(Ok("a")));
    assert_eq!(resume(&mut dispatcher, response, &mut effects), "write outcomes");
    assert_eq!(show(&mut effects), ["write Ok(\"a\")"]);
    assert_eq!(
        resume(&mut dispatcher, Event::Written(vec![Ok(())]), &mut effects),
        "poll ready"
    );
    resume(&mut dispatcher, Event::Readiness(Poll::Pending), &mut effects);
    effects.clear();

    // now the rest goes out, and the dispatcher is woken
    assert!(dispatcher.accepts(1));
    dispatcher.handle_result(Ok("b"), 1, &mut effects);
    assert_eq!(show(&mut effects), ["write Ok(\"b\")", "write Ok(\"c\")", "wake"]);
}

#[test]
fn answer_in_the_queue_leaves_nothing_to_write() {
    let mut effects = Effects::new();
    let mut dispatcher = three_calls(&mut effects);
    resume(&mut dispatcher, Event::Readiness(Poll::Pending), &mut effects);
    assert!(!dispatcher.accepts(0));
    assert!(!dispatcher.accepts(3));

    // the call that is held is answered; the next one is held in its place
    dispatcher.poll(&mut effects);
    resume(&mut dispatcher, Event::Response(Poll::Ready(Ok("a"))), &mut effects);
    resume(&mut dispatcher, Event::Written(vec![Ok(())]), &mut effects);
    resume(&mut dispatcher, ready(), &mut effects);
    effects.clear();
    assert_eq!(frame(&mut dispatcher, 4, &mut effects), "call item 4");
    assert_eq!(
        resume(&mut dispatcher, Event::Called(Poll::Pending), &mut effects),
        "poll ready"
    );
    resume(&mut dispatcher, Event::Readiness(Poll::Pending), &mut effects);
    effects.clear();

    // it is answered before those in front of it
    assert_eq!(show_request(dispatcher.poll(&mut effects)), "poll response");
    let response = Event::Response(Poll::Ready(Ok("d")));
    assert_eq!(resume(&mut dispatcher, response, &mut effects), "poll ready");
    resume(&mut dispatcher, Event::Readiness(Poll::Pending), &mut effects);
    assert_eq!(show(&mut effects), ["not ready"]);

    dispatcher.handle_result(Ok("b"), 1, &mut effects);
    assert_eq!(show(&mut effects), ["write Ok(\"b\")"]);
    dispatcher.handle_result(Ok("c"), 2, &mut effects);
    assert_eq!(show(&mut effects), ["write Ok(\"c\")", "write Ok(\"d\")", "wake"]);
}

#[test]
fn result_at_once_waits_behind_others() {
    let mut effects = Effects::new();
    let mut dispatcher = three_calls(&mut effects);
    resume(&mut dispatcher, Event::Readiness(Poll::Pending), &mut effects);
    dispatcher.poll(&mut effects);
    resume(&mut dispatcher, Event::Response(Poll::Ready(Ok("a"))), &mut effects);
    resume(&mut dispatcher, Event::Written(vec![Ok(())]), &mut effects);
    resume(&mut dispatcher, ready(), &mut effects);
    effects.clear();
    assert_eq!(frame(&mut dispatcher, 4, &mut effects), "call item 4");
    let called = Event::Called(Poll::Ready(Ok("d")));
    assert_eq!(resume(&mut dispatcher, called, &mut effects), "poll ready");
    assert_eq!(show(&mut effects), none());
    dispatcher.handle_result(Ok("c"), 2, &mut effects);
    assert_eq!(show(&mut effects), none());
    dispatcher.handle_result(Ok("b"), 1, &mut effects);
    assert_eq!(
        show(&mut effects),
        ["write Ok(\"b\")", "write Ok(\"c\")", "write Ok(\"d\")", "wake"]
    );
}

#[test]
fn stop_drains_before_shutdown() {
    let mut effects = Effects::new();
    let mut dispatcher = three_calls(&mut effects);
    resume(&mut dispatcher, ready(), &mut effects);
    effects.clear();
    assert_eq!(resume(&mut dispatcher, flags(true, false, true), &mut effects), "take io error");
    // a call is held, so the service is told in a task of its own
    assert_eq!(resume(&mut dispatcher, Event::IoError(Some(8)), &mut effects), "poll response");
    assert_eq!(show(&mut effects), ["spawn io 8 as 3"]);
    assert_eq!(resume(&mut dispatcher, Event::Response(Poll::Pending), &mut effects), "poll ready");
    assert_eq!(resume(&mut dispatcher, ready(), &mut effects), "return Pending");
    assert_eq!(show(&mut effects), ["register"]);

    for response_idx in [3, 2, 1] {
        dispatcher.handle_result(Ok("x"), response_idx, &mut effects);
    }
    assert_eq!(show(&mut effects), none());
    assert_eq!(show_request(dispatcher.poll(&mut effects)), "poll response");
    let response = Event::Response(Poll::Ready(Ok("a")));
    assert_eq!(resume(&mut dispatcher, response, &mut effects), "write outcomes");
    assert_eq!(
        show(&mut effects),
        ["write Ok(\"a\")", "write Ok(\"x\")", "write Ok(\"x\")", "write Ok(\"x\")"]
    );
    let written = Event::Written(vec![Ok(()), Ok(()), Ok(()), Ok(())]);
    assert_eq!(resume(&mut dispatcher, written, &mut effects), "poll ready");
    assert_eq!(resume(&mut dispatcher, ready(), &mut effects), "poll shutdown false");
    assert_eq!(show(&mut effects), ["shutdown"]);
}
