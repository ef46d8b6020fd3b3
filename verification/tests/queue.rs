//! The queue of responses, and the values it is made of.
use either::Either;
use io_dispatcher::action::Effect;
use io_dispatcher::error::IoDispatcherError;
use io_dispatcher::inner::IoDispatcherInner;
use io_dispatcher::item::{DispatcherItem, Protocol};
use io_dispatcher::service_result::ServiceResult;

struct Small;

impl Protocol for Small {
    type Item = u8;
    type Response = u8;
    type ServiceError = u16;
    type DecoderError = u32;
    type EncoderError = u64;
    type IoError = i8;
}

/// What is written, and whether the dispatcher is woken at the end.
fn written(effects: &mut Vec<Effect<Small>>) -> (Vec<Result<u8, u16>>, bool) {
    let mut results = Vec::new();
    let mut woken = false;
    for effect in std::mem::take(effects) {
        assert!(!woken);
        match effect {
            Effect::Write(res) => results.push(res),
            Effect::WakeTask => woken = true,
            _ => unreachable!(),
        }
    }
    (results, woken)
}

#[test]
fn slot_is_taken_once() {
    let mut slot = ServiceResult::Ready(5);
    assert!(slot.is_ready());
    assert_eq!(slot.take(), Some(5));
    assert!(!slot.is_ready());
    assert_eq!(slot.take(), None);
    assert!(matches!(slot, ServiceResult::Pending));
}

#[test]
fn write_error_becomes_dispatcher_error() {
    let err: IoDispatcherError<u16, u64> = Either::Left(3).into();
    assert!(matches!(err, IoDispatcherError::Service(3)));
    let err: IoDispatcherError<u16, u64> = Either::Right(4).into();
    assert!(matches!(err, IoDispatcherError::Encoder(4)));
}

#[test]
fn error_is_taken_once() {
    let mut err: IoDispatcherError<u16, u64> = IoDispatcherError::KeepAlive;
    assert!(matches!(err.take::<Small>(), Some(DispatcherItem::KeepAliveTimeout)));
    assert!(matches!(err, IoDispatcherError::Handled));
    assert!(err.take::<Small>().is_none());

    let mut err: IoDispatcherError<u16, u64> = IoDispatcherError::Encoder(8);
    assert!(matches!(err.take::<Small>(), Some(DispatcherItem::EncoderError(8))));
    assert!(matches!(err, IoDispatcherError::Handled));

    let mut err: IoDispatcherError<u16, u64> = IoDispatcherError::Service(6);
    assert!(err.take::<Small>().is_none());
    assert!(matches!(err, IoDispatcherError::Service(6)));
}

#[test]
fn results_come_out_in_the_order_of_the_calls() {
    let mut inner = IoDispatcherInner::<Small>::new();
    let mut effects = Vec::new();
    for idx in 0..4 {
        assert_eq!(inner.push_pending(), idx);
    }
    inner.handle_result(Ok(13), 3, true, &mut effects);
    inner.handle_result(Err(11), 1, true, &mut effects);
    assert_eq!(written(&mut effects), (vec![], false));
    inner.handle_result(Ok(10), 0, true, &mut effects);
    assert_eq!(written(&mut effects), (vec![Ok(10), Err(11)], false));
    assert_eq!(inner.push_pending(), 4);
    inner.handle_result(Ok(12), 2, true, &mut effects);
    assert_eq!(written(&mut effects), (vec![Ok(12), Ok(13)], false));
    assert!(!inner.is_empty());
    inner.handle_result(Ok(14), 4, true, &mut effects);
    assert_eq!(written(&mut effects), (vec![Ok(14)], true));
    assert!(inner.is_empty());
}

#[test]
fn dispatcher_is_woken_only_where_asked() {
    let mut inner = IoDispatcherInner::<Small>::new();
    let mut effects = Vec::new();
    assert_eq!(inner.push_pending(), 0);
    inner.handle_result(Ok(1), 0, false, &mut effects);
    assert_eq!(written(&mut effects), (vec![Ok(1)], false));
}

#[test]
fn result_for_an_empty_queue_is_written() {
    let mut inner = IoDispatcherInner::<Small>::new();
    let mut effects = Vec::new();
    assert!(inner.accepts(0));
    assert!(!inner.accepts(1));
    assert!(!inner.accepts(usize::MAX));
    inner.handle_result(Ok(1), 0, true, &mut effects);
    assert_eq!(written(&mut effects), (vec![Ok(1)], true));
    assert_eq!(inner.push_pending(), 1);
}

#[test]
fn only_response_is_written_at_once() {
    let mut inner = IoDispatcherInner::<Small>::new();
    let mut effects = Vec::new();
    assert!(inner.push_result(Ok(1), &mut effects));
    assert_eq!(written(&mut effects), (vec![Ok(1)], false));
    assert_eq!(inner.push_pending(), 0);
    assert!(!inner.push_result(Ok(3), &mut effects));
    assert_eq!(written(&mut effects), (vec![], false));
    inner.handle_result(Ok(2), 0, true, &mut effects);
    assert_eq!(written(&mut effects), (vec![Ok(2), Ok(3)], true));
}

#[test]
fn last_failed_write_is_kept() {
    let mut inner = IoDispatcherInner::<Small>::new();
    inner.record_writes(vec![Ok(()), Ok(())]);
    assert!(!inner.has_error());
    inner.record_writes(vec![Err(Either::Left(1)), Err(Either::Right(2)), Ok(())]);
    assert!(inner.has_error());
    inner.record_writes(vec![]);
    assert!(matches!(inner.take_error_item(), Some(DispatcherItem::EncoderError(2))));
    assert!(inner.take_error_item().is_none());
    assert!(inner.has_error());
    assert_eq!(inner.take_service_error(), Ok(()));
    assert!(!inner.has_error());
}

#[test]
fn keepalive_error_does_not_replace_another() {
    let mut inner = IoDispatcherInner::<Small>::new();
    inner.set_error(IoDispatcherError::Service(7));
    inner.set_keepalive_error();
    assert!(inner.take_error_item().is_none());
    assert_eq!(inner.take_service_error(), Err(7));
    inner.set_keepalive_error();
    assert!(matches!(inner.take_error_item(), Some(DispatcherItem::KeepAliveTimeout)));
}

#[test]
fn any_order_of_answers_gives_the_order_of_calls() {
    // every order in which four calls can be answered
    for code in 0..24 {
        let mut left = vec![0, 1, 2, 3];
        let mut rest = code;
        let mut order = Vec::new();
        while !left.is_empty() {
            order.push(left.remove(rest % left.len()));
            rest /= left.len() + 1;
        }

        let mut inner = IoDispatcherInner::<Small>::new();
        let mut effects = Vec::new();
        for idx in 0..4 {
            assert_eq!(inner.push_pending(), idx);
        }
        let mut results = Vec::new();
        let mut answered = [false; 4];
        for idx in order {
            answered[idx] = true;
            inner.handle_result(Ok(idx as u8), idx, true, &mut effects);
            let (some, woken) = written(&mut effects);
            results.extend(some);
            // nothing is held back
            let n = answered.iter().take_while(|answered| **answered).count();
            assert_eq!(results.len(), n);
            assert_eq!(woken, n == 4);
        }
        assert_eq!(results, [Ok(0), Ok(1), Ok(2), Ok(3)]);
    }
}
