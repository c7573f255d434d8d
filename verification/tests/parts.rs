use tsproto::packets::{bytes_eq, is_reversed, parse_u16};
use tsproto::sink::{DefaultPacketHandler, DefaultPacketHandlerSink, SinkSlot};

/// The decimal id parser: exact values, rejection of junk and of
/// overflow, as the `aclid`/`clid` arguments are read.
#[test]
fn parse_u16_cases() {
    assert_eq!(parse_u16(&b"0".to_vec()), Some(0));
    assert_eq!(parse_u16(&b"42".to_vec()), Some(42));
    assert_eq!(parse_u16(&b"65535".to_vec()), Some(65535));
    assert_eq!(parse_u16(&b"65536".to_vec()), None);
    assert_eq!(parse_u16(&b"".to_vec()), None);
    assert_eq!(parse_u16(&b"4x2".to_vec()), None);
    assert_eq!(parse_u16(&b"-1".to_vec()), None);
    assert_eq!(parse_u16(&b"007".to_vec()), Some(7));
}

#[test]
fn reversal_and_equality_checks() {
    assert!(is_reversed(&vec![1, 2, 3, 4], &vec![4, 3, 2, 1]));
    assert!(!is_reversed(&vec![1, 2, 3, 4], &vec![1, 2, 3, 4]));
    assert!(is_reversed(&vec![7, 0, 7], &vec![7, 0, 7]));
    assert!(!is_reversed(&vec![1, 2], &vec![2, 1, 0]));
    assert!(bytes_eq(&vec![1, 2], &vec![1, 2]));
    assert!(!bytes_eq(&vec![1, 2], &vec![1, 3]));
    assert!(!bytes_eq(&vec![1, 2], &vec![1, 2, 3]));
}

/// The arbiter protocol: user sends go through while the slot is
/// available; while the engine holds the sink the user task parks; the
/// put wakes it and the cycle ends with the slot available again.
#[test]
fn arbiter_cycle() {
    let handler: DefaultPacketHandler<u32> = DefaultPacketHandler::new(7, true);
    let (mut sink, _stream) = handler.split();
    assert!(sink.start_send(100));
    assert!(sink.poll_complete(100));

    // the engine emits: take, user parks, put restores and wakes
    let inner = sink.take_sink();
    assert_eq!(inner, 7);
    assert!(!sink.start_send(101));
    assert!(matches!(sink.slot, SinkSlot::Parked(Some(101))));
    let woken = sink.put_sink(inner);
    assert_eq!(woken, Some(101));
    assert!(matches!(sink.slot, SinkSlot::Available(7)));
    assert!(sink.close(102));
}

/// A take with nobody parked wakes nobody.
#[test]
fn arbiter_take_put_without_parked_task() {
    let mut sink = DefaultPacketHandlerSink::new(9u32);
    let inner = sink.take_sink();
    let woken = sink.put_sink(inner);
    assert_eq!(woken, None);
    assert!(matches!(sink.slot, SinkSlot::Available(9)));
}
