use chat_core::bus::{Bus, RecvOutcome};
use chat_core::message::{Addr, Message};

fn addr(port: u16) -> Addr {
    Addr { ip: 0x7f000001, port }
}

fn msg(text: &str, origin: Addr) -> Message {
    Message { text: text.as_bytes().to_vec(), origin }
}

#[test]
fn publish_with_no_subscribers_is_a_noop() {
    let mut bus = Bus::new(8);
    let n = bus.publish(msg("hi\n", addr(1)));
    assert_eq!(n, 0);
    assert_eq!(bus.live_subscriptions(), 0);
}

#[test]
fn publish_reports_live_subscriptions() {
    let mut bus = Bus::new(8);
    let a = bus.subscribe();
    let _b = bus.subscribe();
    assert_eq!(bus.publish(msg("one\n", addr(1))), 2);
    bus.unsubscribe(a);
    assert_eq!(bus.publish(msg("two\n", addr(1))), 1);
    assert_eq!(bus.live_subscriptions(), 1);
}

#[test]
fn delivery_in_publish_order() {
    let mut bus = Bus::new(8);
    let s = bus.subscribe();
    bus.publish(msg("first\n", addr(1)));
    bus.publish(msg("second\n", addr(2)));
    match bus.try_recv(s) {
        RecvOutcome::Msg(m) => {
            assert_eq!(m.text, b"first\n".to_vec());
            assert_eq!(m.origin, addr(1));
        }
        _ => panic!("expected the first message"),
    }
    match bus.try_recv(s) {
        RecvOutcome::Msg(m) => {
            assert_eq!(m.text, b"second\n".to_vec());
            assert_eq!(m.origin, addr(2));
        }
        _ => panic!("expected the second message"),
    }
    assert!(matches!(bus.try_recv(s), RecvOutcome::Pending));
}

#[test]
fn late_subscriber_never_sees_earlier_messages() {
    let mut bus = Bus::new(8);
    bus.publish(msg("before\n", addr(1)));
    let s = bus.subscribe();
    assert!(matches!(bus.try_recv(s), RecvOutcome::Pending));
    bus.publish(msg("after\n", addr(1)));
    match bus.try_recv(s) {
        RecvOutcome::Msg(m) => assert_eq!(m.text, b"after\n".to_vec()),
        _ => panic!("expected only the later message"),
    }
    assert!(matches!(bus.try_recv(s), RecvOutcome::Pending));
}

#[test]
fn lagging_subscriber_loses_oldest_and_continues() {
    let mut bus = Bus::new(2);
    let s = bus.subscribe();
    bus.publish(msg("m0\n", addr(1)));
    bus.publish(msg("m1\n", addr(1)));
    bus.publish(msg("m2\n", addr(1)));
    bus.publish(msg("m3\n", addr(1)));
    bus.publish(msg("m4\n", addr(1)));
    match bus.try_recv(s) {
        RecvOutcome::Lagged(missed) => assert_eq!(missed, 3),
        _ => panic!("expected a lag report"),
    }
    match bus.try_recv(s) {
        RecvOutcome::Msg(m) => assert_eq!(m.text, b"m3\n".to_vec()),
        _ => panic!("expected the oldest retained message"),
    }
    match bus.try_recv(s) {
        RecvOutcome::Msg(m) => assert_eq!(m.text, b"m4\n".to_vec()),
        _ => panic!("expected the newest message"),
    }
    assert!(matches!(bus.try_recv(s), RecvOutcome::Pending));
}

#[test]
fn closed_bus_drains_then_reports_closed() {
    let mut bus = Bus::new(4);
    let s = bus.subscribe();
    bus.publish(msg("last\n", addr(9)));
    bus.close();
    match bus.try_recv(s) {
        RecvOutcome::Msg(m) => assert_eq!(m.text, b"last\n".to_vec()),
        _ => panic!("a closed bus still hands out what it retained"),
    }
    assert!(matches!(bus.try_recv(s), RecvOutcome::Closed));
}

#[test]
fn unsubscribed_ids_are_not_reused() {
    let mut bus = Bus::new(4);
    let a = bus.subscribe();
    bus.unsubscribe(a);
    let b = bus.subscribe();
    assert_ne!(a, b);
    assert_eq!(bus.live_subscriptions(), 1);
}
