use chat_core::accept::{accept_step, event_for_flag, AcceptAction, AcceptEvent, AcceptState};
use chat_core::bus::Bus;
use chat_core::handler::{egress_decision, egress_step, ingress_step, EgressAction, EgressOutcome,
    ReadResult};
use chat_core::message::{Addr, Message};
use chat_core::shutdown::ShutdownFlag;

fn addr(port: u16) -> Addr {
    Addr { ip: 0x7f000001, port }
}

fn line(text: &str) -> ReadResult {
    ReadResult::Line(text.as_bytes().to_vec())
}

#[test]
fn single_client_receives_nothing_of_its_own() {
    let mut bus = Bus::new(16);
    let mut flag = ShutdownFlag::new();
    let a = addr(1);
    let sub_a = bus.subscribe();
    let terminate = ingress_step(&mut bus, a, line("hi\n"));
    assert!(!terminate);
    assert!(matches!(egress_step(&mut bus, &mut flag, sub_a, a), EgressOutcome::SkippedOwn));
    assert!(matches!(egress_step(&mut bus, &mut flag, sub_a, a), EgressOutcome::Idle));
    assert!(!flag.is_set());
}

#[test]
fn two_clients_exact_delivery_no_echo() {
    let mut bus = Bus::new(16);
    let mut flag = ShutdownFlag::new();
    let a = addr(1);
    let b = addr(2);
    let sub_a = bus.subscribe();
    let sub_b = bus.subscribe();
    let terminate = ingress_step(&mut bus, a, line("hello\n"));
    assert!(!terminate);
    match egress_step(&mut bus, &mut flag, sub_b, b) {
        EgressOutcome::Write(text) => assert_eq!(text, b"hello\n".to_vec()),
        _ => panic!("the other client receives exactly the line"),
    }
    assert!(matches!(egress_step(&mut bus, &mut flag, sub_b, b), EgressOutcome::Idle));
    assert!(matches!(egress_step(&mut bus, &mut flag, sub_a, a), EgressOutcome::SkippedOwn));
    assert!(matches!(egress_step(&mut bus, &mut flag, sub_a, a), EgressOutcome::Idle));
    assert!(!flag.is_set());
}

#[test]
fn close_notifies_all_others_and_stops_admission() {
    let mut bus = Bus::new(16);
    let mut flag = ShutdownFlag::new();
    let a = addr(1);
    let b = addr(2);
    let c = addr(3);
    let sub_a = bus.subscribe();
    let sub_b = bus.subscribe();
    let sub_c = bus.subscribe();

    let terminate = ingress_step(&mut bus, a, line("close\n"));
    assert!(terminate);

    for (sub, own) in [(sub_b, b), (sub_c, c)] {
        match egress_step(&mut bus, &mut flag, sub, own) {
            EgressOutcome::Write(text) => assert_eq!(text, b"close\n".to_vec()),
            _ => panic!("the sentinel line itself is relayed first"),
        }
        match egress_step(&mut bus, &mut flag, sub, own) {
            EgressOutcome::WriteAndStop(text) => {
                assert_eq!(text, b"Closing the TCP chat.\n".to_vec());
            }
            _ => panic!("every other client receives the closing notice"),
        }
    }
    assert!(flag.is_set());

    assert!(matches!(egress_step(&mut bus, &mut flag, sub_a, a), EgressOutcome::SkippedOwn));
    assert!(matches!(egress_step(&mut bus, &mut flag, sub_a, a), EgressOutcome::SkippedOwn));

    let (st, action) = accept_step(AcceptState::Running, event_for_flag(flag.is_set()));
    assert_eq!(st, AcceptState::Draining);
    assert_eq!(action, AcceptAction::StopAccepting);
    let (st, action) = accept_step(st, AcceptEvent::Accepted);
    assert_eq!(st, AcceptState::Stopped);
    assert_eq!(action, AcceptAction::StopAccepting);
}

#[test]
fn second_close_is_harmless() {
    let mut bus = Bus::new(16);
    let mut flag = ShutdownFlag::new();
    let a = addr(1);
    let b = addr(2);
    let sub_a = bus.subscribe();
    let sub_b = bus.subscribe();

    assert!(ingress_step(&mut bus, a, line("close\n")));
    assert!(ingress_step(&mut bus, b, line("close\n")));

    // Client B's egress: A's sentinel line, then A's notice (stops B), then
    // B's own two messages would be skipped had it kept reading.
    assert!(matches!(egress_step(&mut bus, &mut flag, sub_b, b), EgressOutcome::Write(_)));
    assert!(matches!(
        egress_step(&mut bus, &mut flag, sub_b, b),
        EgressOutcome::WriteAndStop(_)
    ));
    assert!(flag.is_set());

    // Client A's egress reaches B's notice and raises the flag again:
    // idempotent, nothing panics, delivery still works.
    assert!(matches!(egress_step(&mut bus, &mut flag, sub_a, a), EgressOutcome::SkippedOwn));
    assert!(matches!(egress_step(&mut bus, &mut flag, sub_a, a), EgressOutcome::SkippedOwn));
    assert!(matches!(egress_step(&mut bus, &mut flag, sub_a, a), EgressOutcome::Write(_)));
    assert!(matches!(
        egress_step(&mut bus, &mut flag, sub_a, a),
        EgressOutcome::WriteAndStop(_)
    ));
    assert!(flag.is_set());
    flag.set();
    assert!(flag.is_set());
}

#[test]
fn end_of_stream_and_errors_terminate_quietly() {
    let mut bus = Bus::new(8);
    let a = addr(1);
    let sub = bus.subscribe();
    assert!(ingress_step(&mut bus, a, ReadResult::EndOfStream));
    assert!(ingress_step(&mut bus, a, ReadResult::IoError));
    let mut flag = ShutdownFlag::new();
    assert!(matches!(egress_step(&mut bus, &mut flag, sub, a), EgressOutcome::Idle));
}

#[test]
fn egress_rule_table() {
    let a = addr(1);
    let b = addr(2);
    let own_line = Message { text: b"x\n".to_vec(), origin: a };
    let other_line = Message { text: b"x\n".to_vec(), origin: b };
    let own_notice = Message { text: b"Closing the TCP chat.\n".to_vec(), origin: a };
    let other_notice = Message { text: b"Closing the TCP chat.\n".to_vec(), origin: b };
    assert_eq!(egress_decision(&own_line, a), EgressAction::Discard);
    assert_eq!(egress_decision(&own_notice, a), EgressAction::Discard);
    assert_eq!(egress_decision(&other_line, a), EgressAction::Deliver);
    assert_eq!(egress_decision(&other_notice, a), EgressAction::DeliverAndShutdown);
}

#[test]
fn accept_loop_table() {
    assert_eq!(
        accept_step(AcceptState::Running, AcceptEvent::FlagClear),
        (AcceptState::Running, AcceptAction::AwaitConnection)
    );
    assert_eq!(
        accept_step(AcceptState::Running, AcceptEvent::Accepted),
        (AcceptState::Running, AcceptAction::SpawnHandler)
    );
    assert_eq!(
        accept_step(AcceptState::Running, AcceptEvent::AcceptFailed),
        (AcceptState::Running, AcceptAction::RetryAfterError)
    );
    assert_eq!(
        accept_step(AcceptState::Running, AcceptEvent::FlagSet),
        (AcceptState::Draining, AcceptAction::StopAccepting)
    );
    for ev in [
        AcceptEvent::FlagClear,
        AcceptEvent::FlagSet,
        AcceptEvent::Accepted,
        AcceptEvent::AcceptFailed,
    ] {
        assert_eq!(
            accept_step(AcceptState::Draining, ev),
            (AcceptState::Stopped, AcceptAction::StopAccepting)
        );
        assert_eq!(
            accept_step(AcceptState::Stopped, ev),
            (AcceptState::Stopped, AcceptAction::StopAccepting)
        );
    }
}

#[test]
fn shutdown_flag_set_is_idempotent() {
    let mut flag = ShutdownFlag::new();
    assert!(!flag.is_set());
    flag.set();
    assert!(flag.is_set());
    flag.set();
    assert!(flag.is_set());
}
