use chat_relay::codec::{decode_lines, LineAssembler};
use chat_relay::conn::{
    accept_decision, reader_may_publish, side_terminated, writer_decision, AcceptEvent, ConnState,
    WriterDecision,
};
use chat_relay::hub::{Hub, RecvOutcome, Subscription};

fn expect_message(hub: &Hub, sub: &mut Subscription) -> String {
    match hub.poll(sub) {
        RecvOutcome::Message(m) => m,
        RecvOutcome::Lagged(n) => panic!("unexpected lag of {}", n),
        RecvOutcome::Pending => panic!("unexpected pending"),
    }
}

fn expect_pending(hub: &Hub, sub: &mut Subscription) {
    assert!(matches!(hub.poll(sub), RecvOutcome::Pending));
}

#[test]
fn line_sent_by_one_client_reaches_every_subscriber_in_order() {
    let mut hub = Hub::new(16);
    let mut x = hub.subscribe();
    let mut y = hub.subscribe();
    hub.publish(String::from("first\n"));
    hub.publish(String::from("second\n"));
    for sub in [&mut x, &mut y] {
        assert_eq!(expect_message(&hub, sub), "first\n");
        assert_eq!(expect_message(&hub, sub), "second\n");
        expect_pending(&hub, sub);
    }
}

#[test]
fn unsubscribe_leaves_delivery_to_others_untouched() {
    let mut hub = Hub::new(16);
    let mut x = hub.subscribe();
    let y = hub.subscribe();
    hub.publish(String::from("before\n"));
    hub.unsubscribe(y);
    hub.publish(String::from("after\n"));
    assert_eq!(expect_message(&hub, &mut x), "before\n");
    assert_eq!(expect_message(&hub, &mut x), "after\n");
    expect_pending(&hub, &mut x);
}

#[test]
fn late_subscriber_never_sees_earlier_message() {
    let mut hub = Hub::new(16);
    hub.publish(String::from("m1\n"));
    let mut z = hub.subscribe();
    expect_pending(&hub, &mut z);
    hub.publish(String::from("m2\n"));
    assert_eq!(expect_message(&hub, &mut z), "m2\n");
    expect_pending(&hub, &mut z);
}

#[test]
fn stalled_subscriber_sees_bounded_gap() {
    let mut hub = Hub::new(16);
    let mut slow = hub.subscribe();
    for i in 0..20 {
        hub.publish(format!("line {}\n", i));
    }
    match hub.poll(&mut slow) {
        RecvOutcome::Lagged(n) => assert_eq!(n, 4),
        _ => panic!("expected a lag report"),
    }
    for i in 4..20 {
        assert_eq!(expect_message(&hub, &mut slow), format!("line {}\n", i));
    }
    expect_pending(&hub, &mut slow);
}

#[test]
fn relay_scenario_hello_disconnect_and_late_client() {
    let mut hub = Hub::new(16);
    let mut x = hub.subscribe();
    let mut y = hub.subscribe();
    hub.publish(String::from("hello\n"));
    assert_eq!(expect_message(&hub, &mut x), "hello\n");
    assert_eq!(expect_message(&hub, &mut y), "hello\n");
    hub.unsubscribe(y);
    hub.publish(String::from("still alive\n"));
    let mut z = hub.subscribe();
    expect_pending(&hub, &mut z);
    hub.publish(String::from("one more\n"));
    assert_eq!(expect_message(&hub, &mut z), "one more\n");
    expect_pending(&hub, &mut z);
    assert_eq!(expect_message(&hub, &mut x), "still alive\n");
    assert_eq!(expect_message(&hub, &mut x), "one more\n");
}

#[test]
fn fifty_clients_hundred_lines_all_delivered_in_one_total_order() {
    let clients = 50usize;
    let lines_each = 100usize;
    let mut hub = Hub::new(16);
    let mut subs: Vec<Subscription> = (0..clients).map(|_| hub.subscribe()).collect();
    let mut received: Vec<Vec<String>> = vec![Vec::new(); clients];
    let mut published: Vec<String> = Vec::new();
    for line in 0..lines_each {
        for sender in 0..clients {
            let msg = format!("client {} line {}\n", sender, line);
            published.push(msg.clone());
            hub.publish(msg);
            for (sub, log) in subs.iter_mut().zip(received.iter_mut()) {
                match hub.poll(sub) {
                    RecvOutcome::Message(m) => log.push(m),
                    _ => panic!("a keeping-up subscriber must see each line"),
                }
            }
        }
    }
    assert_eq!(published.len(), clients * lines_each);
    for log in &received {
        assert_eq!(log, &published);
    }
}

#[test]
fn assembler_reassembles_chunks_into_verbatim_lines() {
    let mut assembler = LineAssembler::new();
    assert_eq!(assembler.feed(b"hel"), Vec::<Vec<u8>>::new());
    assert_eq!(assembler.feed(b"lo\nwor"), vec![b"hello\n".to_vec()]);
    let lines = assembler.feed(b"ld\ntail\nrest");
    assert_eq!(lines, vec![b"world\n".to_vec(), b"tail\n".to_vec()]);
    assert_eq!(assembler.feed(b"\n"), vec![b"rest\n".to_vec()]);
}

#[test]
fn decode_stops_at_invalid_utf8_and_reports_it() {
    let lines = vec![b"fine\n".to_vec(), vec![0xff, 0xfe, b'\n'], b"lost\n".to_vec()];
    let (msgs, failed) = decode_lines(lines);
    assert!(failed);
    assert_eq!(msgs, vec![String::from("fine\n")]);
    let (msgs, failed) = decode_lines(vec!["caf\u{e9}\n".as_bytes().to_vec()]);
    assert!(!failed);
    assert_eq!(msgs, vec![String::from("caf\u{e9}\n")]);
}

#[test]
fn connection_shutdown_is_paired() {
    let (state, signal) = side_terminated(ConnState::Active);
    assert_eq!(state, ConnState::HalfClosed);
    assert!(signal);
    let (state, signal) = side_terminated(state);
    assert_eq!(state, ConnState::Closed);
    assert!(!signal);
    let (state, signal) = side_terminated(state);
    assert_eq!(state, ConnState::Closed);
    assert!(!signal);
}

#[test]
fn reader_publishes_only_while_active() {
    assert!(reader_may_publish(ConnState::Active));
    assert!(!reader_may_publish(ConnState::HalfClosed));
    assert!(!reader_may_publish(ConnState::Closed));
}

#[test]
fn writer_skips_gaps_and_waits_when_caught_up() {
    assert_eq!(
        writer_decision(&RecvOutcome::Message(String::from("m\n"))),
        WriterDecision::Forward
    );
    assert_eq!(writer_decision(&RecvOutcome::Lagged(3)), WriterDecision::SkipGap);
    assert_eq!(writer_decision(&RecvOutcome::Pending), WriterDecision::Wait);
}

#[test]
fn accept_loop_survives_transient_errors() {
    assert_eq!(accept_decision(&AcceptEvent::Accepted), (true, true));
    assert_eq!(accept_decision(&AcceptEvent::TransientError), (false, true));
}
