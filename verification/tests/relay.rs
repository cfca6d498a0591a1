use udpproxy::ClientIdentity;
use udpproxy::DispatchOutcome;
use udpproxy::EgressQueue;
use udpproxy::ReceiverAction;
use udpproxy::SessionTable;
use udpproxy::package_reply;
use udpproxy::receiver_step;
use udpproxy::ROUNDS;

fn client(port: u16) -> ClientIdentity {
    // 192.0.2.x test addresses
    ClientIdentity::v4(0xC0000201, port)
}

#[test]
fn ping_pong_round_trip() {
    // Relay bound to 127.0.0.1:9000, upstream 10.0.0.5:9001.
    let config = udpproxy::Config::build(
        Some(9000),
        Some(9001),
        Some(String::from("10.0.0.5")),
        Some(String::from("127.0.0.1")),
        false,
    )
    .unwrap();
    assert_eq!(config.local_port, 9000);
    assert_eq!(config.remote_port, 9001);

    let mut table = SessionTable::new();
    let c = client(40000);

    // Client sends "ping"; a session is created on ephemeral port P.
    let outcome = table.dispatch(c, b"ping".to_vec(), 50000);
    let port_p = match outcome {
        DispatchOutcome::CreatedNew { upstream_port, replaced_stale, .. } => {
            assert!(!replaced_stale);
            upstream_port
        }
        _ => panic!("expected a new session"),
    };
    assert_eq!(port_p, 50000);

    // The upstream endpoint receives "ping", unmodified, from port P.
    let to_upstream = table.pump_upstream(c).unwrap();
    assert_eq!(to_upstream, b"ping".to_vec());
    assert_eq!(table.lookup(c).unwrap().upstream_port, port_p);

    // Upstream replies "pong" to port P; the session's receiver
    // forwards it and the multiplexer delivers it to the client.
    let mut egress = EgressQueue::new();
    assert_eq!(receiver_step(false, true), ReceiverAction::ForwardToClient);
    let item = package_reply(c, b"pong".to_vec());
    egress.push_reply(item.identity, item.payload);
    let delivered = egress.pop_next().unwrap();
    assert_eq!(delivered.identity, c);
    assert_eq!(delivered.payload, b"pong".to_vec());
}

#[test]
fn idle_timeout_then_fresh_port() {
    let mut table = SessionTable::new();
    let c = client(40001);

    let outcome = table.dispatch(c, b"ping".to_vec(), 50000);
    let (old_sid, port_p) = match outcome {
        DispatchOutcome::CreatedNew { session_id, upstream_port, .. } => {
            (session_id, upstream_port)
        }
        _ => panic!("expected a new session"),
    };
    let _ = table.pump_upstream(c).unwrap();

    // The client goes idle past the configured timeout: a full budget
    // of empty rounds evicts the session.
    for round in 0..ROUNDS {
        let evicted_now = table.idle_round(c);
        assert_eq!(evicted_now, round + 1 == ROUNDS);
    }
    assert!(table.lookup(c).unwrap().evicted);

    // The client sends "hello" again: the relay replaces the stale
    // session with a fresh one on ephemeral port Q != P.
    let port_q = 50001;
    assert_ne!(port_q, port_p);
    let outcome = table.dispatch(c, b"hello".to_vec(), port_q);
    match outcome {
        DispatchOutcome::CreatedNew { session_id, upstream_port, replaced_stale } => {
            assert!(replaced_stale);
            assert_ne!(session_id, old_sid);
            assert_eq!(upstream_port, port_q);
        }
        _ => panic!("expected a replacement session"),
    }
    let to_upstream = table.pump_upstream(c).unwrap();
    assert_eq!(to_upstream, b"hello".to_vec());
}

#[test]
fn datagrams_forwarded_in_send_order() {
    let mut table = SessionTable::new();
    let c = client(40002);

    let first = table.dispatch(c, b"one".to_vec(), 50000);
    assert!(matches!(first, DispatchOutcome::CreatedNew { .. }));
    let second = table.dispatch(c, b"two".to_vec(), 50005);
    assert!(matches!(second, DispatchOutcome::DeliveredToExisting { .. }));
    let third = table.dispatch(c, b"three".to_vec(), 50006);
    assert!(matches!(third, DispatchOutcome::DeliveredToExisting { .. }));

    // Exactly once each, unmodified, in send order.
    assert_eq!(table.pump_upstream(c).unwrap(), b"one".to_vec());
    assert_eq!(table.pump_upstream(c).unwrap(), b"two".to_vec());
    assert_eq!(table.pump_upstream(c).unwrap(), b"three".to_vec());
    assert!(table.pump_upstream(c).is_none());
}

#[test]
fn replies_delivered_in_order() {
    let mut egress = EgressQueue::new();
    let c = client(40003);

    egress.push_reply(c, b"alpha".to_vec());
    egress.push_reply(c, b"beta".to_vec());

    let first = egress.pop_next().unwrap();
    assert_eq!(first.identity, c);
    assert_eq!(first.payload, b"alpha".to_vec());
    let second = egress.pop_next().unwrap();
    assert_eq!(second.identity, c);
    assert_eq!(second.payload, b"beta".to_vec());
    assert!(egress.pop_next().is_none());
}

#[test]
fn no_cross_delivery_between_clients() {
    let mut egress = EgressQueue::new();
    let a = client(40004);
    let b = client(40005);
    assert_ne!(a, b);

    egress.push_reply(a, b"for-a-1".to_vec());
    egress.push_reply(b, b"for-b-1".to_vec());
    egress.push_reply(a, b"for-a-2".to_vec());

    let mut for_a: Vec<Vec<u8>> = Vec::new();
    let mut for_b: Vec<Vec<u8>> = Vec::new();
    while let Some(item) = egress.pop_next() {
        if item.identity == a {
            for_a.push(item.payload);
        } else {
            assert_eq!(item.identity, b);
            for_b.push(item.payload);
        }
    }
    assert_eq!(for_a, vec![b"for-a-1".to_vec(), b"for-a-2".to_vec()]);
    assert_eq!(for_b, vec![b"for-b-1".to_vec()]);
}

#[test]
fn eviction_boundary_never_drops_a_datagram() {
    let mut table = SessionTable::new();
    let c = client(40006);

    table.dispatch(c, b"first".to_vec(), 50000);
    let _ = table.pump_upstream(c).unwrap();
    for _ in 0..ROUNDS {
        table.idle_round(c);
    }
    // The session was just evicted when the datagram arrives: it is
    // accepted by a fresh replacement, and the table holds no
    // duplicate entry for the identity.
    let outcome = table.dispatch(c, b"boundary".to_vec(), 50007);
    assert!(matches!(
        outcome,
        DispatchOutcome::CreatedNew { replaced_stale: true, .. }
    ));
    assert_eq!(table.entries.len(), 1);
    assert_eq!(table.pump_upstream(c).unwrap(), b"boundary".to_vec());
}

#[test]
fn two_clients_have_separate_sessions() {
    let mut table = SessionTable::new();
    let a = client(40008);
    let b = client(40009);

    table.dispatch(a, b"from-a".to_vec(), 50000);
    table.dispatch(b, b"from-b".to_vec(), 50001);
    assert_eq!(table.entries.len(), 2);
    assert_ne!(
        table.lookup(a).unwrap().session_id,
        table.lookup(b).unwrap().session_id
    );
    assert_eq!(table.pump_upstream(a).unwrap(), b"from-a".to_vec());
    assert_eq!(table.pump_upstream(b).unwrap(), b"from-b".to_vec());
}

#[test]
fn round_counter_resets_on_traffic() {
    let mut table = SessionTable::new();
    let c = client(40010);

    table.dispatch(c, b"x".to_vec(), 50000);
    let _ = table.pump_upstream(c).unwrap();
    // A few empty rounds, fewer than the budget: still live.
    for _ in 0..(ROUNDS - 1) {
        assert!(!table.idle_round(c));
    }
    assert_eq!(table.lookup(c).unwrap().rounds_idle, ROUNDS - 1);
    // Traffic arrives: the counter resets and the budget starts over.
    table.dispatch(c, b"y".to_vec(), 50001);
    let _ = table.pump_upstream(c).unwrap();
    assert_eq!(table.lookup(c).unwrap().rounds_idle, 0);
    assert!(!table.lookup(c).unwrap().evicted);
}

#[test]
fn dispatch_with_drawn_port_stays_in_range() {
    let mut table = SessionTable::new();
    let c = client(40011);
    let outcome = table.dispatch_datagram(c, b"ping".to_vec());
    match outcome {
        DispatchOutcome::CreatedNew { upstream_port, .. } => {
            assert!(upstream_port >= 1024);
            assert!(upstream_port <= 1024 + u16::MAX as u32);
        }
        _ => panic!("expected a new session"),
    }
    assert_eq!(table.pump_upstream(c).unwrap(), b"ping".to_vec());
}
