use bytes::BufMut;
use port_forwarder::buffer::RelayBuffer;
use port_forwarder::config::ForwardInfo;
use port_forwarder::connections::{ConnectionData, Connections, ReadDirection};
use port_forwarder::flow::{is_whitelisted, ConnectionFlow, Dial, Refusal, RemoteAddr};
use port_forwarder::listener::{ListenerAction, ListenerEvent, ListenerService};
use port_forwarder::relay::{RelayAction, RelayEvent, RelayState};

fn rule(listen_to: &str, forward_to: &str, whitelist: &[&str]) -> ForwardInfo {
    ForwardInfo {
        listen_to: listen_to.to_string(),
        forward_to: forward_to.to_string(),
        whitelist: whitelist.iter().map(|ip| ip.to_string()).collect(),
    }
}

fn peer(ip: &str, port: u16) -> RemoteAddr {
    RemoteAddr { ip: ip.to_string(), full: format!("{}:{}", ip, port) }
}

fn connected(ip: &str, port: u16) -> Dial {
    Dial::Connected { remote_addr: peer(ip, port) }
}

fn let_in(cfg: &ForwardInfo, port: u16, registry: &mut Connections) -> ConnectionFlow {
    ConnectionFlow::open(&connected("127.0.0.1", port), cfg, registry).unwrap()
}

fn ids(list: &[ConnectionData]) -> Vec<u64> {
    list.iter().map(|conn| conn.conn_id).collect()
}

fn transfer(
    flow: &mut ConnectionFlow,
    direction: ReadDirection,
    len: usize,
    registry: &mut Connections,
) {
    assert!(flow.can_step(direction, RelayEvent::Read { len }, registry));
    assert_eq!(
        flow.step(direction, RelayEvent::Read { len }, registry),
        RelayAction::Write { len }
    );
    assert!(flow.can_step(direction, RelayEvent::Written, registry));
    assert_eq!(flow.step(direction, RelayEvent::Written, registry), RelayAction::Receive);
}

#[test]
fn empty_whitelist_lets_everyone_in() {
    let cfg = rule("127.0.0.1:9000", "127.0.0.1:9001", &[]);
    assert!(is_whitelisted(&cfg, &peer("127.0.0.1", 5000)));
    assert!(is_whitelisted(&cfg, &peer("203.0.113.9", 5000)));
}

#[test]
fn whitelist_lets_in_only_what_it_lists() {
    let cfg = rule("0.0.0.0:9000", "127.0.0.1:9001", &["10.0.0.1", "10.0.0.7"]);
    assert!(is_whitelisted(&cfg, &peer("10.0.0.1", 5000)));
    assert!(is_whitelisted(&cfg, &peer("10.0.0.7", 5000)));
    assert!(!is_whitelisted(&cfg, &peer("127.0.0.1", 5000)));
    assert!(!is_whitelisted(&cfg, &peer("10.0.0.10", 5000)));
}

#[test]
fn whitelist_compares_the_address_without_its_port() {
    let cfg = rule("0.0.0.0:9000", "127.0.0.1:9001", &["10.0.0.1:5000"]);
    assert!(!is_whitelisted(&cfg, &peer("10.0.0.1", 5000)));
}

#[test]
fn failed_dial_leaves_no_record() {
    let cfg = rule("127.0.0.1:9000", "127.0.0.1:9001", &[]);
    let mut registry = Connections::new();
    let outcome = ConnectionFlow::open(&Dial::Failed, &cfg, &mut registry);
    assert_eq!(outcome.err(), Some(Refusal::DialFailed));
    assert!(registry.snapshot(true).is_empty());
    assert!(registry.snapshot(false).is_empty());
    assert!(!registry.contains(0));
}

#[test]
fn rejected_peer_leaves_no_record() {
    let cfg = rule("127.0.0.1:9000", "127.0.0.1:9001", &["10.0.0.1"]);
    let mut registry = Connections::new();
    let outcome = ConnectionFlow::open(&connected("127.0.0.1", 40000), &cfg, &mut registry);
    assert_eq!(outcome.err(), Some(Refusal::NotWhitelisted));
    assert!(registry.snapshot(true).is_empty());
    assert!(registry.snapshot(false).is_empty());
    assert!(!registry.contains(0));
}

#[test]
fn rejection_does_not_use_up_an_identifier() {
    let open_rule = rule("127.0.0.1:9000", "127.0.0.1:9001", &[]);
    let closed_rule = rule("127.0.0.1:9002", "127.0.0.1:9003", &["10.0.0.1"]);
    let mut registry = Connections::new();
    let first = let_in(&open_rule, 1, &mut registry);
    assert!(ConnectionFlow::open(&connected("127.0.0.1", 2), &closed_rule, &mut registry).is_err());
    assert!(ConnectionFlow::open(&Dial::Failed, &open_rule, &mut registry).is_err());
    let second = let_in(&open_rule, 3, &mut registry);
    assert_eq!((first.id(), second.id()), (0, 1));
    assert_eq!(ids(&registry.snapshot(true)), vec![0, 1]);
}

#[test]
fn admitted_connection_is_registered_with_peer_and_target() {
    let cfg = rule("127.0.0.1:9000", "127.0.0.1:9001", &["127.0.0.1"]);
    let mut registry = Connections::new();
    let flow = let_in(&cfg, 40000, &mut registry);
    assert_eq!(flow.id(), 0);
    assert_eq!(flow.relay_state(ReadDirection::ReadRemote), RelayState::Waiting);
    assert_eq!(flow.relay_state(ReadDirection::ReadForward), RelayState::Waiting);
    assert!(!flow.local_cancelled());
    assert!(!flow.is_finished());
    let expected = ConnectionData {
        conn_id: 0,
        remote_ip: "127.0.0.1:40000".to_string(),
        connected_to: "127.0.0.1:9001".to_string(),
        bytes_to_remote_ip: 0,
        bytes_to_fowarded_ip: 0,
        active: true,
    };
    assert_eq!(registry.find(0), Some(&expected));
}

#[test]
fn echo_of_five_bytes_is_counted_each_way() {
    let cfg = rule("127.0.0.1:9000", "127.0.0.1:9001", &[]);
    let mut registry = Connections::new();
    let mut flow = let_in(&cfg, 40000, &mut registry);
    transfer(&mut flow, ReadDirection::ReadRemote, "hello".len(), &mut registry);
    let live = registry.snapshot(true);
    assert_eq!(live.len(), 1);
    assert_eq!(live[0].bytes_to_fowarded_ip, 5);
    assert_eq!(live[0].bytes_to_remote_ip, 0);
    transfer(&mut flow, ReadDirection::ReadForward, "hello".len(), &mut registry);
    let live = registry.snapshot(true);
    assert_eq!(live.len(), 1);
    assert_eq!(live[0].bytes_to_fowarded_ip, 5);
    assert_eq!(live[0].bytes_to_remote_ip, 5);
    assert!(live[0].active);
    assert!(registry.snapshot(false).is_empty());
}

#[test]
fn peer_outside_the_whitelist_relays_nothing() {
    let cfg = rule("127.0.0.1:9000", "127.0.0.1:9001", &["10.0.0.1"]);
    let mut registry = Connections::new();
    assert!(ConnectionFlow::open(&connected("127.0.0.1", 40000), &cfg, &mut registry).is_err());
    assert_eq!(registry.snapshot(true), vec![]);
    assert_eq!(registry.snapshot(false), vec![]);
}

#[test]
fn half_close_after_one_byte_ends_the_connection_once() {
    let cfg = rule("127.0.0.1:9000", "127.0.0.1:9001", &[]);
    let mut registry = Connections::new();
    let mut flow = let_in(&cfg, 40000, &mut registry);
    transfer(&mut flow, ReadDirection::ReadRemote, 1, &mut registry);
    assert_eq!(
        flow.step(ReadDirection::ReadRemote, RelayEvent::Read { len: 0 }, &mut registry),
        RelayAction::CancelSibling
    );
    assert!(flow.local_cancelled());
    assert_eq!(flow.relay_state(ReadDirection::ReadRemote), RelayState::Closed);
    assert_eq!(ids(&registry.snapshot(true)), vec![0]);
    assert_eq!(
        flow.step(ReadDirection::ReadForward, RelayEvent::LocalCancelled, &mut registry),
        RelayAction::Stop
    );
    assert!(flow.is_finished());
    assert!(registry.snapshot(true).is_empty());
    let ended = registry.snapshot(false);
    assert_eq!(ids(&ended), vec![0]);
    assert_eq!(ended[0].bytes_to_fowarded_ip, 1);
    assert_eq!(ended[0].bytes_to_remote_ip, 0);
    for direction in [ReadDirection::ReadRemote, ReadDirection::ReadForward] {
        for event in [RelayEvent::Read { len: 3 }, RelayEvent::Written, RelayEvent::LocalCancelled] {
            assert_eq!(flow.step(direction, event, &mut registry), RelayAction::Stop);
        }
    }
    assert!(registry.snapshot(true).is_empty());
    assert_eq!(registry.snapshot(false), ended);
}

#[test]
fn local_cancellation_wins_over_a_chunk_that_arrived() {
    let cfg = rule("127.0.0.1:9000", "127.0.0.1:9001", &[]);
    let mut registry = Connections::new();
    let mut flow = let_in(&cfg, 40000, &mut registry);
    flow.step(ReadDirection::ReadRemote, RelayEvent::ReadFailed, &mut registry);
    assert_eq!(
        flow.step(ReadDirection::ReadForward, RelayEvent::Read { len: 512 }, &mut registry),
        RelayAction::Stop
    );
    assert!(flow.is_finished());
    let record = registry.find(0).unwrap();
    assert_eq!((record.bytes_to_fowarded_ip, record.bytes_to_remote_ip), (0, 0));
    assert!(!record.active);
}

#[test]
fn write_in_flight_at_the_cancellation_is_still_counted() {
    let cfg = rule("127.0.0.1:9000", "127.0.0.1:9001", &[]);
    let mut registry = Connections::new();
    let mut flow = let_in(&cfg, 40000, &mut registry);
    flow.step(ReadDirection::ReadForward, RelayEvent::Read { len: 64 }, &mut registry);
    flow.step(ReadDirection::ReadRemote, RelayEvent::Read { len: 0 }, &mut registry);
    assert_eq!(
        flow.step(ReadDirection::ReadForward, RelayEvent::Written, &mut registry),
        RelayAction::Receive
    );
    assert_eq!(registry.find(0).unwrap().bytes_to_remote_ip, 64);
    assert!(registry.find(0).unwrap().active);
    assert_eq!(
        flow.step(ReadDirection::ReadForward, RelayEvent::Read { len: 64 }, &mut registry),
        RelayAction::Stop
    );
    assert_eq!(registry.find(0).unwrap().bytes_to_remote_ip, 64);
    assert!(!registry.find(0).unwrap().active);
}

#[test]
fn second_end_of_stream_does_not_cancel_again() {
    let cfg = rule("127.0.0.1:9000", "127.0.0.1:9001", &[]);
    let mut registry = Connections::new();
    let mut flow = let_in(&cfg, 40000, &mut registry);
    assert_eq!(
        flow.step(ReadDirection::ReadRemote, RelayEvent::Read { len: 0 }, &mut registry),
        RelayAction::CancelSibling
    );
    assert_eq!(
        flow.step(ReadDirection::ReadForward, RelayEvent::Read { len: 0 }, &mut registry),
        RelayAction::Stop
    );
    assert!(flow.is_finished());
}

#[test]
fn failed_write_leaves_the_sibling_running() {
    let cfg = rule("127.0.0.1:9000", "127.0.0.1:9001", &[]);
    let mut registry = Connections::new();
    let mut flow = let_in(&cfg, 40000, &mut registry);
    flow.step(ReadDirection::ReadRemote, RelayEvent::Read { len: 10 }, &mut registry);
    assert_eq!(
        flow.step(ReadDirection::ReadRemote, RelayEvent::WriteFailed, &mut registry),
        RelayAction::Stop
    );
    assert!(!flow.local_cancelled());
    assert!(!flow.is_finished());
    assert!(registry.find(0).unwrap().active);
    transfer(&mut flow, ReadDirection::ReadForward, 33, &mut registry);
    assert_eq!(registry.find(0).unwrap().bytes_to_remote_ip, 33);
    assert_eq!(
        flow.step(ReadDirection::ReadForward, RelayEvent::Read { len: 0 }, &mut registry),
        RelayAction::CancelSibling
    );
    assert!(flow.is_finished());
    assert!(!registry.find(0).unwrap().active);
}

#[test]
fn two_rules_share_one_sequence_of_identifiers() {
    let first_rule = rule("127.0.0.1:9000", "127.0.0.1:9001", &[]);
    let second_rule = rule("127.0.0.1:9100", "127.0.0.1:9101", &[]);
    let mut registry = Connections::new();
    let mut a = let_in(&first_rule, 1, &mut registry);
    let mut b = let_in(&second_rule, 2, &mut registry);
    let mut c = let_in(&first_rule, 3, &mut registry);
    assert_eq!((a.id(), b.id(), c.id()), (0, 1, 2));
    transfer(&mut a, ReadDirection::ReadRemote, 10, &mut registry);
    transfer(&mut b, ReadDirection::ReadRemote, 200, &mut registry);
    transfer(&mut c, ReadDirection::ReadForward, 3000, &mut registry);
    transfer(&mut a, ReadDirection::ReadForward, 1, &mut registry);
    transfer(&mut b, ReadDirection::ReadRemote, 200, &mut registry);
    let seen: Vec<(u64, String, usize, usize)> = registry
        .snapshot(true)
        .into_iter()
        .map(|conn| (conn.conn_id, conn.connected_to, conn.bytes_to_fowarded_ip, conn.bytes_to_remote_ip))
        .collect();
    assert_eq!(
        seen,
        vec![
            (0, "127.0.0.1:9001".to_string(), 10, 1),
            (1, "127.0.0.1:9101".to_string(), 400, 0),
            (2, "127.0.0.1:9001".to_string(), 0, 3000),
        ]
    );
}

#[test]
fn global_cancellation_ends_a_connection_relay_by_relay() {
    let cfg = rule("127.0.0.1:9000", "127.0.0.1:9001", &[]);
    let mut registry = Connections::new();
    let mut flow = let_in(&cfg, 40000, &mut registry);
    flow.step(ReadDirection::ReadRemote, RelayEvent::Read { len: 100 }, &mut registry);
    assert_eq!(
        flow.step(ReadDirection::ReadForward, RelayEvent::GlobalCancelled, &mut registry),
        RelayAction::Stop
    );
    assert!(registry.find(0).unwrap().active);
    assert_eq!(
        flow.step(ReadDirection::ReadRemote, RelayEvent::Written, &mut registry),
        RelayAction::Receive
    );
    assert_eq!(
        flow.step(ReadDirection::ReadRemote, RelayEvent::GlobalCancelled, &mut registry),
        RelayAction::Stop
    );
    let record = registry.find(0).unwrap();
    assert_eq!(record.bytes_to_fowarded_ip, 100);
    assert!(!record.active);
}

#[test]
fn step_is_refused_where_the_counter_would_overflow() {
    let cfg = rule("127.0.0.1:9000", "127.0.0.1:9001", &[]);
    let mut registry = Connections::new();
    let mut flow = let_in(&cfg, 40000, &mut registry);
    registry.get(0).bytes_to_fowarded_ip = usize::MAX - 4;
    flow.step(ReadDirection::ReadRemote, RelayEvent::Read { len: 5 }, &mut registry);
    assert!(!flow.can_step(ReadDirection::ReadRemote, RelayEvent::Written, &registry));
    assert!(flow.can_step(ReadDirection::ReadRemote, RelayEvent::WriteFailed, &registry));
    registry.get(0).bytes_to_fowarded_ip = usize::MAX - 5;
    assert!(flow.can_step(ReadDirection::ReadRemote, RelayEvent::Written, &registry));
    flow.step(ReadDirection::ReadRemote, RelayEvent::Written, &mut registry);
    assert_eq!(registry.find(0).unwrap().bytes_to_fowarded_ip, usize::MAX);
}

#[test]
fn step_is_refused_on_a_registry_without_the_record() {
    let cfg = rule("127.0.0.1:9000", "127.0.0.1:9001", &[]);
    let mut registry = Connections::new();
    let flow = let_in(&cfg, 40000, &mut registry);
    let other = Connections::new();
    assert!(!flow.can_step(ReadDirection::ReadRemote, RelayEvent::Read { len: 1 }, &other));
    assert!(flow.can_step(ReadDirection::ReadRemote, RelayEvent::Read { len: 1 }, &registry));
}

#[test]
fn stop_in_the_middle_of_a_transfer_halts_the_listener_at_once() {
    let cfg = rule("127.0.0.1:9000", "127.0.0.1:9001", &[]);
    let mut registry = Connections::new();
    let mut listener = ListenerService::new(rule("127.0.0.1:9000", "127.0.0.1:9001", &[]));
    listener.step(ListenerEvent::Bound);
    assert_eq!(listener.step(ListenerEvent::Accepted), ListenerAction::Dispatch);
    let mut flow = let_in(&cfg, 40000, &mut registry);
    flow.step(ReadDirection::ReadRemote, RelayEvent::Read { len: 700 }, &mut registry);

    assert_eq!(listener.step(ListenerEvent::Cancelled), ListenerAction::Stop);
    assert_eq!(listener.step(ListenerEvent::Accepted), ListenerAction::Stop);
    assert!(!flow.is_finished());
    assert_eq!(ids(&registry.snapshot(true)), vec![0]);

    assert_eq!(
        flow.step(ReadDirection::ReadRemote, RelayEvent::Written, &mut registry),
        RelayAction::Receive
    );
    assert_eq!(
        flow.step(ReadDirection::ReadRemote, RelayEvent::GlobalCancelled, &mut registry),
        RelayAction::Stop
    );
    assert_eq!(
        flow.step(ReadDirection::ReadForward, RelayEvent::GlobalCancelled, &mut registry),
        RelayAction::Stop
    );
    let ended = registry.snapshot(false);
    assert_eq!(ids(&ended), vec![0]);
    assert_eq!(ended[0].bytes_to_fowarded_ip, 700);
    assert!(registry.snapshot(true).is_empty());
}

#[test]
fn ended_connection_is_never_listed_as_live_again() {
    let cfg = rule("127.0.0.1:9000", "127.0.0.1:9001", &[]);
    let mut registry = Connections::new();
    let mut first = let_in(&cfg, 1, &mut registry);
    first.step(ReadDirection::ReadRemote, RelayEvent::ReadFailed, &mut registry);
    first.step(ReadDirection::ReadForward, RelayEvent::LocalCancelled, &mut registry);
    let mut second = let_in(&cfg, 2, &mut registry);
    transfer(&mut second, ReadDirection::ReadRemote, 12, &mut registry);
    first.step(ReadDirection::ReadForward, RelayEvent::Read { len: 9 }, &mut registry);
    first.step(ReadDirection::ReadRemote, RelayEvent::Written, &mut registry);
    assert_eq!(ids(&registry.snapshot(true)), vec![1]);
    assert_eq!(ids(&registry.snapshot(false)), vec![0]);
}

#[test]
fn hello_is_echoed_back_and_counted() {
    let cfg = rule("127.0.0.1:9000", "127.0.0.1:9001", &[]);
    let mut registry = Connections::new();
    let mut flow = let_in(&cfg, 40000, &mut registry);
    let mut from_client = RelayBuffer::new();
    let mut from_target = RelayBuffer::new();

    from_client.refill().put_slice(b"hello");
    let action = flow.step(ReadDirection::ReadRemote, from_client.filled(), &mut registry);
    assert_eq!(action, RelayAction::Write { len: 5 });
    let at_target = from_client.chunk(5).unwrap().to_vec();
    flow.step(ReadDirection::ReadRemote, RelayEvent::Written, &mut registry);
    assert_eq!(at_target, b"hello");
    assert_eq!(registry.snapshot(true)[0].bytes_to_fowarded_ip, 5);

    from_target.refill().put_slice(&at_target);
    let action = flow.step(ReadDirection::ReadForward, from_target.filled(), &mut registry);
    assert_eq!(action, RelayAction::Write { len: 5 });
    let at_client = from_target.chunk(5).unwrap().to_vec();
    flow.step(ReadDirection::ReadForward, RelayEvent::Written, &mut registry);
    assert_eq!(at_client, b"hello");

    let live = registry.snapshot(true);
    assert_eq!(live.len(), 1);
    assert_eq!((live[0].bytes_to_fowarded_ip, live[0].bytes_to_remote_ip), (5, 5));
}

#[test]
fn local_token_is_cancelled_by_the_end_of_a_stream() {
    let cfg = rule("127.0.0.1:9000", "127.0.0.1:9001", &[]);
    let mut registry = Connections::new();
    let mut flow = let_in(&cfg, 40000, &mut registry);
    let held_by_driver = flow.local_token();
    assert!(!held_by_driver.is_cancelled());
    transfer(&mut flow, ReadDirection::ReadRemote, 10, &mut registry);
    assert!(!held_by_driver.is_cancelled());
    flow.step(ReadDirection::ReadRemote, RelayEvent::Read { len: 0 }, &mut registry);
    assert!(held_by_driver.is_cancelled());
    assert!(flow.local_token().is_cancelled());
}

#[test]
fn local_token_is_left_alone_by_everything_but_the_end_of_a_stream() {
    let cfg = rule("127.0.0.1:9000", "127.0.0.1:9001", &[]);
    let mut registry = Connections::new();
    let mut flow = let_in(&cfg, 40000, &mut registry);
    flow.step(ReadDirection::ReadRemote, RelayEvent::Read { len: 3 }, &mut registry);
    flow.step(ReadDirection::ReadRemote, RelayEvent::WriteFailed, &mut registry);
    flow.step(ReadDirection::ReadForward, RelayEvent::GlobalCancelled, &mut registry);
    assert!(flow.is_finished());
    assert!(!flow.local_token().is_cancelled());
}

#[test]
fn each_connection_has_a_local_token_of_its_own() {
    let cfg = rule("127.0.0.1:9000", "127.0.0.1:9001", &[]);
    let mut registry = Connections::new();
    let mut first = let_in(&cfg, 1, &mut registry);
    let second = let_in(&cfg, 2, &mut registry);
    first.step(ReadDirection::ReadForward, RelayEvent::ReadFailed, &mut registry);
    assert!(first.local_token().is_cancelled());
    assert!(!second.local_token().is_cancelled());
}

/// A small deterministic generator, so that long runs can be replayed.
struct Dice(u64);

impl Dice {
    fn roll(&mut self, sides: u64) -> u64 {
        self.0 = self.0.wrapping_mul(6364136223846793005).wrapping_add(1442695040888963407);
        (self.0 >> 33) % sides
    }

    fn event(&mut self) -> RelayEvent {
        match self.roll(12) {
            0 => RelayEvent::Read { len: 0 },
            1 => RelayEvent::ReadFailed,
            2 => RelayEvent::GlobalCancelled,
            3 => RelayEvent::LocalCancelled,
            4 => RelayEvent::WriteFailed,
            5..=8 => RelayEvent::Written,
            _ => RelayEvent::Read { len: 1 + self.roll(1024) as usize },
        }
    }

    fn direction(&mut self) -> ReadDirection {
        if self.roll(2) == 0 {
            ReadDirection::ReadRemote
        } else {
            ReadDirection::ReadForward
        }
    }
}

fn slot(direction: ReadDirection) -> usize {
    match direction {
        ReadDirection::ReadRemote => 0,
        ReadDirection::ReadForward => 1,
    }
}

#[test]
fn counters_follow_the_completed_writes_on_any_run() {
    let cfg = rule("127.0.0.1:9000", "127.0.0.1:9001", &[]);
    for seed in 0..300u64 {
        let mut dice = Dice(seed);
        let mut registry = Connections::new();
        registry.add();
        let mut flow = let_in(&cfg, 40000, &mut registry);
        let mut asked = [RelayAction::Receive, RelayAction::Receive];
        let mut written = [0usize, 0usize];
        let mut endings = 0;
        for _ in 0..60 {
            let direction = dice.direction();
            let event = dice.event();
            let was_active = registry.find(1).unwrap().active;
            let was_cancelled = flow.local_cancelled();
            let before = flow.relay_state(direction);
            assert!(flow.can_step(direction, event, &registry));
            let action = flow.step(direction, event, &mut registry);
            if let (RelayAction::Write { len }, RelayEvent::Written) = (asked[slot(direction)], event) {
                written[slot(direction)] += len;
            }
            if was_cancelled && before == RelayState::Waiting {
                assert!(!matches!(action, RelayAction::Write { .. }));
            }
            if flow.relay_state(direction) == RelayState::Closed {
                assert!(matches!(action, RelayAction::Stop | RelayAction::CancelSibling));
            }
            asked[slot(direction)] = action;
            let record = registry.find(1).unwrap();
            assert_eq!(record.bytes_to_fowarded_ip, written[0]);
            assert_eq!(record.bytes_to_remote_ip, written[1]);
            assert_eq!(record.active, !flow.is_finished());
            if was_active && !record.active {
                endings += 1;
            }
            assert!(was_active || !record.active);
            assert_eq!(flow.local_token().is_cancelled(), flow.local_cancelled());
        }
        assert!(endings <= 1);
        assert_eq!(registry.find(0), Some(&ConnectionData::new(0)));
        assert_eq!(registry.issued(), 2);
    }
}

#[test]
fn every_handle_is_on_the_one_local_token_of_the_flow() {
    let cfg = rule("127.0.0.1:9000", "127.0.0.1:9001", &[]);
    let mut registry = Connections::new();
    let mut flow = let_in(&cfg, 1, &mut registry);
    let other = let_in(&cfg, 2, &mut registry);
    let first = flow.local_token();
    assert!(first == flow.local_token());
    transfer(&mut flow, ReadDirection::ReadRemote, 4, &mut registry);
    flow.step(ReadDirection::ReadForward, RelayEvent::ReadFailed, &mut registry);
    assert!(first == flow.local_token());
    assert!(first != other.local_token());
}
