use pylibp2p::address::{is_valid_address, is_valid_peer_id, parse_address, parse_peer_id};
use pylibp2p::error::NodeError;
use pylibp2p::events::{CustomSwarmEvent, EventLog, EVENT_LOG_CAP};
use pylibp2p::occurrence::Occurrence;
use pylibp2p::runner::RunController;
use pylibp2p::scheduler::{dial_permitted, plan_step};
use pylibp2p::text_set::TextSet;
use pylibp2p::stats::ConnectionStats;
use pylibp2p::view::ConnectionView;

const PEER_A: &str = "QmNnooDu7bfjPFoTZYxMNLWUQJyrVwtbZg5gBMjTezGAJN";
const PEER_B: &str = "QmQCU2EcMqAqQPR2i9bChDtGNJchTbq5TbXJJ16u19uLTa";

fn numbered(i: usize) -> CustomSwarmEvent {
    CustomSwarmEvent {
        event_type: "Other".to_string(),
        peer_id: None,
        data: Some(i.to_string().into_bytes()),
        address: None,
        topic: None,
    }
}

fn number_of(e: &CustomSwarmEvent) -> usize {
    String::from_utf8(e.data.clone().unwrap()).unwrap().parse().unwrap()
}

#[test]
fn event_log_keeps_order_below_cap() {
    let mut log = EventLog::new();
    for i in 0..10 {
        log.push(numbered(i));
    }
    let out = log.drain();
    let nums: Vec<usize> = out.iter().map(number_of).collect();
    assert_eq!(nums, (0..10).collect::<Vec<_>>());
}

#[test]
fn event_log_holds_exactly_cap() {
    let mut log = EventLog::new();
    for i in 0..EVENT_LOG_CAP {
        log.push(numbered(i));
    }
    assert_eq!(log.len(), 1000);
}

#[test]
fn event_log_evicts_oldest_half_on_overflow() {
    let mut log = EventLog::new();
    for i in 0..1001 {
        log.push(numbered(i));
    }
    assert_eq!(log.len(), 501);
    let nums: Vec<usize> = log.drain().iter().map(number_of).collect();
    assert_eq!(nums, (500..1001).collect::<Vec<_>>());
}

#[test]
fn event_log_stays_bounded_over_many_pushes() {
    let mut log = EventLog::new();
    for i in 0..5000 {
        log.push(numbered(i));
        assert!(log.len() <= EVENT_LOG_CAP);
    }
    let nums: Vec<usize> = log.drain().iter().map(number_of).collect();
    assert!(nums.len() >= EVENT_LOG_CAP / 2);
    let first = nums[0];
    assert_eq!(nums, (first..5000).collect::<Vec<_>>());
}

#[test]
fn drain_twice_gives_nothing_the_second_time() {
    let mut log = EventLog::new();
    log.push(numbered(1));
    log.push(numbered(2));
    assert_eq!(log.drain().len(), 2);
    assert_eq!(log.drain().len(), 0);
}

#[test]
fn drain_of_empty_log_is_empty() {
    let mut log = EventLog::new();
    assert!(log.drain().is_empty());
}

#[test]
fn second_start_is_already_running() {
    let mut c = RunController::new(7u32);
    assert_eq!(c.start(), Ok(7));
    assert_eq!(c.start(), Err(NodeError::AlreadyRunning));
    assert!(c.is_running());
}

#[test]
fn stop_is_idempotent() {
    let mut c = RunController::new(7u32);
    c.stop();
    assert!(!c.is_running());
    assert!(c.holds_engine());
    c.stop();
    assert!(!c.is_running());
    assert!(c.holds_engine());
    assert_eq!(c.start(), Ok(7));
}

#[test]
fn restart_before_exit_is_refused_then_allowed_after_exit() {
    let mut c = RunController::new(7u32);
    let engine = c.start().unwrap();
    assert!(c.scheduler_active());
    c.stop();
    assert!(!c.should_continue());
    assert!(c.scheduler_active());
    assert_eq!(c.start(), Err(NodeError::EngineBusy));
    assert_eq!(c.start(), Err(NodeError::EngineBusy));
    c.finish(engine);
    assert!(!c.is_running());
    assert_eq!(c.start(), Ok(7));
    assert!(c.should_continue());
}

#[test]
fn check_out_is_busy_while_running() {
    let mut c = RunController::new(7u32);
    assert_eq!(c.check_out(), Ok(7));
    assert!(!c.holds_engine());
    assert_eq!(c.start(), Err(NodeError::EngineUnavailable));
    assert_eq!(c.check_out(), Err(NodeError::EngineUnavailable));
    c.check_in(7);
    let e = c.start().unwrap();
    assert_eq!(c.check_out(), Err(NodeError::EngineBusy));
    c.stop();
    c.finish(e);
    assert_eq!(c.check_out(), Ok(7));
}

#[test]
fn connection_counts_per_peer() {
    let mut s = ConnectionStats::new();
    let a = PEER_A.to_string();
    let b = PEER_B.to_string();
    for _ in 0..3 {
        s.record_connection_established(&a);
    }
    s.record_connection_established(&b);
    assert_eq!(s.count(&a), 3);
    assert_eq!(s.count(&b), 1);
    assert_eq!(s.count(&"nobody".to_string()), 0);
    let snap = s.snapshot();
    assert_eq!(snap, vec![(a.clone(), 3), (b.clone(), 1)]);
}

#[test]
fn occurrences_become_events() {
    let e = Occurrence::NewListenAddr { address: "/ip4/127.0.0.1/tcp/4001".to_string() }.into_event();
    assert_eq!(e.event_type, "NewListenAddr");
    assert_eq!(e.address.as_deref(), Some("/ip4/127.0.0.1/tcp/4001"));
    assert_eq!(e.peer_id, None);

    let o = Occurrence::ConnectionEstablished {
        peer_id: PEER_A.to_string(),
        address: "/ip4/10.0.0.1/tcp/1".to_string(),
    };
    assert_eq!(o.established_peer(), Some(PEER_A.to_string()));
    let e = o.into_event();
    assert_eq!(e.event_type, "ConnectionEstablished");
    assert_eq!(e.peer_id.as_deref(), Some(PEER_A));

    let o = Occurrence::ConnectionClosed { peer_id: PEER_B.to_string(), cause: b"timeout".to_vec() };
    assert_eq!(o.established_peer(), None);
    let e = o.into_event();
    assert_eq!(e.event_type, "ConnectionClosed");
    assert_eq!(e.data, Some(b"timeout".to_vec()));

    let e = Occurrence::Behaviour { description: b"ping".to_vec() }.into_event();
    assert_eq!(e.event_type, "BehaviourEvent");
    let e = Occurrence::Other { description: b"dialing".to_vec() }.into_event();
    assert_eq!(e.event_type, "Other");
}

#[test]
fn scheduler_iteration_records_listen_address_once() {
    let mut log = EventLog::new();
    let mut stats = ConnectionStats::new();
    let occ = Occurrence::NewListenAddr { address: "/ip4/127.0.0.1/tcp/4001".to_string() };
    if let Some(p) = occ.established_peer() {
        stats.record_connection_established(&p);
    }
    log.push(occ.into_event());
    let out = log.drain();
    assert_eq!(out.iter().filter(|e| e.event_type == "NewListenAddr").count(), 1);
    assert!(stats.snapshot().is_empty());
}

#[test]
fn malformed_address_is_invalid() {
    assert_eq!(parse_address("malformed-address").err(), Some(NodeError::InvalidAddress));
    assert!(!is_valid_address("ip4/127.0.0.1/tcp/1"));
    assert!(!is_valid_address("/ip4/not-an-ip/tcp/1"));
}

#[test]
fn loopback_address_is_valid() {
    assert!(parse_address("/ip4/127.0.0.1/tcp/0").is_ok());
    assert!(is_valid_address("/ip6/::1/udp/4001/quic-v1"));
}

#[test]
fn peer_ids_are_checked() {
    assert!(parse_peer_id(PEER_A).is_ok());
    assert!(is_valid_peer_id(PEER_B));
    assert_eq!(parse_peer_id("not a peer").err(), Some(NodeError::InvalidPeerId));
    assert!(!is_valid_peer_id(""));
}

#[test]
fn standard_config_is_valid() {
    let c = pylibp2p::config::NodeConfig::standard();
    assert_eq!(c.validate(), Ok(()));
    assert_eq!(c.mesh_target(), 6);
    assert_eq!(c.dht_replication_factor, 20);
}

#[test]
fn out_of_range_config_is_refused() {
    let mut c = pylibp2p::config::NodeConfig::standard();
    c.mesh_low = 13;
    assert_eq!(c.validate(), Err(NodeError::InvalidConfig));
    let mut c = pylibp2p::config::NodeConfig::standard();
    c.mesh_low = 1;
    assert_eq!(c.validate(), Err(NodeError::InvalidConfig));
    let mut c = pylibp2p::config::NodeConfig::standard();
    c.mesh_low = 2;
    c.mesh_high = 3;
    assert_eq!(c.validate(), Err(NodeError::InvalidConfig));
    let mut c = pylibp2p::config::NodeConfig::standard();
    c.ping_interval_secs = 0;
    assert_eq!(c.validate(), Err(NodeError::InvalidConfig));
    let mut c = pylibp2p::config::NodeConfig::standard();
    c.mesh_low = 8;
    c.mesh_high = 10;
    assert_eq!(c.validate(), Ok(()));
    assert_eq!(c.mesh_target(), 8);
}

#[test]
fn established_connection_names_peer_and_counts_once() {
    let mut log = EventLog::new();
    let mut stats = ConnectionStats::new();
    let occ = Occurrence::ConnectionEstablished {
        peer_id: PEER_B.to_string(),
        address: "/ip4/127.0.0.1/tcp/4001".to_string(),
    };
    if let Some(p) = occ.established_peer() {
        stats.record_connection_established(&p);
    }
    log.push(occ.into_event());
    let out = log.drain();
    assert_eq!(out.len(), 1);
    assert_eq!(out[0].event_type, "ConnectionEstablished");
    assert_eq!(out[0].peer_id.as_deref(), Some(PEER_B));
    assert_eq!(stats.snapshot(), vec![(PEER_B.to_string(), 1)]);
}

#[test]
fn connection_view_tracks_open_connections_and_listeners() {
    let mut v = ConnectionView::new();
    let est = |p: &str| Occurrence::ConnectionEstablished { peer_id: p.to_string(), address: "/ip4/1.1.1.1/tcp/1".to_string() };
    let closed = |p: &str| Occurrence::ConnectionClosed { peer_id: p.to_string(), cause: vec![] };
    v.observe(&Occurrence::NewListenAddr { address: "/ip4/127.0.0.1/tcp/4001".to_string() });
    v.observe(&Occurrence::NewListenAddr { address: "/ip4/127.0.0.1/tcp/4001".to_string() });
    v.observe(&est(PEER_A));
    v.observe(&est(PEER_A));
    v.observe(&est(PEER_B));
    assert_eq!(v.listeners(), vec!["/ip4/127.0.0.1/tcp/4001".to_string()]);
    assert_eq!(v.connected_peers().len(), 2);
    v.observe(&closed(PEER_A));
    assert!(v.is_connected(&PEER_A.to_string()));
    v.observe(&closed(PEER_A));
    assert!(!v.is_connected(&PEER_A.to_string()));
    v.observe(&closed(PEER_A));
    assert_eq!(v.connected_peers(), vec![PEER_B.to_string()]);
    v.observe(&Occurrence::NewListenAddr { address: "/ip4/10.0.0.1/tcp/4001".to_string() });
    v.observe(&Occurrence::NewListenAddr { address: "/ip6/::1/tcp/4001".to_string() });
    v.observe(&Occurrence::ExpiredListenAddr { address: "/ip4/127.0.0.1/tcp/4001".to_string() });
    assert_eq!(v.listeners(), vec!["/ip4/10.0.0.1/tcp/4001".to_string(), "/ip6/::1/tcp/4001".to_string()]);
    v.observe(&Occurrence::ListenerClosed {
        addresses: vec!["/ip6/::1/tcp/4001".to_string(), "/ip4/9.9.9.9/tcp/1".to_string()],
    });
    assert_eq!(v.listeners(), vec!["/ip4/10.0.0.1/tcp/4001".to_string()]);
}

#[test]
fn listener_occurrences_become_events() {
    let e = Occurrence::ExpiredListenAddr { address: "/ip4/127.0.0.1/tcp/1".to_string() }.into_event();
    assert_eq!(e.event_type, "ExpiredListenAddr");
    assert_eq!(e.address.as_deref(), Some("/ip4/127.0.0.1/tcp/1"));
    let e = Occurrence::ListenerClosed { addresses: vec![] }.into_event();
    assert_eq!(e.event_type, "ListenerClosed");
}

#[test]
fn bootstrap_access_is_unavailable_while_engine_is_out() {
    let mut c = RunController::new(7u32);
    assert_eq!(c.check_out_for_bootstrap(), Ok(7));
    assert_eq!(c.check_out_for_bootstrap(), Err(NodeError::EngineUnavailable));
    c.check_in(7);
    let e = c.start().unwrap();
    assert_eq!(c.check_out_for_bootstrap(), Err(NodeError::EngineUnavailable));
    assert!(c.is_running());
    c.stop();
    assert_eq!(c.check_out_for_bootstrap(), Err(NodeError::EngineUnavailable));
    c.finish(e);
    assert_eq!(c.check_out_for_bootstrap(), Ok(7));
}

#[test]
fn step_plan_counts_and_disconnects_banned_peers() {
    let mut banned = TextSet::new();
    banned.add(PEER_B.to_string());
    let est = |p: &str| Occurrence::ConnectionEstablished { peer_id: p.to_string(), address: "/ip4/1.1.1.1/tcp/1".to_string() };
    let plan = plan_step(&est(PEER_A), &banned);
    assert_eq!(plan.counted_peer, Some(PEER_A.to_string()));
    assert_eq!(plan.disconnect, None);
    assert_eq!(plan.event.event_type, "ConnectionEstablished");
    let plan = plan_step(&est(PEER_B), &banned);
    assert_eq!(plan.counted_peer, Some(PEER_B.to_string()));
    assert_eq!(plan.disconnect, Some(PEER_B.to_string()));
    let plan = plan_step(&Occurrence::NewListenAddr { address: "/ip4/127.0.0.1/tcp/1".to_string() }, &banned);
    assert_eq!(plan.counted_peer, None);
    assert_eq!(plan.disconnect, None);
    assert_eq!(plan.event.event_type, "NewListenAddr");
}

#[test]
fn dial_to_banned_peer_is_refused() {
    let mut banned = TextSet::new();
    banned.add(PEER_B.to_string());
    assert_eq!(dial_permitted(&banned, None), Ok(()));
    assert_eq!(dial_permitted(&banned, Some(&PEER_A.to_string())), Ok(()));
    assert_eq!(dial_permitted(&banned, Some(&PEER_B.to_string())), Err(NodeError::DialFailure));
}

#[test]
fn connection_view_tracks_external_addresses() {
    let mut v = ConnectionView::new();
    v.observe(&Occurrence::ExternalAddrConfirmed { address: "/ip4/8.8.8.8/tcp/1".to_string() });
    v.observe(&Occurrence::ExternalAddrConfirmed { address: "/ip4/8.8.4.4/tcp/1".to_string() });
    v.observe(&Occurrence::ExternalAddrConfirmed { address: "/ip4/8.8.8.8/tcp/1".to_string() });
    assert_eq!(v.external_addresses().len(), 2);
    v.observe(&Occurrence::ExternalAddrExpired { address: "/ip4/8.8.8.8/tcp/1".to_string() });
    assert_eq!(v.external_addresses(), vec!["/ip4/8.8.4.4/tcp/1".to_string()]);
    let e = Occurrence::ExternalAddrExpired { address: "/ip4/8.8.8.8/tcp/1".to_string() }.into_event();
    assert_eq!(e.event_type, "ExternalAddrExpired");
}
