use pylibp2p::crypto::{bytes_equal, HashManager, KeypairManager};
use pylibp2p::discovery::{AutonatManager, IdentifyManager, KademliaManager, MdnsManager, RendezvousManager};
use pylibp2p::error::NodeError;
use pylibp2p::protocols::{FloodsubManager, GossipsubManager, RelayManager, RequestResponseManager, StreamManager};
use pylibp2p::storage::{MemoryStorage, RecordTable};
use pylibp2p::text::{decimal_text, join};
use pylibp2p::transport::{MultiaddrBuilder, TransportManager};

const PEER_A: &str = "QmNnooDu7bfjPFoTZYxMNLWUQJyrVwtbZg5gBMjTezGAJN";
const PEER_B: &str = "QmQCU2EcMqAqQPR2i9bChDtGNJchTbq5TbXJJ16u19uLTa";

fn s(t: &str) -> String {
    t.to_string()
}

#[test]
fn sha256_is_a_multihash() {
    let h = HashManager::new();
    assert_eq!(
        h.sha256_string(""),
        "1220e3b0c44298fc1c149afbf4c8996fb92427ae41e4649b934ca495991b7852b855"
    );
    assert_eq!(
        h.sha256_string("abc"),
        "1220ba7816bf8f01cfea414140de5dae2223b00361a396177a9cb410ff61f20015ad"
    );
    let bytes = h.sha256(b"abc");
    assert_eq!(bytes.len(), 34);
    assert_eq!(&bytes[..2], &[0x12, 0x20]);
    assert!(h.verify_sha256(b"abc", &bytes));
    assert!(!h.verify_sha256(b"abd", &bytes));
}

#[test]
fn blake3_digests() {
    let h = HashManager::new();
    assert_eq!(h.blake3_string(""), "af1349b9f5f9a1a6a0404dea36dcc9499bcb25c9adc112b7cc9a93cae41f3262");
    assert_eq!(h.blake3_string("abc"), "6437b3ac38465133ffb63b75273a8db548c558465d79db03fd359c6cd5bd9d85");
    let d = h.blake3_hash(b"abc");
    assert!(h.verify_blake3(b"abc", &d));
    assert!(!h.verify_blake3(b"abc", &d[..31]));
}

#[test]
fn hash_cache_round_trip() {
    let mut h = HashManager::new();
    h.cache_hash(s("a"), vec![1, 2]);
    h.cache_hash(s("b"), vec![3]);
    h.cache_hash(s("a"), vec![4]);
    assert_eq!(h.cache_size(), 2);
    assert_eq!(h.get_cached_hash(s("a")), Some(vec![4]));
    assert!(h.hash_exists_in_cache(s("b")));
    assert!(h.remove_cached_hash(s("b")));
    assert!(!h.remove_cached_hash(s("b")));
    assert_eq!(h.list_cached_keys(), vec![s("a")]);
    h.clear_cache();
    assert_eq!(h.cache_size(), 0);
}

#[test]
fn byte_comparison() {
    assert!(bytes_equal(b"", b""));
    assert!(!bytes_equal(b"a", b"ab"));
    assert!(!bytes_equal(b"ab", b"ac"));
}

#[test]
fn keypairs_sign_and_verify() {
    let mut k = KeypairManager::new();
    let id = k.generate_ed25519(s("main"));
    assert_eq!(k.get_peer_id(s("main")), Ok(id.clone()));
    let sig = k.sign(s("main"), b"hello").unwrap();
    assert_eq!(k.verify(s("main"), b"hello", &sig), Ok(true));
    assert_eq!(k.verify(s("main"), b"other", &sig), Ok(false));
    assert_eq!(k.sign(s("none"), b"x"), Err(NodeError::NotFound));
    let exported = k.export_private_key(s("main")).unwrap();
    assert_eq!(k.import_private_key(s("copy"), &exported), Ok(id));
    assert_eq!(k.import_private_key(s("bad"), b"junk").err(), Some(NodeError::KeyFailure));
    assert!(!k.keypair_exists(s("bad")));
    assert_eq!(k.get_keypair_type(s("main")), Ok(s("Ed25519")));
    assert!(k.generate_secp256k1(s("other")).len() > 0);
    assert_eq!(k.get_keypair_type(s("other")), Ok(s("Secp256k1")));
    assert_eq!(k.list_keypairs().len(), 3);
    assert!(k.remove_keypair(s("copy")));
    assert!(k.get_public_key(s("copy")).is_err());
}

#[test]
fn mdns_peers() {
    let mut m = MdnsManager::new();
    assert!(m.is_enabled());
    assert_eq!(m.get_query_interval(), 30);
    m.add_discovered_peer(s(PEER_A), vec![s("/ip4/1.2.3.4/tcp/1")], 100);
    m.add_discovered_peer(s(PEER_B), vec![], 200);
    let peers = m.get_discovered_peers();
    assert_eq!(peers.len(), 2);
    let a = peers.iter().find(|p| p.peer_id == PEER_A).unwrap();
    assert_eq!(a.discovery_method, "mdns");
    assert_eq!(a.discovered_at, 100);
    assert!(m.remove_peer(s(PEER_A)));
    assert!(!m.remove_peer(s(PEER_A)));
    m.disable();
    assert!(!m.is_enabled());
}

#[test]
fn kademlia_bootstrap_and_records() {
    let mut k = KademliaManager::new();
    assert_eq!(k.get_query_timeout(), 10);
    assert_eq!(k.get_replication_factor(), 20);
    assert_eq!(k.add_bootstrap_peer(s("nope")), Err(NodeError::InvalidAddress));
    assert_eq!(k.add_bootstrap_peer(s("/ip4/1.2.3.4/tcp/4001")), Ok(()));
    assert_eq!(k.add_bootstrap_peer(s("/ip4/1.2.3.4/tcp/4001")), Ok(()));
    assert_eq!(k.get_bootstrap_peers(), vec![s("/ip4/1.2.3.4/tcp/4001")]);
    k.remove_bootstrap_peer(s("/ip4/1.2.3.4/tcp/4001"));
    assert!(k.get_bootstrap_peers().is_empty());
    k.cache_record(s("k"), vec![9]);
    assert_eq!(k.get_cached_record(s("k")), Some(vec![9]));
    assert_eq!(k.get_cache_size(), 1);
    assert!(k.remove_cached_record(s("k")));
    assert_eq!(k.get_cached_record(s("k")), None);
}

#[test]
fn autonat_status_from_last_probe() {
    let mut a = AutonatManager::new();
    assert_eq!(a.get_nat_status(), "unknown");
    a.record_probe_result(s("reachable: public address"));
    assert_eq!(a.get_nat_status(), "public");
    a.record_probe_result(s("behind private NAT"));
    assert_eq!(a.get_nat_status(), "private");
    a.record_probe_result(s("no answer"));
    assert_eq!(a.get_nat_status(), "unknown");
    a.clear_probe_history();
    assert_eq!(a.get_last_probe_result(), None);
}

#[test]
fn autonat_history_keeps_last_hundred() {
    let mut a = AutonatManager::new();
    for i in 0..150 {
        a.record_probe_result(format!("probe {}", i));
    }
    let h = a.get_probe_history();
    assert_eq!(h.len(), 100);
    assert_eq!(h[0], "probe 50");
    assert_eq!(h[99], "probe 149");
}

#[test]
fn rendezvous_points_and_namespaces() {
    let mut r = RendezvousManager::new();
    assert_eq!(r.add_registration_point(s("bad"), s("/ip4/1.2.3.4/tcp/1")), Err(NodeError::InvalidPeerId));
    assert_eq!(r.add_registration_point(s(PEER_A), s("bad")), Err(NodeError::InvalidAddress));
    assert_eq!(r.add_registration_point(s(PEER_A), s("/ip4/1.2.3.4/tcp/1")), Ok(()));
    assert_eq!(r.get_registration_points(), vec![(s(PEER_A), s("/ip4/1.2.3.4/tcp/1"))]);
    r.add_namespace(s("chat"));
    r.add_namespace(s("chat"));
    assert_eq!(r.get_namespaces(), vec![s("chat")]);
    r.register_discovered_peer(s(PEER_A), vec![], s("chat"), 5);
    r.register_discovered_peer(s(PEER_B), vec![], s("files"), 6);
    let in_chat = r.get_discovered_peers_in_namespace(s("chat"));
    assert_eq!(in_chat.len(), 1);
    assert_eq!(in_chat[0].discovery_method, "rendezvous:chat");
    assert_eq!(r.get_all_discovered_peers().len(), 2);
    assert!(r.remove_namespace(s("chat")));
}

#[test]
fn identify_records() {
    let mut m = IdentifyManager::new();
    assert_eq!(m.get_agent_version(), "voxa-libp2p/1.0.0");
    assert_eq!(m.get_protocol_version(), "ipfs/0.1.0");
    assert_eq!(m.add_observed_address(s("x")), Err(NodeError::InvalidAddress));
    assert_eq!(m.add_observed_address(s("/ip4/8.8.8.8/tcp/1")), Ok(()));
    m.record_peer_info(s(PEER_A), s("agent"), s("proto"), vec![s("/a"), s("/b")], 77);
    let info = m.get_peer_info(s(PEER_A)).unwrap();
    assert_eq!(info.protocols_joined(), "/a,/b");
    assert_eq!(info.discovered_at, 77);
    assert!(m.remove_peer_info(s(PEER_A)));
}

#[test]
fn gossip_topics_and_cache() {
    let mut g = GossipsubManager::new();
    assert_eq!(g.get_config().mesh_n_high, 12);
    assert_eq!(g.add_peer_to_topic(s("t"), s(PEER_A)), Err(NodeError::NotFound));
    g.create_topic(s("t"));
    assert_eq!(g.add_peer_to_topic(s("t"), s(PEER_A)), Ok(()));
    assert_eq!(g.add_peer_to_topic(s("t"), s(PEER_A)), Ok(()));
    assert_eq!(g.get_topic_peers(s("t")), vec![s(PEER_A)]);
    assert!(g.remove_peer_from_topic(s("t"), s(PEER_A)));
    assert!(!g.remove_peer_from_topic(s("t"), s(PEER_A)));
    g.cache_message(s("t"), vec![1], 10);
    g.cache_message(s("u"), vec![2], 11);
    g.cache_message(s("t"), vec![3], 12);
    let only_t = g.get_cached_messages(Some(s("t")));
    assert_eq!(only_t.iter().map(|m| m.data.clone()).collect::<Vec<_>>(), vec![vec![1], vec![3]]);
    assert_eq!(g.get_cached_messages(None).len(), 3);
    assert!(g.remove_topic(s("t")));
    assert_eq!(g.get_topic_count(), 0);
}

#[test]
fn gossip_cache_drops_oldest_past_cap() {
    let mut g = GossipsubManager::new();
    for i in 0..1001u64 {
        g.cache_message(s("t"), vec![], i);
    }
    let all = g.get_cached_messages(None);
    assert_eq!(all.len(), 1000);
    assert_eq!(all[0].timestamp, 1);
}

#[test]
fn floodsub_and_request_response() {
    let mut f = FloodsubManager::new();
    f.add_topic(s("a"));
    f.add_topic(s("b"));
    f.add_topic(s("a"));
    assert_eq!(f.get_topics(), vec![s("a"), s("b")]);
    f.remove_topic(s("a"));
    assert_eq!(f.get_topics(), vec![s("b")]);

    let mut rr = RequestResponseManager::new();
    rr.add_protocol(s("/echo"), s("1"));
    rr.track_request(s("r1"), vec![5]);
    assert_eq!(rr.get_pending_requests(), vec![s("r1")]);
    assert_eq!(rr.complete_request(s("r1")), Some(vec![5]));
    assert_eq!(rr.complete_request(s("r1")), None);
    assert_eq!(rr.get_protocols(), vec![s("/echo")]);
}

#[test]
fn relay_reservations_expire() {
    let mut r = RelayManager::new();
    assert!(!r.is_relay_enabled());
    r.enable_relay(10, 2);
    assert!(r.is_relay_enabled());
    r.add_active_circuit(s("c1"));
    r.add_active_circuit(s("c1"));
    assert_eq!(r.get_active_circuit_count(), 1);
    r.record_reservation_request(s(PEER_A), 100);
    r.record_reservation_request(s(PEER_B), 190);
    assert_eq!(r.clear_old_reservations(50, 200), 1);
    assert_eq!(r.get_reservation_requests(), vec![(s(PEER_B), 190)]);
    r.disable_relay();
    assert_eq!(r.get_active_circuit_count(), 0);
}

#[test]
fn streams_count_bytes() {
    let mut m = StreamManager::new();
    assert_eq!(m.add_stream(s("/p"), s("s1")), Err(NodeError::NotFound));
    m.register_protocol_handler(s("/p"), s("h"));
    assert_eq!(m.add_stream(s("/p"), s("s1")), Ok(()));
    m.update_stream_stats(s("s1"), 10, 20);
    m.update_stream_stats(s("s1"), 1, 2);
    assert_eq!(m.get_stream_stats(s("s1")), Some((11, 22)));
    assert_eq!(m.get_streams_for_protocol(s("/p")), vec![s("s1")]);
    assert!(m.remove_stream(s("/p"), s("s1")));
    assert_eq!(m.get_stream_stats(s("s1")), None);
    assert!(m.unregister_protocol_handler(s("/p")));
    assert_eq!(m.get_protocol_count(), 0);
}

#[test]
fn record_table_by_publisher_and_expiry() {
    let mut t = RecordTable::new();
    t.put_record(vec![1], vec![10], Some(s(PEER_A)), Some(50));
    t.put_record(vec![2], vec![20], Some(s(PEER_B)), None);
    t.put_record(vec![3], vec![30], Some(s(PEER_A)), Some(500));
    assert_eq!(t.get_records_by_publisher(&s(PEER_A)), vec![(vec![1], vec![10]), (vec![3], vec![30])]);
    assert!(t.update_record(vec![2], vec![21]));
    assert!(!t.update_record(vec![9], vec![1]));
    assert_eq!(t.get_record(&[2]), Some(vec![21]));
    assert_eq!(t.cleanup_expired(100), 1);
    assert_eq!(t.record_count(), 2);
    assert!(!t.has_record(&[1]));
}

#[test]
fn memory_storage_uses_record_store() {
    assert!(MemoryStorage::new("bad").is_err());
    let mut m = MemoryStorage::new(PEER_A).unwrap();
    assert_eq!(m.put_record(vec![1], vec![2], Some(s("bad")), None), Err(NodeError::InvalidPeerId));
    assert_eq!(m.put_record(vec![1], vec![2], Some(s(PEER_B)), Some(60)), Ok(()));
    assert_eq!(m.get_record(&[1]), Some(vec![2]));
    assert_eq!(m.put_record(vec![5], vec![0; 65 * 1024], None, None), Err(NodeError::DhtFailure));
    assert_eq!(m.update_record(vec![1], vec![3]), Ok(true));
    assert_eq!(m.get_record(&[1]), Some(vec![3]));
    assert!(m.remove_record(&[1]));
    assert_eq!(m.get_record(&[1]), None);
}

#[test]
fn multiaddr_builder_parts() {
    let mut b = MultiaddrBuilder::new();
    assert_eq!(b.build(), Err(NodeError::InvalidComponent));
    assert_eq!(b.ip4(s("300.1.1.1")), Err(NodeError::InvalidComponent));
    assert_eq!(b.ip4(s("127.0.0.1")), Ok(()));
    assert_eq!(b.tcp(0), Err(NodeError::InvalidComponent));
    assert_eq!(b.tcp(4001), Ok(()));
    assert_eq!(b.ws(Some(s("x"))), Err(NodeError::InvalidComponent));
    assert_eq!(b.ws(Some(s("/chat"))), Ok(()));
    assert_eq!(b.build_without_validation(), "/ip4/127.0.0.1/tcp/4001/ws/chat");
    assert_eq!(b.remove_last_component(), Some(s("/ws/chat")));
    assert_eq!(b.p2p(s(PEER_A)), Ok(()));
    assert_eq!(b.build(), Ok(format!("/ip4/127.0.0.1/tcp/4001/p2p/{}", PEER_A)));
    assert_eq!(b.validate(), Ok(true));
    b.clear();
    b.enable_validation(false);
    assert_eq!(b.dns(s("")), Ok(()));
    b.memory(7);
    assert_eq!(b.get_components(), vec![s("/dns/"), s("/memory/7")]);
    assert_eq!(b.ws(Some(s("nope"))), Ok(()));
    assert_eq!(b.component_count(), 3);
    assert_eq!(b.validate(), Err(NodeError::InvalidAddress));
}

#[test]
fn transport_flags_and_counters() {
    let mut t = TransportManager::new();
    assert_eq!(t.get_supported_protocols(), vec![s("tcp")]);
    t.enable_quic();
    t.enable_dns();
    assert_eq!(
        t.get_supported_protocols(),
        vec![s("tcp"), s("quic"), s("quic-v1"), s("dns"), s("dns4"), s("dns6"), s("dnsaddr")]
    );
    assert!(t.is_transport_enabled(&s("quic-v1")));
    assert!(!t.is_transport_enabled(&s("ws")));
    assert!(!t.is_transport_enabled(&s("carrier-pigeon")));
    t.update_stats(s("tcp"), 100);
    t.update_bandwidth_stats(s("tcp"), 1, 2);
    assert_eq!(t.get_bandwidth_stats(), vec![(s("tcp"), (101, 2))]);
    assert!(t.get_stats().contains(&(s("tcp"), 100)));
    assert!(t.get_stats().contains(&(s("quic_enabled"), 1)));
    t.disable_quic();
    assert!(!t.get_stats().iter().any(|(k, _)| k == "quic_enabled"));
    t.disable_dns();
    assert_eq!(t.get_supported_protocols(), vec![s("tcp")]);
    let info = t.get_transport_info();
    assert_eq!(info[0], (s("tcp_enabled"), s("true")));
    assert_eq!(info[1], (s("quic_enabled"), s("false")));
    assert_eq!(info.len(), 4);
}

#[test]
fn text_helpers() {
    assert_eq!(decimal_text(0), "0");
    assert_eq!(decimal_text(4001), "4001");
    assert_eq!(decimal_text(u64::MAX), "18446744073709551615");
    assert_eq!(join(&vec![s("a"), s("b"), s("c")], ", "), "a, b, c");
    assert_eq!(join(&vec![], ","), "");
}

#[test]
fn gossip_message_stats_per_topic() {
    let mut g = GossipsubManager::new();
    g.cache_message(s("a"), vec![1], 1);
    g.cache_message(s("b"), vec![2], 2);
    g.cache_message(s("a"), vec![3], 3);
    let stats = g.get_message_stats();
    assert_eq!(stats[0], (s("total_cached_messages"), 3));
    assert_eq!(stats.len(), 3);
    assert!(stats.contains(&(s("topic_a_messages"), 2)));
    assert!(stats.contains(&(s("topic_b_messages"), 1)));
    let empty = GossipsubManager::new().get_message_stats();
    assert_eq!(empty, vec![(s("total_cached_messages"), 0)]);
}

#[test]
fn gossip_config_in_words() {
    let info = GossipsubManager::new().get_config_info();
    assert_eq!(info[0], (s("heartbeat_interval"), s("10s")));
    assert_eq!(info[1], (s("validation_mode"), s("Strict")));
    assert_eq!(info[2], (s("mesh_n_high"), s("12")));
    assert_eq!(info[3], (s("mesh_n_low"), s("4")));
    assert_eq!(info[4], (s("duplicate_cache_time"), s("60s")));
}

#[test]
fn relay_stats_counts() {
    let mut r = RelayManager::new();
    r.enable_relay(4, 1);
    r.add_active_circuit(s("c"));
    r.set_circuit_limit(s(PEER_A), 3);
    assert_eq!(r.get_circuit_limit(s(PEER_A)), Some(3));
    let stats = r.get_relay_stats();
    assert_eq!(
        stats,
        vec![(s("active_circuits"), 1), (s("circuit_limits"), 1), (s("reservation_requests"), 0), (s("relay_enabled"), 1)]
    );
}

#[test]
fn stream_totals_and_listings() {
    let mut m = StreamManager::new();
    m.register_protocol_handler(s("/p"), s("h"));
    m.add_stream(s("/p"), s("s1")).unwrap();
    m.add_stream(s("/p"), s("s2")).unwrap();
    m.update_stream_stats(s("s1"), 5, 6);
    m.update_stream_stats(s("s2"), 1, 1);
    m.update_stream_stats(s("unknown"), 100, 100);
    assert_eq!(m.get_total_stats(), (6, 7, 2));
    assert_eq!(m.get_protocol_handlers(), vec![(s("/p"), s("h"))]);
    assert_eq!(m.get_all_streams(), vec![(s("/p"), vec![s("s1"), s("s2")])]);
    assert_eq!(m.get_all_stream_stats().len(), 2);
    m.clear_all_streams();
    assert_eq!(m.get_total_stats(), (0, 0, 0));
}

#[test]
fn stream_counters_wrap() {
    let mut m = StreamManager::new();
    m.register_protocol_handler(s("/p"), s("h"));
    m.add_stream(s("/p"), s("s")).unwrap();
    m.update_stream_stats(s("s"), u64::MAX, 0);
    m.update_stream_stats(s("s"), 2, 0);
    assert_eq!(m.get_stream_stats(s("s")), Some((1, 0)));
}

#[test]
fn storage_stats_sum_lengths() {
    let mut t = RecordTable::new();
    t.put_record(vec![1, 2], vec![1, 2, 3], None, None);
    t.put_record(vec![3], vec![], None, None);
    assert_eq!(t.get_storage_stats(), (2, 3, 3));
    let mut m = MemoryStorage::new(PEER_B).unwrap();
    m.put_record(vec![9], vec![9, 9], None, None).unwrap();
    assert_eq!(m.get_storage_stats(), (1, 1, 2));
}

#[test]
fn builder_component_lookup() {
    let mut b = MultiaddrBuilder::new();
    b.ip4(s("10.0.0.1")).unwrap();
    b.tcp(80).unwrap();
    b.quic_v1();
    assert!(b.has_component("tcp"));
    assert!(b.has_component("quic-v1"));
    assert!(!b.has_component("udp"));
    assert_eq!(b.get_component_value("tcp"), Some(s("80")));
    assert_eq!(b.get_component_value("ip4"), Some(s("10.0.0.1")));
    assert_eq!(b.get_component_value("quic-v1"), Some(s("")));
    assert_eq!(b.get_component_value("udp"), None);
    assert!(b.replace_component("tcp", "443"));
    assert!(b.replace_component("quic-v1", ""));
    assert!(!b.replace_component("udp", "1"));
    assert_eq!(b.build_without_validation(), "/ip4/10.0.0.1/tcp/443/quic-v1");
    assert!(b.replace_component("quic-v1", "x"));
    assert_eq!(b.get_components()[2], "/quic-v1/x");
}

#[test]
fn transport_summary_in_words() {
    let mut t = TransportManager::new();
    t.enable_websocket();
    t.update_bandwidth_stats(s("tcp"), 10, 5);
    t.update_bandwidth_stats(s("ws"), 1, 1);
    let summary = t.get_transport_summary();
    assert_eq!(summary[0], (s("supported_protocols"), s("tcp, websocket, ws, wss")));
    assert_eq!(summary[1], (s("protocol_count"), s("4")));
    assert_eq!(summary[2], (s("has_quic"), s("false")));
    assert_eq!(summary[3], (s("has_websocket"), s("true")));
    assert_eq!(summary[5], (s("total_bandwidth_bytes"), s("17")));
    t.set_connection_limit(s("tcp"), 8);
    assert_eq!(t.get_connection_limit(s("tcp")), Some(8));
    assert!(t.remove_connection_limit(s("tcp")));
    assert!(t.get_connection_limits().is_empty());
    t.set_tcp_config(true, Some(30));
    assert_eq!(t.get_tcp_nodelay(), Some(true));
    assert!(t.get_stats().contains(&(s("tcp_keepalive_secs"), 30)));
    t.reset_stats();
    assert!(t.get_stats().is_empty());
}

#[test]
fn identify_lists_all_records() {
    let mut m = IdentifyManager::new();
    m.record_peer_info(s(PEER_A), s("a"), s("p"), vec![], 1);
    m.record_peer_info(s(PEER_B), s("b"), s("p"), vec![s("/x")], 2);
    let all = m.get_all_peer_info();
    assert_eq!(all.len(), 2);
    assert_eq!(m.get_peer_ids().len(), 2);
    m.add_supported_protocol(s("/x"));
    m.add_supported_protocol(s("/x"));
    assert_eq!(m.get_supported_protocols(), vec![s("/x")]);
    assert!(m.remove_supported_protocol(s("/x")));
    m.clear_peer_info();
    assert!(m.get_all_peer_info().is_empty());
}

#[test]
fn node_protocol_list() {
    let ids = pylibp2p::node_info::supported_protocols();
    assert_eq!(ids.len(), 8);
    assert_eq!(ids[0], "/ipfs/ping/1.0.0");
    assert_eq!(ids[7], "/libp2p/dcutr");
}

#[test]
fn memory_storage_cleanup_drops_records_with_ttl() {
    let mut m = MemoryStorage::new(PEER_A).unwrap();
    m.put_record(vec![1], vec![1], None, Some(10)).unwrap();
    m.put_record(vec![2], vec![2], None, None).unwrap();
    assert_eq!(m.cleanup_expired(), 1);
    assert_eq!(m.get_record(&[1]), None);
    assert_eq!(m.get_record(&[2]), Some(vec![2]));
    assert_eq!(m.record_count(), 1);
    m.clear();
    assert_eq!(m.record_count(), 0);
    assert_eq!(m.get_record(&[2]), Some(vec![2]));
}

#[test]
fn text_set_remove_all_keeps_order() {
    let mut t = pylibp2p::text_set::TextSet::new();
    t.add(s("a"));
    t.add(s("b"));
    t.add(s("c"));
    t.remove_all(&vec![s("b"), s("z")]);
    assert_eq!(t.to_vec(), vec![s("a"), s("c")]);
    t.remove_all(&vec![]);
    assert_eq!(t.len(), 2);
}
