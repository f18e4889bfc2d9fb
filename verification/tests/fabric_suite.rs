use edulinker_core::fabric::state::{DiscoveryOutcome, FabricState};
use edulinker_core::fabric::types::{FabricAction, FabricEvent, TransferDirection, TransferStatus,
    WireKind, WireMessage};
use edulinker_core::fabric::wire::{compose_chat, compose_typing, frame_line, total_chunks_for};
use edulinker_core::netdiscovery::{fallback_ports, DiscoveredDevice, NetworkDiscovery};

fn fabric(user: &str, peer_id: &str) -> FabricState {
    let mut f = FabricState::new(String::from(peer_id), 41235, 41236, 41237);
    f.start(
        String::from(user),
        String::from(user),
        Some(String::from("school-1")),
        41235,
        String::from("10.0.0.1"),
    );
    f
}

fn discover(f: &mut FabricState, peer_id: &str, user: &str, school: &str, ip: &str,
    now_ms: i64) -> DiscoveryOutcome {
    f.handle_discovery(
        false,
        peer_id,
        user,
        school,
        Some(String::from(user)),
        None,
        None,
        ip,
        String::from("2026-01-01T00:00:00+00:00"),
        now_ms,
    )
}

#[test]
fn discovery_upserts_scoped_peers_and_answers() {
    let mut f = fabric("alice", "peer-a");
    // Our own echo and foreign schools are ignored.
    assert!(!discover(&mut f, "peer-a", "alice", "school-1", "10.0.0.1", 0).accepted);
    assert!(!discover(&mut f, "peer-x", "mallory", "school-2", "10.0.0.9", 0).accepted);
    assert_eq!(f.get_peers().len(), 0);
    // A first sighting raises peer-discovered and wants a response.
    let first = discover(&mut f, "peer-b", "bob", "school-1", "10.0.0.2", 0);
    assert!(first.accepted);
    assert!(first.respond);
    assert!(matches!(first.event, Some(FabricEvent::PeerDiscovered(_))));
    // A refresh of an online peer raises nothing.
    let again = discover(&mut f, "peer-b", "bob", "school-1", "10.0.0.2", 1000);
    assert!(again.event.is_none());
    assert_eq!(f.get_peers().len(), 1);
    assert_eq!(f.online_peers().len(), 1);
}

#[test]
fn presence_sweep_flips_stale_peers_exactly_once() {
    let mut f = fabric("alice", "peer-a");
    discover(&mut f, "peer-b", "bob", "school-1", "10.0.0.2", 0);
    discover(&mut f, "peer-c", "carol", "school-1", "10.0.0.3", 400_000);
    // At t=400s, bob (last seen at 0) is past five minutes; carol is not.
    let flipped = f.cleanup_sweep(400_000);
    assert_eq!(flipped.len(), 1);
    assert_eq!(flipped[0].user_id.as_str(), "bob");
    assert!(!flipped[0].is_online);
    // The sweep is idempotent: the peer is offline now, so no second event.
    assert_eq!(f.cleanup_sweep(400_000).len(), 0);
    assert_eq!(f.online_peers().len(), 1);
    assert_eq!(f.heartbeat_targets()[0].user_id.as_str(), "carol");
}

#[test]
fn queued_messages_are_delivered_in_order_on_discovery() {
    let mut f = fabric("alice", "peer-a");
    // No peer for bob yet: both sends land in the queue.
    assert!(f.find_peer_by_user("bob").is_none());
    let m1 = compose_chat("alice", "Alice", "bob", "first", "");
    let m2 = compose_chat("alice", "Alice", "bob", "second", "");
    f.queue_message("bob", m1);
    f.queue_message("bob", m2);
    // Bob appears: the queue drains in arrival order.
    let outcome = discover(&mut f, "peer-b", "bob", "school-1", "10.0.0.2", 0);
    assert_eq!(outcome.queued.len(), 2);
    assert_eq!(outcome.queued[0].content.as_str(), "first");
    assert_eq!(outcome.queued[1].content.as_str(), "second");
    // Drained means drained.
    assert_eq!(f.take_queued("bob").len(), 0);
    assert!(f.find_peer_by_user("bob").is_some());
}

#[test]
fn incoming_chat_is_surfaced_persisted_and_receipted() {
    let mut f = fabric("alice", "peer-a");
    let chat = compose_chat("bob", "Bob", "alice", "hello", "msg-1");
    let (events, actions) = f.handle_incoming(
        chat,
        "10.0.0.2",
        String::from("2026-01-01T00:00:00+00:00"),
        0,
    );
    assert_eq!(events.len(), 1);
    match &events[0] {
        FabricEvent::MessageReceived(m) => assert_eq!(m.content.as_str(), "hello"),
        _ => panic!("expected a message event"),
    }
    assert_eq!(actions.len(), 2);
    assert!(matches!(
        actions[0],
        FabricAction::PersistMessage { delivered: true, is_read: false, .. },
    ));
    match &actions[1] {
        FabricAction::SendUdp { target_ip, message } => {
            assert_eq!(target_ip.as_str(), "10.0.0.2");
            assert_eq!(message.kind, WireKind::DeliveryReceipt);
            assert_eq!(message.receiver_id.as_str(), "bob");
            assert_eq!(message.message_id.as_str(), "msg-1");
        },
        _ => panic!("expected a receipt send"),
    }
    // The delivery receipt, observed back at the sender, marks the row.
    let mut sender = fabric("bob", "peer-b");
    let receipt = match &actions[1] {
        FabricAction::SendUdp { message, .. } => message.duplicate(),
        _ => unreachable!(),
    };
    let (sev, sact) = sender.handle_incoming(
        receipt,
        "10.0.0.1",
        String::from("2026-01-01T00:00:01+00:00"),
        1000,
    );
    assert!(matches!(sev[0], FabricEvent::DeliveryReceiptReceived(_)));
    match &sact[0] {
        FabricAction::MarkDelivered { message_id } => assert_eq!(message_id.as_str(), "msg-1"),
        _ => panic!("expected a delivered mark"),
    }
}

#[test]
fn foreign_addressees_are_dropped_but_group_traffic_is_not() {
    let mut f = fabric("alice", "peer-a");
    let stranger = compose_chat("bob", "Bob", "carol", "psst", "m");
    let (events, actions) = f.handle_incoming(
        stranger,
        "10.0.0.2",
        String::from("2026-01-01T00:00:00+00:00"),
        0,
    );
    assert!(events.is_empty() && actions.is_empty());

    let mut group = WireMessage::blank(WireKind::GroupChat);
    group.id = String::from("g-1");
    group.sender_id = String::from("bob");
    group.receiver_id = String::from("carol");
    group.group_id = String::from("grp");
    let (gev, gact) = f.handle_incoming(
        group,
        "10.0.0.2",
        String::from("2026-01-01T00:00:00+00:00"),
        0,
    );
    assert!(matches!(gev[0], FabricEvent::GroupMessageReceived(_)));
    match &gact[0] {
        FabricAction::SendUdp { message, .. } => {
            assert_eq!(message.kind, WireKind::GroupDeliveryReceipt);
            assert_eq!(message.group_id.as_str(), "grp");
        },
        _ => panic!("expected a group receipt"),
    }
}

#[test]
fn pings_answer_pongs_and_pongs_refresh_presence() {
    let mut f = fabric("alice", "peer-a");
    discover(&mut f, "peer-b", "bob", "school-1", "10.0.0.2", 0);
    f.cleanup_sweep(400_000);
    assert_eq!(f.online_peers().len(), 0);

    let mut ping = WireMessage::blank(WireKind::Ping);
    ping.sender_id = String::from("bob");
    let (_, actions) = f.handle_incoming(
        ping,
        "10.0.0.2",
        String::from("2026-01-01T00:07:00+00:00"),
        420_000,
    );
    match &actions[0] {
        FabricAction::SendUdp { message, .. } => assert_eq!(message.kind, WireKind::Pong),
        _ => panic!("expected a pong"),
    }

    let mut pong = WireMessage::blank(WireKind::Pong);
    pong.sender_id = String::from("bob");
    let (events, _) = f.handle_incoming(
        pong,
        "10.0.0.5",
        String::from("2026-01-01T00:07:00+00:00"),
        420_000,
    );
    assert!(matches!(events[0], FabricEvent::PeerOnline(_)));
    let peers = f.online_peers();
    assert_eq!(peers.len(), 1);
    assert_eq!(peers[0].ip_address.as_str(), "10.0.0.5");
}

#[test]
fn file_offers_run_their_lifecycle() {
    let mut f = fabric("alice", "peer-a");
    let (transfer, offer) = f.offer_file("bob", "notes.txt", 100_000);
    assert_eq!(transfer.status, TransferStatus::Pending);
    assert_eq!(transfer.direction, TransferDirection::Send);
    assert_eq!(transfer.total_chunks, 2);
    assert_eq!(offer.kind, WireKind::FileOffer);
    assert_eq!(offer.id.as_str(), transfer.id.as_str());

    // The receiving side records the inbound offer, then accepts it.
    let mut receiver = fabric("bob", "peer-b");
    let (events, _) = receiver.handle_incoming(
        offer,
        "10.0.0.1",
        String::from("2026-01-01T00:00:00+00:00"),
        0,
    );
    let inbound = match &events[0] {
        FabricEvent::FileOfferReceived(t) => t.duplicate(),
        _ => panic!("expected an offer event"),
    };
    assert_eq!(inbound.direction, TransferDirection::Receive);
    let accept = receiver.accept_file(inbound.id.as_str()).unwrap();
    assert_eq!(accept.kind, WireKind::FileAccept);
    assert_eq!(receiver.get_file_transfers()[0].status, TransferStatus::Accepted);
    let reject_unknown = receiver.reject_file("nope");
    assert!(reject_unknown.is_none());
    let reject = receiver.reject_file(inbound.id.as_str()).unwrap();
    assert_eq!(reject.kind, WireKind::FileReject);
    assert_eq!(receiver.get_file_transfers().len(), 0);
}

#[test]
fn group_plans_skip_the_sender_and_share_fields() {
    let f = fabric("alice", "peer-a");
    let members = vec![String::from("alice"), String::from("bob"), String::from("carol")];
    let plan = f.plan_group_send(
        WireKind::GroupChat,
        "grp",
        "Grade 3",
        &members,
        "hello all",
        "gm-1",
    );
    assert_eq!(plan.len(), 2);
    assert_eq!(plan[0].0.as_str(), "bob");
    assert_eq!(plan[1].0.as_str(), "carol");
    for (member, m) in &plan {
        assert_eq!(m.kind, WireKind::GroupChat);
        assert_eq!(m.receiver_id.as_str(), member.as_str());
        assert_eq!(m.sender_id.as_str(), "alice");
        assert_eq!(m.group_id.as_str(), "grp");
        assert_eq!(m.id.as_str(), "gm-1");
        assert_eq!(m.member_ids.len(), 3);
    }
}

#[test]
fn typing_and_framing_helpers() {
    let typing = compose_typing("alice", "bob", true);
    assert_eq!(typing.content.as_str(), "typing");
    let stopped = compose_typing("alice", "bob", false);
    assert_eq!(stopped.content.as_str(), "stopped");
    assert_eq!(frame_line("{\"type\":\"chat\"}").as_str(), "{\"type\":\"chat\"}\n");
    assert_eq!(total_chunks_for(0), 1);
    assert_eq!(total_chunks_for(65536), 1);
    assert_eq!(total_chunks_for(65537), 2);
}

#[test]
fn stop_clears_presence_and_queue() {
    let mut f = fabric("alice", "peer-a");
    discover(&mut f, "peer-b", "bob", "school-1", "10.0.0.2", 0);
    f.queue_message("dave", compose_chat("alice", "Alice", "dave", "hi", ""));
    assert!(f.is_running());
    f.stop();
    assert!(!f.is_running());
    assert_eq!(f.get_peers().len(), 0);
    assert_eq!(f.take_queued("dave").len(), 0);
}

#[test]
fn device_table_tracks_versioned_discovery() {
    let mut nd = NetworkDiscovery::new(String::from("dev-self"), 41235);
    assert!(nd.start(41236, 41235));
    let device = DiscoveredDevice {
        device_id: String::from("dev-1"),
        hostname: String::from("lab-pc"),
        ip_address: String::from("10.0.0.4"),
        mac_address: String::from("aa:bb:cc:dd:ee:ff"),
        os: String::from("linux"),
        platform: String::from("linux"),
        user_id: None,
        last_seen: String::from("2026-01-01T00:00:00+00:00"),
        discovery_version: String::from("1.0"),
    };
    // Wrong marker, wrong version, and our own echo are all ignored.
    assert!(nd.handle_discovery_message("OTHER", "1.0", device.duplicate()).is_none());
    assert!(
        nd.handle_discovery_message("EDULINKER_DISCOVERY", "2.0", device.duplicate()).is_none(),
    );
    let mut own = device.duplicate();
    own.device_id = String::from("dev-self");
    assert!(nd.handle_discovery_message("EDULINKER_DISCOVERY", "1.0", own).is_none());
    // A valid datagram registers the device; a second one refreshes it.
    assert!(
        nd.handle_discovery_message("EDULINKER_DISCOVERY", "1.0", device.duplicate()).is_some(),
    );
    assert!(nd.handle_discovery_message("EDULINKER_DISCOVERY", "1.0", device).is_some());
    assert_eq!(nd.get_devices().len(), 1);
    nd.stop();
    assert!(!nd.is_running());
}

#[test]
fn discovery_socket_ports_fall_back_sequentially() {
    let ports = fallback_ports(41235, 15);
    assert_eq!(ports.len(), 15);
    assert_eq!(ports[0], 41235);
    assert_eq!(ports[14], 41249);
    let clipped = fallback_ports(65530, 15);
    assert_eq!(clipped[14], 65535);
}
