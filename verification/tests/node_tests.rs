use hypha::control::MeshControl;
use hypha::mesh::MeshConfig;
use hypha::mycelium::{classify, NetProfile, Spike, TopicClass};
use hypha::node::{heartbeat_interval_for, message_key_of, should_relay, Inbound, Outbound};
use hypha::sync::{DecodedSync, SyncMessage};
use yrs::updates::decoder::Decode;
use hypha::{Bid, Capability, EnergyStatus, MockMetabolism, PowerMode, SporeNode, Task};

fn compute_task() -> Task {
    Task {
        id: "compute-task".to_string(),
        required_capability: Capability::Compute(100),
        priority: 1,
        reach_intensity: 1_000_000,
        source_id: "test-source".to_string(),
        auth_token: None,
    }
}

#[test]
fn test_quorum_sensing_efficiency() {
    let metabolism = MockMetabolism::new(1_000_000, false);
    let mut node = SporeNode::new_with_metabolism("node".to_string(), metabolism);
    node.add_capability(Capability::Compute(100));

    let task = compute_task();

    // No other bidders: the node bids.
    assert!(node.evaluate_task(&task, 0).is_some());

    // Five bidders already and a low battery: the node stays silent.
    node.metabolism.energy = 300_000;
    assert!(node.evaluate_task(&task, 5).is_none(), "Should stay silent due to quorum");
}

#[test]
fn test_quorum_silence() {
    let mut node = SporeNode::new_with_metabolism("me".to_string(), MockMetabolism::new(300_000, false));
    node.add_capability(Capability::Compute(100));
    let task = compute_task();
    assert!(node.evaluate_task(&task, 5).is_none());

    node.metabolism.energy = 900_000;
    let bid = node.evaluate_task(&task, 0).unwrap();
    assert_eq!(bid.task_id, "compute-task");
    assert_eq!(bid.bidder_id, "me");
    assert_eq!(bid.energy_score, 900_000);
    assert_eq!(bid.cost_mah, 50_000_000);

    // the edges of the policy
    node.metabolism.energy = 800_000;
    assert!(node.evaluate_task(&task, 3).is_some());
    node.metabolism.energy = 799_999;
    assert!(node.evaluate_task(&task, 3).is_none());
    assert!(node.evaluate_task(&task, 2).is_some());
    node.metabolism.energy = 199_999;
    assert!(node.evaluate_task(&task, 0).is_none());
    node.metabolism.energy = 200_000;
    assert!(node.evaluate_task(&task, 0).is_some());
    let mut other = compute_task();
    other.required_capability = Capability::Compute(101);
    assert!(node.evaluate_task(&other, 0).is_none());
    other.required_capability = Capability::Sensing("esp".to_string());
    assert!(node.evaluate_task(&other, 0).is_none());
    node.add_capability(Capability::Sensing("esp".to_string()));
    assert!(node.evaluate_task(&other, 0).is_some());
    other.required_capability = Capability::Storage(100);
    assert!(node.evaluate_task(&other, 0).is_none());
}

#[test]
fn test_process_task_bundle_does_not_panic_on_nan_bids() {
    let mut node = SporeNode::new("node".to_string());
    node.add_capability(Capability::Compute(1));

    let task = Task::new("t".to_string(), Capability::Compute(1), 1, "src".to_string());

    // A bid whose score is no number counts as the worst there is.
    let garbage = f32::NAN;
    let worst: u64 = if garbage.is_nan() { 0 } else { (garbage * 1_000_000.0) as u64 };
    let mut bids = vec![
        Bid { task_id: "t".to_string(), bidder_id: "a".to_string(), energy_score: worst, cost_mah: 1_000_000 },
        Bid { task_id: "t".to_string(), bidder_id: "b".to_string(), energy_score: 500_000, cost_mah: 1_000_000 },
    ];

    let bid = node.process_task_bundle(&task, &mut bids);
    assert!(bid.is_some());
    assert_eq!(bids.len(), 3);
    assert_eq!(bids[2].bidder_id, "node");
    assert_eq!(bids[2].energy_score, 1_000_000);
}

#[test]
fn test_emergent_auction_policy() {
    let mut node = SporeNode::new_with_metabolism("me".to_string(), MockMetabolism::new(600_000, false));
    node.add_capability(Capability::Compute(1));
    let bid_of = |task: &str, energy: u64| Bid {
        task_id: task.to_string(),
        bidder_id: "x".to_string(),
        energy_score: energy,
        cost_mah: 0,
    };
    let mut task = Task::new("t".to_string(), Capability::Compute(1), 1, "src".to_string());

    // a better bid for the same task silences the node, one for another task does not
    let mut bids = vec![bid_of("t", 600_001)];
    assert!(node.process_task_bundle(&task, &mut bids).is_none());
    assert_eq!(bids.len(), 1);
    let mut bids = vec![bid_of("u", 900_000), bid_of("t", 600_000), bid_of("t", 100)];
    task.reach_intensity = 500_000;
    let bid = node.process_task_bundle(&task, &mut bids).unwrap();
    assert_eq!(bid.energy_score, 300_000);
    assert_eq!(bid.cost_mah, 50_000_000);
    assert_eq!(bids.len(), 4);
    assert_eq!(bids[3].energy_score, 300_000);
    assert_eq!(bids[3].task_id, "t");

    // faint reach
    task.reach_intensity = 99_999;
    assert!(node.process_task_bundle(&task, &mut Vec::new()).is_none());
    task.reach_intensity = 100_000;
    assert_eq!(node.process_task_bundle(&task, &mut Vec::new()).unwrap().energy_score, 60_000);

    // tokens
    let signed = |token: &str| {
        Task::new("t".to_string(), Capability::Compute(1), 1, "src".to_string()).with_auth(token.to_string())
    };
    assert!(node.process_task_bundle(&signed(""), &mut Vec::new()).is_none());
    assert!(node.process_task_bundle(&signed("forged"), &mut Vec::new()).is_none());
    assert!(node.process_task_bundle(&signed("auth-vali"), &mut Vec::new()).is_none());
    assert!(node.process_task_bundle(&signed("x-auth-valid-y"), &mut Vec::new()).is_some());
    assert!(node.validate_ucan("auth-valid", &Capability::Compute(1)));
    assert!(!node.validate_ucan("", &Capability::Compute(1)));
    assert!(!node.validate_ucan("valid-auth", &Capability::Compute(1)));

    // capability
    let foreign = Task::new("t".to_string(), Capability::Storage(1), 1, "src".to_string());
    assert!(node.process_task_bundle(&foreign, &mut Vec::new()).is_none());
}

#[test]
fn test_heartbeat_interval_by_energy_and_pressure() {
    let mut node = SporeNode::new("node".to_string());
    assert_eq!(node.energy_score(), 1_000_000);
    assert_eq!(node.heartbeat_interval(), 1_000);
    node.set_power_mode(PowerMode::Critical);
    assert_eq!(node.power_mode, PowerMode::Critical);
    // 0.6 * 50 / 2500
    assert_eq!(node.energy_score(), 12_000);
    assert_eq!(node.heartbeat_interval(), 60_000);
    assert!(node.is_exhausted());
    node.set_power_mode(PowerMode::LowBattery);
    // 0.4 * 0.3 / 0.9 + 0.6 * 500 / 2500
    assert_eq!(node.energy_score(), 253_333);
    assert_eq!(node.heartbeat_interval(), 10_000);
    assert!(!node.is_exhausted());

    assert_eq!(heartbeat_interval_for(199_999, 0), 60_000);
    assert_eq!(heartbeat_interval_for(200_000, 0), 10_000);
    assert_eq!(heartbeat_interval_for(499_999, 0), 10_000);
    assert_eq!(heartbeat_interval_for(500_000, 0), 1_000);
    // pressure speeds the heart up, fourfold at most, if energy allows
    assert_eq!(heartbeat_interval_for(1_000_000, 5_000_000), 1_000);
    assert_eq!(heartbeat_interval_for(1_000_000, 10_000_000), 500);
    assert_eq!(heartbeat_interval_for(1_000_000, 7_500_000), 666);
    assert_eq!(heartbeat_interval_for(1_000_000, 20_000_000), 250);
    assert_eq!(heartbeat_interval_for(1_000_000, u64::MAX), 250);
    assert_eq!(heartbeat_interval_for(450_000, 10_000_000), 5_000);
    assert_eq!(heartbeat_interval_for(400_000, 10_000_000), 10_000);

    node.set_power_mode(PowerMode::Normal);
    node.mesh.set_pressure(10_000_000);
    assert_eq!(node.heartbeat_interval(), 500);
    assert_eq!(node.mah_remaining(), 2_000_000_000);
    assert!(node.consume_energy(500_000_000));
    assert_eq!(node.mah_remaining(), 1_500_000_000);
}

#[test]
fn test_capabilities_match_by_variant_and_payload() {
    assert!(Capability::Compute(1) == Capability::Compute(1));
    assert!(Capability::Compute(1) != Capability::Compute(2));
    assert!(Capability::Compute(1) != Capability::Storage(1));
    assert!(Capability::Sensing("a".to_string()) == Capability::Sensing("a".to_string()).clone());
    assert!(Capability::Sensing("a".to_string()) != Capability::Sensing("b".to_string()));
    assert!(Capability::Storage(u64::MAX).matches(&Capability::Storage(u64::MAX)));
    let task = compute_task().with_auth("k".to_string());
    let copy = task.clone();
    assert_eq!((copy.id, copy.priority, copy.reach_intensity), (task.id, task.priority, task.reach_intensity));
    assert_eq!(copy.auth_token, Some("k".to_string()));
    assert!(copy.required_capability == task.required_capability);
}

#[test]
fn test_relay_decision() {
    assert!(should_relay(900_001, u64::MAX, 0));
    assert!(!should_relay(900_000, 7_000_000, 999_999));
    assert!(should_relay(900_000, 6_999_999, 700_001));
    assert!(!should_relay(900_000, 6_999_999, 700_000));
    assert!(!should_relay(600_000, 0, 999_999));
    assert!(should_relay(600_001, 0, 999_999));
    assert_eq!(message_key_of("m1"), "msg_m1");
}

#[test]
fn test_tick_sequence() {
    let mut node = SporeNode::new_with_metabolism("me".to_string(), MockMetabolism::new(150_000, false));
    node.mesh = hypha::TopicMesh::with_phase("hypha".to_string(), MeshConfig::default(), 700_000);
    for i in 0..5u64 {
        node.mesh.add_peer_at(format!("p{}", i), 900_000 - i, 0);
    }
    node.mesh.record_message_at("p0", "m0", 0);
    let chosen: Vec<String> = (0..5).map(|i| format!("p{}", i)).collect();

    // off peak: only the pulse and the pressure move
    let out = node.tick_at(50_000, 10, &chosen, false);
    assert!(out.is_empty());
    assert_eq!(node.mesh.pulse_phase(), 750_000);
    assert_eq!(node.mesh.local_pressure(), 100_000);
    assert_eq!(node.mesh.mesh_size(), 0);
    assert_eq!(node.mesh.config().d, 6);

    // at the peak: status, adapted degrees, heartbeat
    let out = node.tick_at(50_001, 20, &chosen, true);
    assert_eq!(node.mesh.pulse_phase(), 800_001);
    let config = node.mesh.config();
    assert_eq!((config.d, config.d_low, config.d_high, config.d_lazy), (2, 1, 4, 2));
    assert!(matches!(&out[0], Outbound::Status(EnergyStatus { source_id, energy_score: 150_000 }) if source_id == "me"));
    assert!(matches!(&out[1], Outbound::Control { target, control: MeshControl::Graft { topic } } if target == "p0" && topic == "hypha"));
    assert!(matches!(&out[2], Outbound::Control { target, control: MeshControl::IHave { .. } } if target == "p1"));
    assert!(matches!(&out[3], Outbound::Control { target, control: MeshControl::IHave { .. } } if target == "p2"));
    assert!(matches!(&out[4], Outbound::State(SyncMessage::SyncStep1(_))));
    assert_eq!(out.len(), 5);
    assert_eq!(node.mesh.mesh_size(), 1);

    // the tick that reads the clock
    let mut node = SporeNode::new("me".to_string());
    for _ in 0..40 {
        let out = node.tick(hypha::node::PULSE_DELTA);
        for action in &out {
            assert!(matches!(action, Outbound::Status(_) | Outbound::State(SyncMessage::SyncStep1(_))));
        }
        assert_eq!(node.mesh.local_pressure(), 0);
    }
}

#[test]
fn test_message_dispatch() {
    let mut node = SporeNode::new_with_metabolism("me".to_string(), MockMetabolism::new(950_000, false));
    node.mesh = hypha::TopicMesh::with_phase("hypha".to_string(), MeshConfig::default(), 0);

    let status = Inbound::Status(EnergyStatus { source_id: "claimed".to_string(), energy_score: 850_000 });
    assert!(node.on_message_at("peer", "s1", status, 5).is_empty());
    let peer = node.mesh.peer("peer").unwrap();
    assert_eq!((peer.energy_score, peer.last_seen), (850_000, 5));
    assert!(!node.mesh.knows("claimed"));

    let graft = || MeshControl::Graft { topic: "hypha".to_string() };
    let to_other = Inbound::Control { target: "other".to_string(), control: graft() };
    assert!(node.on_message("peer", "c0", to_other).is_empty());
    assert!(!node.mesh.in_mesh("peer"));
    let to_me = Inbound::Control { target: "me".to_string(), control: graft() };
    assert!(node.on_message("peer", "c1", to_me).is_empty());
    assert!(node.mesh.in_mesh("peer"));
    let refused = Inbound::Control { target: "me".to_string(), control: graft() };
    let out = node.on_message("stranger", "c2", refused);
    assert!(matches!(
        &out[..],
        [Outbound::Control { target, control: MeshControl::Prune { backoff: 60_000, .. } }] if target == "stranger"
    ));

    assert!(node.on_message("peer", "t1", Inbound::Task(compute_task())).is_empty());
    assert!(node.on_message("peer", "x", Inbound::Malformed).is_empty());

    let calm = Inbound::Spike(Spike { source: "peer".to_string(), intensity: 200, pattern_id: 0 });
    assert!(node.on_message("relay", "k0", calm).is_empty());
    assert_eq!(node.mesh.local_pressure(), 0);
    let danger = Inbound::Spike(Spike { source: "peer".to_string(), intensity: 201, pattern_id: 0 });
    assert!(node.on_message("relay", "k1", danger).is_empty());
    assert_eq!(node.mesh.local_pressure(), 10_000_000);
    assert_eq!(node.mesh.peer("peer").unwrap().conductivity, 3_000_000);

    // rich in energy: everything is relayed
    let out = node.on_message_at("peer", "m1", Inbound::Other, 9);
    assert!(matches!(&out[..], [Outbound::Persist { key }, Outbound::Relay] if key == "msg_m1"));
    assert!(node.mesh.has_message("m1"));
    assert_eq!(node.mesh.peer("peer").unwrap().message_count, 1);
    // under pressure and off peak a lesser node only stores
    node.metabolism.energy = 700_000;
    let out = node.on_message("peer", "m1", Inbound::Other);
    assert!(matches!(&out[..], [Outbound::Persist { key }] if key == "msg_m1"));
    assert_eq!(node.mesh.duplicate_count(), 1);
    node.mesh.set_pressure(0);
    node.mesh.tick_pulse(700_001);
    let out = node.on_message("peer", "m2", Inbound::Other);
    assert!(matches!(&out[..], [Outbound::Persist { .. }, Outbound::Relay]));

    node.trigger_sync_spike(255);
    assert_eq!(node.mesh.local_pressure(), 10_000_000);
}

#[test]
fn test_state_messages_reach_the_shared_document() {
    let mut a = SporeNode::new("a".to_string());
    let mut b = SporeNode::new("b".to_string());
    a.shared_state.update_peer_status("a", "up");

    let garbage = Inbound::State(DecodedSync::SyncStep1(vec![0xff, 0xff, 0xff]));
    assert!(b.on_message("a", "g", garbage).is_empty());
    let huge_client = vec![0x01, 0xff, 0xff, 0xff, 0xff, 0xff, 0xff, 0xff, 0xff, 0x7f, 0x00];
    assert!(b.on_message("a", "g", Inbound::State(DecodedSync::SyncStep1(huge_client))).is_empty());
    let no_update = yrs::Update::decode_v1(&[0xff]).ok();
    assert!(no_update.is_none());
    assert!(b.on_message("a", "g", Inbound::State(DecodedSync::Update(no_update))).is_empty());
    assert!(b.on_message("a", "g", Inbound::State(DecodedSync::SyncStep2(None))).is_empty());

    let ask = match b.tick_at(0, 0, &Vec::new(), true).pop() {
        Some(Outbound::State(SyncMessage::SyncStep1(vector))) => vector,
        other => panic!("no sync request: {:?}", other),
    };
    let everything = a.shared_state.snapshot();
    let mut out = a.on_message("b", "s1", Inbound::State(DecodedSync::SyncStep1(ask)));
    let reply = match out.pop() {
        Some(Outbound::State(SyncMessage::SyncStep2(update))) => update,
        other => panic!("no reply: {:?}", other),
    };
    assert!(out.is_empty());
    assert_eq!(reply, everything);
    let update = yrs::Update::decode_v1(&reply).ok();
    assert!(update.is_some());
    assert!(b.on_message("a", "s2", Inbound::State(DecodedSync::SyncStep2(update))).is_empty());
    assert_eq!(b.shared_state.peer_status("a"), Some("up".to_string()));
    assert_eq!(b.shared_state.topic(), "hypha_global_state");
}

#[test]
fn test_topics_and_profiles() {
    assert_eq!(classify("hypha_energy_status"), TopicClass::Status);
    assert_eq!(classify("hypha_mesh_control"), TopicClass::Control);
    assert_eq!(classify("hypha_task_stream"), TopicClass::Task);
    assert_eq!(classify("hypha_spikes"), TopicClass::Spike);
    assert_eq!(classify("hypha_global_state"), TopicClass::State);
    assert_eq!(classify("hypha"), TopicClass::Other);
    assert_eq!(classify(""), TopicClass::Other);
    assert_eq!(NetProfile::default(), NetProfile::Tcp);
    assert!(!NetProfile::Tcp.uses_quic());
    assert!(NetProfile::TcpQuic.uses_quic());
    assert!(NetProfile::Mobile.uses_quic());
}
