use hypha::control::MeshControl;
use hypha::mesh::{MeshConfig, TopicMesh};

fn force_into_mesh(mesh: &mut TopicMesh, id: &str) {
    let saved = mesh.config();
    mesh.set_config(MeshConfig { d_high: usize::MAX, graft_threshold: 0, ..saved });
    assert!(mesh.handle_graft(id));
    mesh.set_config(saved);
}

#[test]
fn test_mesh_graft_below_d_low() {
    let mut mesh = TopicMesh::new("test".to_string(), MeshConfig::default());

    for i in 0..10u64 {
        mesh.add_peer(format!("peer-{}", i), 500_000 + i * 50_000);
    }
    assert_eq!(mesh.mesh_size(), 0);

    let _ = mesh.heartbeat();

    assert!(mesh.mesh_size() >= mesh.config().d_low);
    assert_eq!(mesh.mesh_size(), 4);
    // the four best were taken, and every member scores at least 0.1
    for i in 6..10 {
        assert!(mesh.in_mesh(&format!("peer-{}", i)));
    }
    for id in mesh.get_forward_targets(false) {
        assert!(mesh.peer(&id).unwrap().score() >= 100_000);
    }
}

#[test]
fn test_mesh_prune_above_d_high() {
    let mut mesh = TopicMesh::new("test".to_string(), MeshConfig::default());

    for i in 0..15 {
        let id = format!("peer-{}", i);
        mesh.add_peer(id.clone(), 500_000);
        force_into_mesh(&mut mesh, &id);
    }
    assert_eq!(mesh.mesh_size(), 15);

    let controls = mesh.heartbeat();

    assert!(mesh.mesh_size() <= mesh.config().d_high);
    assert_eq!(mesh.mesh_size(), 12);
    // ties go to the peers first known
    for i in 0..3 {
        let id = format!("peer-{}", i);
        assert!(!mesh.in_mesh(&id));
        assert!(mesh.in_backoff(&id));
        assert!(matches!(
            &controls[i],
            (to, MeshControl::Prune { topic, backoff: 60_000 }) if *to == id && topic == "test"
        ));
    }
    assert_eq!(controls.len(), 3);
}

#[test]
fn test_opportunistic_grafting() {
    let config = MeshConfig {
        d: 6,
        d_low: 4,
        d_high: 12,
        opportunistic_graft_threshold: 500_000,
        ..Default::default()
    };
    let mut mesh = TopicMesh::new("test".to_string(), config);

    for i in 0..6 {
        let id = format!("low-{}", i);
        mesh.add_peer(id.clone(), 200_000);
        force_into_mesh(&mut mesh, &id);
    }
    for i in 0..4 {
        mesh.add_peer(format!("high-{}", i), 800_000);
    }

    assert!(mesh.mesh_median_score() < 500_000);
    assert_eq!(mesh.mesh_median_score(), 320_000);

    let controls = mesh.heartbeat();

    let has_high = mesh.get_forward_targets(false).iter().any(|id| id.starts_with("high"));
    assert!(has_high);
    // two grafted above the median, then the weakest link replaced
    assert!(mesh.in_mesh("high-0") && mesh.in_mesh("high-1") && mesh.in_mesh("high-2"));
    assert!(!mesh.in_mesh("high-3"));
    assert!(!mesh.in_mesh("low-0") && mesh.in_backoff("low-0"));
    assert_eq!(mesh.mesh_size(), 8);
    assert!(matches!(&controls[0], (to, MeshControl::Graft { .. }) if to == "high-0"));
    assert!(matches!(&controls[1], (to, MeshControl::Graft { .. }) if to == "high-1"));
    assert!(matches!(&controls[2], (to, MeshControl::Prune { backoff: 30_000, .. }) if to == "low-0"));
    assert!(matches!(&controls[3], (to, MeshControl::Graft { .. }) if to == "high-2"));
    assert_eq!(controls.len(), 4);
}

#[test]
fn test_weak_link_replaced_under_default_thresholds() {
    let mut mesh = TopicMesh::new("test".to_string(), MeshConfig::default());
    for i in 0..6 {
        let id = format!("low-{}", i);
        mesh.add_peer(id.clone(), 200_000);
        force_into_mesh(&mut mesh, &id);
    }
    for i in 0..4 {
        mesh.add_peer(format!("high-{}", i), 800_000);
    }
    let before = mesh.mesh_median_score();
    let _ = mesh.heartbeat();
    // the median of the members, 0.317 after the decay, is above 0.3: only
    // the weakest link is replaced
    assert!(mesh.in_mesh("high-0"));
    assert!(!mesh.in_mesh("high-1"));
    assert!(!mesh.in_mesh("low-0"));
    assert_eq!(mesh.mesh_size(), 6);
    assert_eq!(before, 320_000);
    assert_eq!(mesh.mesh_median_score(), 317_000);
    let stats = mesh.stats();
    assert_eq!(stats.mesh_size, 6);
    assert_eq!(stats.known_peers, 10);
    assert_eq!(stats.min_score, 317_000);
    assert_eq!(stats.max_score, 497_000);
    assert_eq!(stats.median_score, 317_000);
    assert_eq!(stats.backoff_count, 1);
    assert_eq!(stats.messages_cached, 0);
    assert_eq!(stats.duplicate_count, 0);
}

#[test]
fn test_phase_alignment() {
    let mut mesh_a = TopicMesh::with_phase("test".to_string(), MeshConfig::default(), 100_000);
    let mesh_b = TopicMesh::with_phase("test".to_string(), MeshConfig::default(), 900_000);

    mesh_a.align_pulse(mesh_b.pulse_phase(), 500_000);

    let diff_before = 200_000;
    let diff_after = {
        let d = mesh_a.pulse_phase().abs_diff(mesh_b.pulse_phase());
        if d > 500_000 {
            1_000_000 - d
        } else {
            d
        }
    };
    assert!(diff_after < diff_before);
    assert_eq!(mesh_a.pulse_phase(), 0);
}

#[test]
fn test_spike_handling() {
    let mut mesh = TopicMesh::new("test".to_string(), MeshConfig::default());
    mesh.add_peer("danger-node".to_string(), 500_000);

    let initial_cond = mesh.peer("danger-node").unwrap().conductivity;
    assert_eq!(initial_cond, 1_000_000);

    mesh.handle_spike("danger-node", 255);

    assert_eq!(mesh.local_pressure(), 10_000_000, "Pressure should max out on danger spike");
    let final_cond = mesh.peer("danger-node").unwrap().conductivity;
    assert!(final_cond >= initial_cond + 2_000_000, "Path should thicken significantly");
    assert_eq!(final_cond, 3_000_000);

    // the ceiling holds, and a spike at the threshold has no effect
    for _ in 0..5 {
        mesh.handle_spike("danger-node", 201);
    }
    assert_eq!(mesh.peer("danger-node").unwrap().conductivity, 10_000_000);
    mesh.set_pressure(1);
    mesh.handle_spike("danger-node", 200);
    assert_eq!(mesh.local_pressure(), 1);
}

#[test]
fn test_baseline_dedup() {
    let mut mesh = TopicMesh::new("t".to_string(), MeshConfig::default());
    mesh.add_peer("A".to_string(), 800_000);
    for _ in 0..3 {
        mesh.record_message("A", "m1");
    }
    assert_eq!(mesh.duplicate_count(), 2);
    assert_eq!(mesh.cached_count(), 1);
    assert!(mesh.has_message("m1"));
    assert_eq!(mesh.recent_messages(), vec!["m1".to_string()]);
    assert_eq!(mesh.peer("A").unwrap().message_count, 3);
    // a message through an unknown peer is cached all the same
    mesh.record_message_at("nobody", "m2", 7);
    assert!(!mesh.knows("nobody"));
    assert_eq!(mesh.cached_count(), 2);
    assert_eq!(mesh.duplicate_count(), 2);
}

#[test]
fn test_heartbeat_keeps_mesh_within_bounds_and_free_of_backoff() {
    let mut mesh = TopicMesh::with_phase("t".to_string(), MeshConfig::default(), 0);
    for i in 0..40u64 {
        let id = format!("p{}", i);
        mesh.add_peer_at(id.clone(), (i * 37_000) % 1_000_000, i);
        if i % 3 != 0 {
            force_into_mesh(&mut mesh, &id);
        }
        if i % 5 == 0 {
            mesh.update_peer_pressure(&id, 10_000_000);
        }
    }
    for round in 0..6u64 {
        if round == 3 {
            mesh.set_config(MeshConfig::adaptive(100_000));
        }
        let everyone: Vec<String> = (0..40).map(|i| format!("p{}", i)).collect();
        let _ = mesh.heartbeat_at(round * 1000, &everyone);
        assert!(mesh.mesh_size() <= mesh.config().d_high);
        let members = mesh.get_forward_targets(false);
        assert_eq!(members.len(), mesh.mesh_size());
        for id in members {
            assert!(mesh.in_mesh(&id));
            assert!(!mesh.in_backoff(&id));
            assert!(mesh.peer(&id).unwrap().in_mesh);
        }
    }
}

#[test]
fn test_backoff_expires_with_the_sweep() {
    let mut mesh = TopicMesh::with_phase("t".to_string(), MeshConfig::default(), 0);
    mesh.add_peer_at("X".to_string(), 900_000, 0);
    mesh.handle_prune_at("X", 60_000, 1_000);
    assert_eq!(mesh.backoff_until("X"), Some(61_000));
    assert!(!mesh.handle_graft("X"));
    let nobody: Vec<String> = Vec::new();
    // with d_low at zero nothing is grafted by the heartbeat itself
    mesh.set_config(MeshConfig { d_low: 0, opportunistic_graft_threshold: 0, ..MeshConfig::default() });
    let _ = mesh.heartbeat_at(60_999, &nobody);
    assert!(mesh.in_backoff("X"));
    assert!(!mesh.handle_graft("X"));
    let _ = mesh.heartbeat_at(61_000, &nobody);
    assert!(!mesh.in_backoff("X"));
    assert!(mesh.handle_graft("X"));
    assert!(mesh.in_mesh("X"));
    // a later expiry of u64::MAX is as far as time goes
    mesh.handle_prune_at("X", u64::MAX, 5);
    assert_eq!(mesh.backoff_until("X"), Some(u64::MAX));
    assert!(!mesh.in_mesh("X"));
}

#[test]
fn test_lazy_announcements() {
    let mut mesh = TopicMesh::with_phase(
        "news".to_string(),
        MeshConfig { d_low: 0, d_lazy: 2, ..MeshConfig::default() },
        0,
    );
    for id in ["a", "b", "c", "d"] {
        mesh.add_peer_at(id.to_string(), 900_000, 0);
    }
    assert!(mesh.handle_graft("b"));
    let chosen: Vec<String> = ["b", "zz", "c", "a", "d"].iter().map(|s| s.to_string()).collect();
    // nothing to announce yet
    assert!(mesh.heartbeat_at(1, &chosen).is_empty());
    for i in 0..12 {
        mesh.record_message_at("a", &format!("m{}", i), 2);
    }
    let controls = mesh.heartbeat_at(3, &chosen);
    assert_eq!(controls.len(), 2);
    let recent: Vec<String> = (2..12).map(|i| format!("m{}", i)).collect();
    for (k, to) in ["c", "a"].iter().enumerate() {
        assert!(matches!(
            &controls[k],
            (target, MeshControl::IHave { topic, message_ids })
                if target == to && topic == "news" && *message_ids == recent
        ));
    }
    // chosen at random: as many as d_lazy, all different, none a member
    let random = mesh.heartbeat();
    assert_eq!(random.len(), 2);
    assert_ne!(random[0].0, random[1].0);
    for (to, control) in &random {
        assert!(mesh.knows(to) && !mesh.in_mesh(to));
        assert!(matches!(control, MeshControl::IHave { .. }));
    }
    assert_eq!(mesh.non_mesh_peers(), vec!["a".to_string(), "c".to_string(), "d".to_string()]);
}

#[test]
fn test_control_dispatch() {
    let mut mesh = TopicMesh::with_phase("t".to_string(), MeshConfig::default(), 0);
    mesh.add_peer("p".to_string(), 900_000);
    mesh.add_peer("weak".to_string(), 0);
    mesh.update_peer_pressure("weak", 10_000_000);
    mesh.update_peer_score("weak", 0);
    // raise conductivity out of the picture: 0 + 0 + 0.06 + 0 < 0.1
    assert_eq!(mesh.peer("weak").unwrap().score(), 60_000);

    let graft = || MeshControl::Graft { topic: "t".to_string() };
    assert!(mesh.handle_control("p", graft()).is_none());
    assert!(mesh.in_mesh("p"));
    assert!(matches!(
        mesh.handle_control("weak", graft()),
        Some(MeshControl::Prune { topic, backoff: 60_000 }) if topic == "t"
    ));
    assert!(matches!(mesh.handle_control("stranger", graft()), Some(MeshControl::Prune { .. })));
    assert!(!mesh.knows("stranger"));

    let prune = MeshControl::Prune { topic: "t".to_string(), backoff: 5_000 };
    assert!(mesh.handle_control_at("p", prune, 100).is_none());
    assert!(!mesh.in_mesh("p"));
    assert_eq!(mesh.backoff_until("p"), Some(5_100));
    assert!(matches!(mesh.handle_control("p", graft()), Some(MeshControl::Prune { .. })));

    mesh.record_message("p", "m1");
    mesh.record_message("p", "m3");
    let ids = |v: &[&str]| v.iter().map(|s| s.to_string()).collect::<Vec<_>>();
    let have = MeshControl::IHave { topic: "t".to_string(), message_ids: ids(&["m1", "m2", "m3", "m4"]) };
    assert!(matches!(
        mesh.handle_control("p", have),
        Some(MeshControl::IWant { message_ids }) if message_ids == ids(&["m2", "m4"])
    ));
    let known = MeshControl::IHave { topic: "t".to_string(), message_ids: ids(&["m3", "m1"]) };
    assert!(mesh.handle_control("p", known).is_none());
    assert!(mesh.handle_control("p", MeshControl::IWant { message_ids: ids(&["m1"]) }).is_none());

    // a full mesh refuses
    mesh.set_config(MeshConfig { d_high: 0, ..MeshConfig::default() });
    mesh.add_peer("q".to_string(), 900_000);
    assert!(!mesh.handle_graft("q"));
}

#[test]
fn test_forward_targets_and_pulse() {
    let mut mesh = TopicMesh::with_phase("t".to_string(), MeshConfig::default(), 2_950_000);
    assert_eq!(mesh.pulse_phase(), 950_000);
    mesh.tick_pulse(100_000);
    assert_eq!(mesh.pulse_phase(), 50_000);
    mesh.tick_pulse(u64::MAX);
    assert_eq!(mesh.pulse_phase(), (50_000u128 + u64::MAX as u128).rem_euclid(1_000_000) as u64);
    assert_eq!(mesh.topic(), "t");

    mesh.add_peer("strong".to_string(), 900_000);
    mesh.add_peer("weak".to_string(), 0);
    mesh.update_peer_pressure("weak", 10_000_000);
    assert_eq!(mesh.get_forward_targets(true), vec!["strong".to_string()]);
    assert!(mesh.get_forward_targets(false).is_empty());
    assert!(mesh.handle_graft("strong"));
    assert_eq!(mesh.get_forward_targets(false), vec!["strong".to_string()]);
    // add_peer leaves a known peer as it is
    mesh.add_peer("strong".to_string(), 1);
    assert_eq!(mesh.peer("strong").unwrap().energy_score, 900_000);
    assert!(mesh.peer("strong").unwrap().in_mesh);
    assert!(mesh.peer("nobody").is_none());
    mesh.update_peer_pressure("nobody", 5);
    assert!(!mesh.knows("nobody"));
    let fresh = TopicMesh::new("x".to_string(), MeshConfig::default());
    assert!(fresh.pulse_phase() < 1_000_000);
    assert_eq!(fresh.stats().min_score, u64::MAX);
    assert_eq!(fresh.stats().max_score, 0);
    assert_eq!(fresh.mesh_median_score(), 0);
}

#[test]
fn test_alignment_never_parts_phases() {
    for phase in (0..1_000_000u64).step_by(45_454) {
        for neighbor in (0..1_000_000u64).step_by(71_428) {
            for weight in [0u64, 1, 250_000, 500_000, 999_999, 1_000_000] {
                let mut mesh = TopicMesh::with_phase("t".to_string(), MeshConfig::default(), phase);
                mesh.align_pulse(neighbor, weight);
                let distance = |a: u64, b: u64| a.abs_diff(b).min(1_000_000 - a.abs_diff(b));
                assert!(distance(mesh.pulse_phase(), neighbor) <= distance(phase, neighbor));
                if weight == 1_000_000 {
                    assert_eq!(mesh.pulse_phase(), neighbor);
                }
                if weight == 0 {
                    assert_eq!(mesh.pulse_phase(), phase);
                }
            }
        }
    }
    // half way round counts as ahead
    let mut mesh = TopicMesh::with_phase("t".to_string(), MeshConfig::default(), 700_000);
    mesh.align_pulse(200_000, 500_000);
    assert_eq!(mesh.pulse_phase(), 950_000);
    let mut mesh = TopicMesh::with_phase("t".to_string(), MeshConfig::default(), 900_000);
    mesh.align_pulse(2_100_000, 500_000);
    assert_eq!(mesh.pulse_phase(), 0);
}
