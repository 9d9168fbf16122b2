use hypha::mesh::{MeshConfig, TopicMesh};

fn force_into_mesh(mesh: &mut TopicMesh, id: &str) {
    let saved = mesh.config();
    mesh.set_config(MeshConfig { d_high: usize::MAX, graft_threshold: 0, ..saved });
    assert!(mesh.handle_graft(id));
    mesh.set_config(saved);
}

#[test]
fn test_update_peer_score_inserts_peer() {
    let mut mesh = TopicMesh::new("t".to_string(), MeshConfig::default());
    assert_eq!(mesh.known_count(), 0);
    mesh.update_peer_score("peer-a", 700_000);
    assert!(mesh.knows("peer-a"));
    assert_eq!(mesh.peer("peer-a").unwrap().energy_score, 700_000);
}

#[test]
fn test_conductivity_thickens_then_decays() {
    let mut mesh = TopicMesh::new("t".to_string(), MeshConfig::default());
    mesh.add_peer("peer-a".to_string(), 800_000);
    mesh.set_pressure(10_000_000);
    mesh.update_peer_pressure("peer-a", 0);

    let c0 = mesh.peer("peer-a").unwrap().conductivity;
    mesh.record_message("peer-a", "m1");
    let c1 = mesh.peer("peer-a").unwrap().conductivity;
    assert!(c1 > c0, "conductivity should increase on flow");
    assert_eq!(c1, 2_000_000);

    let _ = mesh.heartbeat();
    let c2 = mesh.peer("peer-a").unwrap().conductivity;
    assert!(c2 < c1, "conductivity should decay each heartbeat");
    assert!(c2 >= 500_000, "conductivity has a floor");
    assert_eq!(c2, 1_900_000);
}

#[test]
fn test_prune_excess_prefers_removing_low_score() {
    let mut mesh = TopicMesh::new("t".to_string(), MeshConfig::default());

    mesh.add_peer("good".to_string(), 900_000);
    mesh.add_peer("bad".to_string(), 100_000);
    mesh.update_peer_pressure("bad", 10_000_000);

    force_into_mesh(&mut mesh, "good");
    force_into_mesh(&mut mesh, "bad");
    for i in 0..20 {
        let id = format!("peer-{}", i);
        mesh.add_peer(id.clone(), 600_000);
        force_into_mesh(&mut mesh, &id);
    }

    assert!(mesh.mesh_size() > mesh.config().d_high);
    let _ = mesh.heartbeat();

    assert!(!mesh.in_mesh("bad"), "expected very low-score peer to be pruned");
    assert!(mesh.in_mesh("good"));
    assert_eq!(mesh.mesh_size(), 12);
}

#[test]
fn test_duplicate_count_increments_on_replay() {
    let mut mesh = TopicMesh::new("t".to_string(), MeshConfig::default());
    mesh.add_peer("peer-a".to_string(), 800_000);

    assert_eq!(mesh.duplicate_count(), 0);
    mesh.record_message("peer-a", "m1");
    assert_eq!(mesh.duplicate_count(), 0);
    mesh.record_message("peer-a", "m1");
    assert_eq!(mesh.duplicate_count(), 1);
    mesh.record_message("peer-a", "m1");
    assert_eq!(mesh.duplicate_count(), 2);
}

#[test]
fn test_backoff_blocks_graft_immediately() {
    let mut mesh = TopicMesh::new("t".to_string(), MeshConfig::default());
    mesh.add_peer("peer-a".to_string(), 900_000);
    force_into_mesh(&mut mesh, "peer-a");

    mesh.handle_prune("peer-a", 60_000);
    assert!(!mesh.in_mesh("peer-a"));
    assert!(mesh.in_backoff("peer-a"));

    assert!(!mesh.handle_graft("peer-a"));
    assert!(!mesh.in_mesh("peer-a"));
}

#[test]
fn test_heartbeat_never_panics_on_nan_energy_scores() {
    // A reading that is no number has no fixed-point value; it counts as
    // the worst energy there is.
    let garbage = f32::NAN;
    let worst: u64 = if garbage.is_nan() { 0 } else { (garbage * 1_000_000.0) as u64 };
    let mut mesh = TopicMesh::new("t".to_string(), MeshConfig::default());

    mesh.add_peer("ok-0".to_string(), 600_000);
    mesh.add_peer("ok-1".to_string(), 700_000);
    mesh.add_peer("nan".to_string(), worst);

    for id in ["ok-0", "ok-1", "nan"] {
        force_into_mesh(&mut mesh, id);
    }
    for i in 0..25 {
        let id = format!("peer-{i}");
        mesh.add_peer(id.clone(), 550_000);
        force_into_mesh(&mut mesh, &id);
    }

    let _ = mesh.heartbeat();
    assert!(mesh.mesh_size() <= mesh.config().d_high);
    assert!(!mesh.in_mesh("nan"));
}
