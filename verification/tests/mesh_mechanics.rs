use hypha::mesh::{MeshConfig, TopicMesh};
use hypha::{Capability, Task};

#[test]
fn test_task_diffusion_mechanics() {
    let task = Task {
        id: "task-1".to_string(),
        required_capability: Capability::Compute(100),
        priority: 1,
        reach_intensity: 1_000_000,
        source_id: "source".to_string(),
        auth_token: None,
    };

    // Healthy neighbor, low pressure.
    let diffusion = task.diffuse(1_000_000, 900_000, 0);
    assert!(diffusion > 800_000, "Diffusion should be high for healthy neighbor");
    assert_eq!(diffusion, 900_000);

    // Healthy neighbor, but high pressure.
    let diffusion_pressured = task.diffuse(1_000_000, 900_000, 10_000_000);
    assert!(diffusion_pressured < 100_000, "Diffusion should be throttled by pressure");
    assert_eq!(diffusion_pressured, 90_000);

    // Dead neighbor.
    let diffusion_dead = task.diffuse(1_000_000, 0, 0);
    assert!(diffusion_dead < 300_000, "Diffusion should be low for dead neighbor");
    assert_eq!(diffusion_dead, 180_000);
}

#[test]
fn test_mesh_config_adaptive() {
    let config_normal = MeshConfig::adaptive(1_000_000);
    assert_eq!(config_normal.d, 6);
    assert_eq!(config_normal.d_high, 12);

    let config_low = MeshConfig::adaptive(400_000);
    assert_eq!(config_low.d, 4);
    assert_eq!(config_low.d_high, 8);

    let config_crit = MeshConfig::adaptive(100_000);
    assert_eq!(config_crit.d, 2);
    assert_eq!(config_crit.d_high, 4);
}

#[test]
fn test_topic_mesh_pressure_updates() {
    let mut mesh = TopicMesh::new("test".to_string(), MeshConfig::default());

    mesh.set_pressure(5_000_000);
    assert_eq!(mesh.local_pressure(), 5_000_000);

    mesh.add_peer("peer-1".to_string(), 1_000_000);
    mesh.update_peer_pressure("peer-1", 8_000_000);

    let peer = mesh.peer("peer-1").unwrap();
    assert_eq!(peer.pressure, 8_000_000);

    // 1.0 * 0.3 + 0 * 0.2 + (1 / 5) * 0.3 + (1 - 8 / 10) * 0.2 = 0.4
    assert!(peer.score() < 500_000, "High pressure should lower peer score");
    assert_eq!(peer.score(), 400_000);
}

#[test]
fn test_adaptive_degree_under_low_battery() {
    let config = MeshConfig::adaptive(150_000);
    assert_eq!((config.d, config.d_low, config.d_high, config.d_lazy), (2, 1, 4, 2));
    assert_eq!(config.opportunistic_graft_threshold, 300_000);
    assert_eq!(config.graft_threshold, 100_000);
    assert_eq!(config.prune_threshold, 50_000);
    assert_eq!(config.heartbeat_interval, 1000);

    let edge = MeshConfig::adaptive(200_000);
    assert_eq!((edge.d, edge.d_low, edge.d_high, edge.d_lazy), (4, 2, 8, 4));
    let full = MeshConfig::adaptive(500_000);
    assert_eq!((full.d, full.d_low, full.d_high, full.d_lazy), (6, 4, 12, 6));
}

#[test]
fn test_diffusion_clamps_and_saturates() {
    let mut task = Task::new("t".to_string(), Capability::Storage(1), 0, "s".to_string());
    assert_eq!(task.reach_intensity, 1_000_000);
    // conductivity counts as at most 3, energy + 0.2 as at most 1
    assert_eq!(task.diffuse(9_000_000, 5_000_000, 0), 2_700_000);
    assert_eq!(task.diffuse(u64::MAX, u64::MAX, 0), 2_700_000);
    // pressure counts as at most 10
    assert_eq!(task.diffuse(1_000_000, 1_000_000, u64::MAX), 90_000);
    // 0.5 * 1 * 0.7 * 0.6 * 0.9
    task.reach_intensity = 500_000;
    assert_eq!(task.diffuse(1_000_000, 500_000, 5_000_000), 189_000);
    task.reach_intensity = u64::MAX;
    assert_eq!(task.diffuse(3_000_000, 1_000_000, 0), u64::MAX);
    let signed = task.with_auth("token".to_string());
    assert_eq!(signed.auth_token.as_deref(), Some("token"));
}
