//! Mesh degree parameters and score thresholds.

use vstd::prelude::*;
use crate::units::UNIT;

verus! {

/// Parameters of one topic mesh.
#[derive(Debug, Clone, Copy)]
pub struct MeshConfig {
    /// Target mesh degree.
    pub d: usize,
    /// Below this many members the heartbeat grafts.
    pub d_low: usize,
    /// Above this many members the heartbeat prunes.
    pub d_high: usize,
    /// How many peers outside the mesh hear an announcement per heartbeat.
    pub d_lazy: usize,
    /// Milliseconds between heartbeats.
    pub heartbeat_interval: u64,
    /// A mesh whose median score lies below this grafts opportunistically.
    pub opportunistic_graft_threshold: u64,
    /// Least score with which a peer may join the mesh.
    pub graft_threshold: u64,
    /// A member whose score lies below this is pruned.
    pub prune_threshold: u64,
}

impl MeshConfig {
    /// The configuration of a node with plenty of energy.
    pub open spec fn standard() -> MeshConfig {
        MeshConfig {
            d: 6,
            d_low: 4,
            d_high: 12,
            d_lazy: 6,
            heartbeat_interval: 1000,
            opportunistic_graft_threshold: 300_000,
            graft_threshold: 100_000,
            prune_threshold: 50_000,
        }
    }

    /// The configuration that suits a node at the given energy score: the
    /// degrees shrink below one half and again below one fifth; the
    /// thresholds stay.
    pub open spec fn for_energy(energy_score: u64) -> MeshConfig {
        if energy_score < UNIT / 5 {
            MeshConfig { d: 2, d_low: 1, d_high: 4, d_lazy: 2, ..Self::standard() }
        } else if energy_score < UNIT / 2 {
            MeshConfig { d: 4, d_low: 2, d_high: 8, d_lazy: 4, ..Self::standard() }
        } else {
            Self::standard()
        }
    }

    /// Adapts the mesh degrees to the node's energy score.
    pub fn adaptive(energy_score: u64) -> (config: MeshConfig)
        ensures
            config == Self::for_energy(energy_score),
    {
        let mut config = MeshConfig::default();
        if energy_score < UNIT / 5 {
            config.d = 2;
            config.d_low = 1;
            config.d_high = 4;
            config.d_lazy = 2;
        } else if energy_score < UNIT / 2 {
            config.d = 4;
            config.d_low = 2;
            config.d_high = 8;
            config.d_lazy = 4;
        }
        config
    }
}

impl Default for MeshConfig {
    fn default() -> (config: MeshConfig)
        ensures
            config == MeshConfig::standard(),
    {
        MeshConfig {
            d: 6,
            d_low: 4,
            d_high: 12,
            d_lazy: 6,
            heartbeat_interval: 1000,
            opportunistic_graft_threshold: 300_000,
            graft_threshold: 100_000,
            prune_threshold: 50_000,
        }
    }
}

} // verus!
