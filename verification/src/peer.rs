//! Peer records and their score.

use vstd::prelude::*;
use crate::units::{min_of, min_u64, UNIT};

verus! {

/// Least conductivity of a path.
pub const CONDUCTIVITY_FLOOR: u64 = 500_000;

/// Greatest conductivity of a path.
pub const CONDUCTIVITY_CEILING: u64 = 10_000_000;

/// Pressure above this counts as this.
pub const PRESSURE_CEILING: u64 = 10_000_000;

/// What a mesh knows of one peer.
#[derive(Debug)]
pub struct MeshPeer {
    pub id: String,
    /// The energy score the peer last advertised.
    pub energy_score: u64,
    /// Strength of the path to the peer: grows with traffic, decays with
    /// time.
    pub conductivity: u64,
    /// The backlog the peer last reported.
    pub pressure: u64,
    /// How many messages arrived through the peer.
    pub message_count: u64,
    /// When the peer was last heard of, in milliseconds of the mesh clock.
    pub last_seen: u64,
    /// Whether the peer is a member of the mesh.
    pub in_mesh: bool,
}

/// The mathematical value of a [`MeshPeer`].
pub struct PeerView {
    pub id: Seq<char>,
    pub energy_score: u64,
    pub conductivity: u64,
    pub pressure: u64,
    pub message_count: u64,
    pub last_seen: u64,
    pub in_mesh: bool,
}

impl PeerView {
    /// The record of a peer on first contact.
    pub open spec fn fresh(id: Seq<char>, energy_score: u64) -> PeerView {
        PeerView {
            id,
            energy_score,
            conductivity: UNIT,
            pressure: 0,
            message_count: 0,
            last_seen: 0,
            in_mesh: false,
        }
    }

    /// The peer's score in `[0, 1]`: `0.30 * energy + 0.20 * min(messages /
    /// 100, 1) + 0.30 * min(conductivity, 5) / 5 + 0.20 * (1 - min(pressure,
    /// 10) / 10)`, rounded down, with the energy taken as at most one.
    pub open spec fn score(self) -> int {
        (30 * min_of(self.energy_score as int, UNIT as int) + 200_000 * min_of(
            self.message_count as int,
            100,
        ) + 6 * min_of(self.conductivity as int, 5 * UNIT) + 20 * UNIT - 2 * min_of(
            self.pressure as int,
            PRESSURE_CEILING as int,
        )) / 100
    }

    /// Whether the conductivity lies between its floor and its ceiling.
    pub open spec fn conducts(self) -> bool {
        CONDUCTIVITY_FLOOR <= self.conductivity <= CONDUCTIVITY_CEILING
    }
}

impl View for MeshPeer {
    type V = PeerView;

    open spec fn view(&self) -> PeerView {
        PeerView {
            id: self.id@,
            energy_score: self.energy_score,
            conductivity: self.conductivity,
            pressure: self.pressure,
            message_count: self.message_count,
            last_seen: self.last_seen,
            in_mesh: self.in_mesh,
        }
    }
}

impl Clone for MeshPeer {
    fn clone(&self) -> (r: MeshPeer)
        ensures
            r@ == self@,
    {
        MeshPeer {
            id: self.id.clone(),
            energy_score: self.energy_score,
            conductivity: self.conductivity,
            pressure: self.pressure,
            message_count: self.message_count,
            last_seen: self.last_seen,
            in_mesh: self.in_mesh,
        }
    }
}

impl MeshPeer {
    /// The record of a peer on first contact: unit conductivity, no
    /// pressure, no traffic, outside the mesh.
    pub fn new(id: String, energy_score: u64) -> (peer: MeshPeer)
        ensures
            peer@ == PeerView::fresh(id@, energy_score),
    {
        MeshPeer {
            id,
            energy_score,
            conductivity: UNIT,
            pressure: 0,
            message_count: 0,
            last_seen: 0,
            in_mesh: false,
        }
    }

    /// The peer's score, by which mesh membership is decided.
    pub fn score(&self) -> (score: u64)
        ensures
            score == self@.score(),
            score <= UNIT,
    {
        let energy: u64 = min_u64(self.energy_score, UNIT);
        let activity: u64 = min_u64(self.message_count, 100);
        let flow: u64 = min_u64(self.conductivity, 5 * UNIT);
        let load: u64 = min_u64(self.pressure, PRESSURE_CEILING);
        (30 * energy + 200_000 * activity + 6 * flow + 20 * UNIT - 2 * load) / 100
    }
}

} // verus!
