//! The per-topic gossip mesh: peer directory, membership, deduplication
//! cache, backoff table and pulse.
//!
//! [`MeshView`] is the mathematical model of a mesh and says, as functions
//! from state to state, what each operation does. [`TopicMesh`] implements
//! it. Operations that read the clock exist twice: `x()` reads the mesh's
//! own clock and `x_at(.., now)` takes the reading from the caller.

use vstd::prelude::*;
use std::time::Instant;
pub use crate::config::MeshConfig;
pub use crate::control::MeshControl;
use crate::control::{ControlView, PRUNE_BACKOFF};
use crate::ids::{find_id, lemma_filter_next, texts};
pub use crate::peer::MeshPeer;
use crate::peer::{PeerView, CONDUCTIVITY_CEILING, PRESSURE_CEILING};
use crate::platform::{clock_read, clock_start, random_word};
use crate::pulse::{advance, advanced, align, aligned};
use crate::sorting::median_of;
use crate::units::{add_saturating, gap, gap_u64, max_of, max_u64, min_of, saturate, UNIT};

pub mod heartbeat;
pub mod invariants;


verus! {

/// The views of a list of peer records.
pub open spec fn peer_views(peers: Seq<MeshPeer>) -> Seq<PeerView> {
    peers.map_values(|p: MeshPeer| p@)
}

/// The views of a backoff table.
pub open spec fn backoff_views(entries: Seq<(String, u64)>) -> Seq<(Seq<char>, u64)> {
    entries.map_values(|e: (String, u64)| (e.0@, e.1))
}

/// How many of the records are mesh members.
pub open spec fn members(peers: Seq<PeerView>) -> nat
    decreases peers.len(),
{
    if peers.len() == 0 {
        0
    } else {
        members(peers.drop_last()) + if peers.last().in_mesh {
            1nat
        } else {
            0nat
        }
    }
}

/// The conductivity of a path after a message has flowed over it: it grows
/// by a tenth of the pressure gradient, taken as at least `0.1`, up to the
/// ceiling.
pub open spec fn thickened(conductivity: int, local_pressure: int, peer_pressure: int) -> int {
    min_of(
        conductivity + max_of(gap(local_pressure, peer_pressure), 100_000) / 10,
        CONDUCTIVITY_CEILING as int,
    )
}

/// The conductivity of the path to the source of a danger spike: two more,
/// up to the ceiling.
pub open spec fn excited(conductivity: int) -> int {
    min_of(conductivity + 2 * UNIT, CONDUCTIVITY_CEILING as int)
}

/// When a backoff of `backoff` milliseconds that starts at `now` ends.
pub open spec fn expiry(now: int, backoff: int) -> int {
    saturate(now + backoff)
}

/// Spikes above this intensity signal danger.
pub const DANGER_INTENSITY: u8 = 200;

/// Whether one of the records is that of `id`.
pub open spec fn known_in(peers: Seq<PeerView>, id: Seq<char>) -> bool {
    exists|i: int| 0 <= i < peers.len() && (#[trigger] peers[i]).id == id
}

/// Where the record of `id` stands among the records that hold one.
pub open spec fn index_in(peers: Seq<PeerView>, id: Seq<char>) -> int {
    choose|i: int| 0 <= i < peers.len() && (#[trigger] peers[i]).id == id
}

/// Whether the table holds a backoff against `id`.
pub open spec fn blocked_in(backoff: Seq<(Seq<char>, u64)>, id: Seq<char>) -> bool {
    exists|i: int| 0 <= i < backoff.len() && (#[trigger] backoff[i]).0 == id
}

/// Where the backoff against `id` stands in a table that holds one.
pub open spec fn block_index_in(backoff: Seq<(Seq<char>, u64)>, id: Seq<char>) -> int {
    choose|i: int| 0 <= i < backoff.len() && (#[trigger] backoff[i]).0 == id
}

/// No two records are of the same peer.
pub open spec fn distinct_ids(peers: Seq<PeerView>) -> bool {
    forall|i: int, j: int|
        0 <= i < j < peers.len() ==> (#[trigger] peers[i]).id != (#[trigger] peers[j]).id
}

/// No two backoffs stand against the same peer.
pub open spec fn distinct_blocks(backoff: Seq<(Seq<char>, u64)>) -> bool {
    forall|i: int, j: int|
        0 <= i < j < backoff.len() ==> (#[trigger] backoff[i]).0 != (#[trigger] backoff[j]).0
}

/// Every conductivity lies between floor and ceiling.
pub open spec fn all_conduct(peers: Seq<PeerView>) -> bool {
    forall|i: int| 0 <= i < peers.len() ==> (#[trigger] peers[i]).conducts()
}

/// No backoff stands against a member.
pub open spec fn members_free(peers: Seq<PeerView>, backoff: Seq<(Seq<char>, u64)>) -> bool {
    forall|i: int|
        0 <= i < peers.len() && (#[trigger] peers[i]).in_mesh ==> !blocked_in(backoff, peers[i].id)
}

/// The state of one topic mesh.
pub struct MeshView {
    pub topic: Seq<char>,
    pub config: MeshConfig,
    pub local_pressure: u64,
    pub pulse_phase: u64,
    /// The known peers, in the order in which they became known.
    pub peers: Seq<PeerView>,
    /// The identifiers of the messages seen, oldest first.
    pub message_cache: Seq<Seq<char>>,
    pub duplicate_count: u64,
    /// Peers that may not be grafted, each with the time at which that ends.
    pub backoff: Seq<(Seq<char>, u64)>,
}

impl MeshView {
    /// A mesh that knows nobody and has seen nothing.
    pub open spec fn empty(topic: Seq<char>, config: MeshConfig, pulse_phase: u64) -> MeshView {
        MeshView {
            topic,
            config,
            local_pressure: 0,
            pulse_phase,
            peers: Seq::empty(),
            message_cache: Seq::empty(),
            duplicate_count: 0,
            backoff: Seq::empty(),
        }
    }

    pub open spec fn knows(self, id: Seq<char>) -> bool {
        known_in(self.peers, id)
    }

    /// Where the record of a known peer stands.
    pub open spec fn index_of(self, id: Seq<char>) -> int {
        index_in(self.peers, id)
    }

    /// The record of a known peer.
    pub open spec fn peer(self, id: Seq<char>) -> PeerView {
        self.peers[self.index_of(id)]
    }

    pub open spec fn is_member(self, id: Seq<char>) -> bool {
        self.knows(id) && self.peer(id).in_mesh
    }

    /// The members of the mesh.
    pub open spec fn mesh_peers(self) -> Set<Seq<char>> {
        Set::new(|id: Seq<char>| self.is_member(id))
    }

    pub open spec fn mesh_size(self) -> nat {
        members(self.peers)
    }

    /// Whether a backoff stands against the peer.
    pub open spec fn blocked(self, id: Seq<char>) -> bool {
        blocked_in(self.backoff, id)
    }

    pub open spec fn block_index(self, id: Seq<char>) -> int {
        block_index_in(self.backoff, id)
    }

    /// When the backoff against a blocked peer ends.
    pub open spec fn blocked_until(self, id: Seq<char>) -> u64 {
        self.backoff[self.block_index(id)].1
    }

    pub open spec fn has_message(self, id: Seq<char>) -> bool {
        self.message_cache.contains(id)
    }

    /// The invariant of a mesh: the phase lies in `[0, 1)`; no peer, message
    /// or backoff is recorded twice; every conductivity lies between floor
    /// and ceiling; no backoff stands against a member.
    pub open spec fn wf(self) -> bool {
        &&& self.pulse_phase < UNIT
        &&& distinct_ids(self.peers)
        &&& all_conduct(self.peers)
        &&& members_free(self.peers, self.backoff)
        &&& self.message_cache.no_duplicates()
        &&& distinct_blocks(self.backoff)
    }

    /// The mesh with one record replaced.
    pub open spec fn with_peer(self, i: int, peer: PeerView) -> MeshView {
        MeshView { peers: self.peers.update(i, peer), ..self }
    }

    /// The mesh with one more record.
    pub open spec fn with_new_peer(self, id: Seq<char>, energy_score: u64, now: u64) -> MeshView {
        MeshView {
            peers: self.peers.push(
                PeerView { last_seen: now, ..PeerView::fresh(id, energy_score) },
            ),
            ..self
        }
    }

    /// A peer becomes known; one that is known already stays as it is.
    pub open spec fn add_peer(self, id: Seq<char>, energy_score: u64, now: u64) -> MeshView {
        if self.knows(id) {
            self
        } else {
            self.with_new_peer(id, energy_score, now)
        }
    }

    /// A peer advertises its energy score.
    pub open spec fn update_peer_score(self, id: Seq<char>, energy_score: u64, now: u64)
        -> MeshView {
        if self.knows(id) {
            let i = self.index_of(id);
            self.with_peer(i, PeerView { energy_score, last_seen: now, ..self.peers[i] })
        } else {
            self.with_new_peer(id, energy_score, now)
        }
    }

    /// A known peer reports its pressure.
    pub open spec fn update_peer_pressure(self, id: Seq<char>, pressure: u64) -> MeshView {
        if self.knows(id) {
            let i = self.index_of(id);
            self.with_peer(i, PeerView { pressure, ..self.peers[i] })
        } else {
            self
        }
    }

    /// The record of a peer through which a message has just arrived.
    pub open spec fn carried(self, peer: PeerView, now: u64) -> PeerView {
        PeerView {
            message_count: saturate(peer.message_count + 1) as u64,
            last_seen: now,
            conductivity: thickened(
                peer.conductivity as int,
                self.local_pressure as int,
                peer.pressure as int,
            ) as u64,
            ..peer
        }
    }

    /// A message arrives through a peer.
    pub open spec fn record_message(self, peer_id: Seq<char>, msg_id: Seq<char>, now: u64)
        -> MeshView {
        let touched = if self.knows(peer_id) {
            let i = self.index_of(peer_id);
            self.with_peer(i, self.carried(self.peers[i], now))
        } else {
            self
        };
        if self.has_message(msg_id) {
            MeshView { duplicate_count: saturate(self.duplicate_count + 1) as u64, ..touched }
        } else {
            MeshView { message_cache: self.message_cache.push(msg_id), ..touched }
        }
    }

    pub open spec fn set_pressure(self, pressure: u64) -> MeshView {
        MeshView { local_pressure: pressure, ..self }
    }

    pub open spec fn tick_pulse(self, delta: u64) -> MeshView {
        MeshView { pulse_phase: advanced(self.pulse_phase as int, delta as int) as u64, ..self }
    }

    pub open spec fn align_pulse(self, neighbor_phase: u64, weight: u64) -> MeshView {
        MeshView {
            pulse_phase: aligned(
                self.pulse_phase as int,
                neighbor_phase as int,
                weight as int,
            ) as u64,
            ..self
        }
    }

    /// A backoff against `id` until `until` replaces any that stood.
    pub open spec fn block(self, id: Seq<char>, until: u64) -> MeshView {
        if self.blocked(id) {
            MeshView { backoff: self.backoff.update(self.block_index(id), (id, until)), ..self }
        } else {
            MeshView { backoff: self.backoff.push((id, until)), ..self }
        }
    }

    /// Whether a graft request of `id` is accepted: no backoff stands
    /// against it, it is known, its score reaches the graft threshold and
    /// the mesh is not full.
    pub open spec fn graft_accepted(self, id: Seq<char>) -> bool {
        &&& !self.blocked(id)
        &&& self.knows(id)
        &&& self.peer(id).score() >= self.config.graft_threshold
        &&& self.mesh_size() < self.config.d_high
    }

    /// A peer asks to join the mesh.
    pub open spec fn handle_graft(self, id: Seq<char>) -> MeshView {
        if self.graft_accepted(id) {
            let i = self.index_of(id);
            self.with_peer(i, PeerView { in_mesh: true, ..self.peers[i] })
        } else {
            self
        }
    }

    /// A peer has removed this node from its mesh.
    pub open spec fn handle_prune(self, id: Seq<char>, backoff: u64, now: u64) -> MeshView {
        let left = if self.knows(id) {
            let i = self.index_of(id);
            self.with_peer(i, PeerView { in_mesh: false, ..self.peers[i] })
        } else {
            self
        };
        left.block(id, expiry(now as int, backoff as int) as u64)
    }

    /// A spike arrives. Only danger leaves a trace: pressure goes to its
    /// ceiling and the path to the source thickens.
    pub open spec fn handle_spike(self, source: Seq<char>, intensity: u8) -> MeshView {
        if intensity > DANGER_INTENSITY {
            let alarmed = MeshView { local_pressure: PRESSURE_CEILING, ..self };
            if self.knows(source) {
                let i = self.index_of(source);
                alarmed.with_peer(
                    i,
                    PeerView {
                        conductivity: excited(self.peers[i].conductivity as int) as u64,
                        ..self.peers[i]
                    },
                )
            } else {
                alarmed
            }
        } else {
            self
        }
    }

    /// Whether a message is not in the cache.
    pub open spec fn unseen(self) -> spec_fn(Seq<char>) -> bool {
        |id: Seq<char>| !self.has_message(id)
    }

    /// Those of the announced messages that the cache lacks, in order.
    pub open spec fn missing(self, announced: Seq<Seq<char>>) -> Seq<Seq<char>> {
        announced.filter(self.unseen())
    }

    /// The answer owed to a control message, if any.
    pub open spec fn control_reply(self, id: Seq<char>, control: ControlView) -> Option<
        ControlView,
    > {
        match control {
            ControlView::Graft { .. } => if self.graft_accepted(id) {
                None
            } else {
                Some(ControlView::Prune { topic: self.topic, backoff: PRUNE_BACKOFF })
            },
            ControlView::Prune { .. } => None,
            ControlView::IHave { message_ids, .. } => if self.missing(message_ids).len() > 0 {
                Some(ControlView::IWant { message_ids: self.missing(message_ids) })
            } else {
                None
            },
            ControlView::IWant { .. } => None,
        }
    }

    /// The mesh after a control message from `id`.
    pub open spec fn handle_control(self, id: Seq<char>, control: ControlView, now: u64)
        -> MeshView {
        match control {
            ControlView::Graft { .. } => self.handle_graft(id),
            ControlView::Prune { backoff, .. } => self.handle_prune(id, backoff, now),
            ControlView::IHave { .. } => self,
            ControlView::IWant { .. } => self,
        }
    }

    /// Whether a message of this node's own is flooded to the peer.
    pub open spec fn floods_to(self) -> spec_fn(PeerView) -> bool {
        |p: PeerView| p.score() >= self.config.graft_threshold
    }

    /// Whether the peer is a member of the mesh.
    pub open spec fn member() -> spec_fn(PeerView) -> bool {
        |p: PeerView| p.in_mesh
    }

    /// The identifier of a peer.
    pub open spec fn id_of() -> spec_fn(PeerView) -> Seq<char> {
        |p: PeerView| p.id
    }

    /// To whom a message goes: a message of this node's own to every known
    /// peer whose score reaches the graft threshold, any other to the
    /// members of the mesh; in directory order.
    pub open spec fn forward_targets(self, is_own_message: bool) -> Seq<Seq<char>> {
        if is_own_message {
            self.peers.filter(self.floods_to()).map_values(Self::id_of())
        } else {
            self.peers.filter(Self::member()).map_values(Self::id_of())
        }
    }

    /// A known peer stands where its identifier is found.
    pub proof fn lemma_index_of(self, i: int)
        requires
            self.wf(),
            0 <= i < self.peers.len(),
        ensures
            self.knows(self.peers[i].id),
            self.index_of(self.peers[i].id) == i,
    {
        let id = self.peers[i].id;
        let j = self.index_of(id);
        assert(self.peers[j].id == id);
    }

    /// A blocked peer's backoff stands where its identifier is found.
    pub proof fn lemma_block_index(self, i: int)
        requires
            self.wf(),
            0 <= i < self.backoff.len(),
        ensures
            self.blocked(self.backoff[i].0),
            self.block_index(self.backoff[i].0) == i,
    {
        let id = self.backoff[i].0;
        let j = self.block_index(id);
        assert(self.backoff[j].0 == id);
    }

    /// No backoff stands against a member.
    pub proof fn lemma_members_free(self)
        requires
            self.wf(),
        ensures
            forall|id: Seq<char>| #[trigger] self.is_member(id) ==> !self.blocked(id),
    {
        assert forall|id: Seq<char>| #[trigger] self.is_member(id) implies !self.blocked(id) by {
            let i = self.index_of(id);
            assert(self.peers[i].in_mesh);
        }
    }

    /// Replacing a record by one of the same peer keeps the invariant, if
    /// the new record conducts and is no member against whom a backoff
    /// stands.
    pub proof fn lemma_with_peer_wf(self, i: int, peer: PeerView)
        requires
            self.wf(),
            0 <= i < self.peers.len(),
            peer.id == self.peers[i].id,
            peer.conducts(),
            peer.in_mesh ==> !self.blocked(peer.id),
        ensures
            self.with_peer(i, peer).wf(),
    {
        let after = self.with_peer(i, peer);
        assert forall|a: int, b: int| 0 <= a < b < after.peers.len() implies (
        #[trigger] after.peers[a]).id != (#[trigger] after.peers[b]).id by {
            assert(after.peers[a].id == self.peers[a].id);
            assert(after.peers[b].id == self.peers[b].id);
        }
        assert forall|a: int| 0 <= a < after.peers.len() implies (
        #[trigger] after.peers[a]).conducts() by {
            if a != i {
                assert(after.peers[a] == self.peers[a]);
            }
        }
        assert forall|a: int| 0 <= a < after.peers.len() && (
        #[trigger] after.peers[a]).in_mesh implies !blocked_in(after.backoff, after.peers[a].id) by {
            if a != i {
                assert(after.peers[a] == self.peers[a]);
            }
        }
    }

    /// A first record of a peer keeps the invariant.
    pub proof fn lemma_with_new_peer_wf(self, id: Seq<char>, energy_score: u64, now: u64)
        requires
            self.wf(),
            !self.knows(id),
        ensures
            self.with_new_peer(id, energy_score, now).wf(),
    {
        let after = self.with_new_peer(id, energy_score, now);
        let n = self.peers.len() as int;
        assert forall|a: int, b: int| 0 <= a < b < after.peers.len() implies (
        #[trigger] after.peers[a]).id != (#[trigger] after.peers[b]).id by {
            assert(after.peers[a] == self.peers[a]);
            if b < n {
                assert(after.peers[b] == self.peers[b]);
            }
        }
        assert forall|a: int| 0 <= a < after.peers.len() implies (
        #[trigger] after.peers[a]).conducts() by {
            if a < n {
                assert(after.peers[a] == self.peers[a]);
            }
        }
        assert forall|a: int| 0 <= a < after.peers.len() && (
        #[trigger] after.peers[a]).in_mesh implies !blocked_in(after.backoff, after.peers[a].id) by {
            if a < n {
                assert(after.peers[a] == self.peers[a]);
            }
        }
    }

    /// After a backoff against `id` is recorded, it stands against `id`
    /// and against whom it stood before, and against nobody else.
    pub proof fn lemma_block(self, id: Seq<char>, until: u64)
        requires
            self.wf(),
        ensures
            distinct_blocks(self.block(id, until).backoff),
            self.block(id, until).blocked(id),
            self.block(id, until).blocked_until(id) == until,
            forall|other: Seq<char>|
                other != id ==> (#[trigger] self.block(id, until).blocked(other)
                    == self.blocked(other)),
    {
        let after = self.block(id, until);
        let n = self.backoff.len() as int;
        if self.blocked(id) {
            let k = self.block_index(id);
            assert(after.backoff[k].0 == id);
            assert forall|a: int, b: int| 0 <= a < b < after.backoff.len() implies (
            #[trigger] after.backoff[a]).0 != (#[trigger] after.backoff[b]).0 by {
                assert(after.backoff[a].0 == self.backoff[a].0);
                assert(after.backoff[b].0 == self.backoff[b].0);
            }
            assert forall|other: Seq<char>| other != id implies (#[trigger] after.blocked(other)
                == self.blocked(other)) by {
                if self.blocked(other) {
                    let j = self.block_index(other);
                    assert(after.backoff[j].0 == other);
                }
                if after.blocked(other) {
                    let j = after.block_index(other);
                    assert(self.backoff[j].0 == other);
                }
            }
            let at = after.block_index(id);
            assert(after.backoff[at].0 == id);
            assert(after.backoff[k].0 == id);
            assert(at == k);
        } else {
            assert(after.backoff[n].0 == id);
            assert forall|a: int, b: int| 0 <= a < b < after.backoff.len() implies (
            #[trigger] after.backoff[a]).0 != (#[trigger] after.backoff[b]).0 by {
                assert(after.backoff[a] == self.backoff[a]);
                if b < n {
                    assert(after.backoff[b] == self.backoff[b]);
                }
            }
            assert forall|other: Seq<char>| other != id implies (#[trigger] after.blocked(other)
                == self.blocked(other)) by {
                if self.blocked(other) {
                    let j = self.block_index(other);
                    assert(after.backoff[j].0 == other);
                }
                if after.blocked(other) {
                    let j = after.block_index(other);
                    assert(self.backoff[j].0 == other);
                }
            }
            let at = after.block_index(id);
            assert(after.backoff[at].0 == id);
            if at < n {
                assert(self.backoff[at].0 == id);
            }
        }
    }

    /// Recording a backoff against one who is no member keeps the
    /// invariant.
    pub proof fn lemma_block_wf(self, id: Seq<char>, until: u64)
        requires
            self.wf(),
            !self.is_member(id),
        ensures
            self.block(id, until).wf(),
    {
        let after = self.block(id, until);
        self.lemma_block(id, until);
        assert forall|a: int| 0 <= a < after.peers.len() && (
        #[trigger] after.peers[a]).in_mesh implies !blocked_in(after.backoff, after.peers[a].id) by {
            self.lemma_index_of(a);
            assert(after.peers[a].id != id);
            assert(after.blocked(after.peers[a].id) == self.blocked(after.peers[a].id));
        }
    }
}

/// One more record is one more member exactly if it is in the mesh.
pub proof fn lemma_members_push(peers: Seq<PeerView>, peer: PeerView)
    ensures
        members(peers.push(peer)) == members(peers) + if peer.in_mesh {
            1nat
        } else {
            0nat
        },
{
    assert(peers.push(peer).drop_last() =~= peers);
}

/// There are no more members than records.
pub proof fn lemma_members_bound(peers: Seq<PeerView>)
    ensures
        members(peers) <= peers.len(),
    decreases peers.len(),
{
    if peers.len() > 0 {
        lemma_members_bound(peers.drop_last());
    }
}

/// Replacing a record changes the number of members by what the two records
/// differ in.
pub proof fn lemma_members_update(peers: Seq<PeerView>, i: int, peer: PeerView)
    requires
        0 <= i < peers.len(),
    ensures
        members(peers.update(i, peer)) + (if peers[i].in_mesh {
            1nat
        } else {
            0nat
        }) == members(peers) + (if peer.in_mesh {
            1nat
        } else {
            0nat
        }),
    decreases peers.len(),
{
    let after = peers.update(i, peer);
    if i == peers.len() - 1 {
        assert(after.drop_last() =~= peers.drop_last());
    } else {
        lemma_members_update(peers.drop_last(), i, peer);
        assert(after.drop_last() =~= peers.drop_last().update(i, peer));
    }
}

/// Where members are, some record is one.
pub proof fn lemma_members_witness(peers: Seq<PeerView>) -> (i: int)
    requires
        members(peers) > 0,
    ensures
        0 <= i < peers.len(),
        peers[i].in_mesh,
    decreases peers.len(),
{
    if peers.last().in_mesh {
        peers.len() - 1
    } else {
        lemma_members_witness(peers.drop_last())
    }
}

/// Where some record is no member, there are fewer members than records.
pub proof fn lemma_members_room(peers: Seq<PeerView>, i: int)
    requires
        0 <= i < peers.len(),
        !peers[i].in_mesh,
    ensures
        members(peers) < peers.len(),
    decreases peers.len(),
{
    if i == peers.len() - 1 {
        lemma_members_bound(peers.drop_last());
    } else {
        lemma_members_room(peers.drop_last(), i);
    }
}

/// A per-topic gossip mesh.
#[derive(Debug)]
pub struct TopicMesh {
    topic: String,
    config: MeshConfig,
    local_pressure: u64,
    pulse_phase: u64,
    peers: Vec<MeshPeer>,
    mesh_count: usize,
    message_cache: Vec<String>,
    duplicate_count: u64,
    backoff: Vec<(String, u64)>,
    epoch: Instant,
}

impl TopicMesh {
    /// The state of the mesh.
    pub closed spec fn view(&self) -> MeshView {
        MeshView {
            topic: self.topic@,
            config: self.config,
            local_pressure: self.local_pressure,
            pulse_phase: self.pulse_phase,
            peers: peer_views(self.peers@),
            message_cache: texts(self.message_cache@),
            duplicate_count: self.duplicate_count,
            backoff: backoff_views(self.backoff@),
        }
    }

    /// Whether the member count that the mesh keeps is right.
    pub closed spec fn counted(&self) -> bool {
        self.mesh_count == members(peer_views(self.peers@))
    }

    /// The invariant that every operation keeps.
    pub open spec fn wf(&self) -> bool {
        self@.wf() && self.counted()
    }

    /// A mesh for `topic` that knows nobody, with the given phase taken
    /// modulo one.
    pub fn with_phase(topic: String, config: MeshConfig, pulse_phase: u64) -> (mesh: TopicMesh)
        ensures
            mesh.wf(),
            mesh@ == MeshView::empty(topic@, config, (pulse_phase % UNIT) as u64),
    {
        let mesh = TopicMesh {
            topic,
            config,
            local_pressure: 0,
            pulse_phase: pulse_phase % UNIT,
            peers: Vec::new(),
            mesh_count: 0,
            message_cache: Vec::new(),
            duplicate_count: 0,
            backoff: Vec::new(),
            epoch: clock_start(),
        };
        assert(mesh@.peers =~= Seq::empty());
        assert(mesh@.message_cache =~= Seq::empty());
        assert(mesh@.backoff =~= Seq::empty());
        mesh
    }

    /// A mesh for `topic` that knows nobody, at a random phase.
    pub fn new(topic: String, config: MeshConfig) -> (mesh: TopicMesh)
        ensures
            mesh.wf(),
            mesh@ == MeshView::empty(topic@, config, mesh@.pulse_phase),
    {
        Self::with_phase(topic, config, random_word())
    }

    /// Milliseconds on the mesh's clock, which started when the mesh was
    /// made.
    pub fn now(&self) -> (now: u64) {
        clock_read(&self.epoch)
    }

    fn peer_index(&self, id: &String) -> (found: Option<usize>)
        requires
            self.wf(),
        ensures
            match found {
                Some(i) => i < self.peers.len() && self@.knows(id@) && self@.index_of(id@) == i,
                None => !self@.knows(id@),
            },
    {
        let mut i: usize = 0;
        while i < self.peers.len()
            invariant
                i <= self.peers.len(),
                self.wf(),
                forall|j: int| 0 <= j < i ==> (#[trigger] self@.peers[j]).id != id@,
            decreases self.peers.len() - i,
        {
            if self.peers[i].id == *id {
                proof {
                    assert(self@.peers[i as int].id == id@);
                    self@.lemma_index_of(i as int);
                }
                return Some(i);
            }
            assert(self@.peers[i as int].id != id@);
            i += 1;
        }
        None
    }

    fn backoff_index(&self, id: &String) -> (found: Option<usize>)
        requires
            self.wf(),
        ensures
            match found {
                Some(i) => i < self.backoff.len() && self@.blocked(id@) && self@.block_index(id@)
                    == i,
                None => !self@.blocked(id@),
            },
    {
        let mut i: usize = 0;
        while i < self.backoff.len()
            invariant
                i <= self.backoff.len(),
                self.wf(),
                forall|j: int| 0 <= j < i ==> (#[trigger] self@.backoff[j]).0 != id@,
            decreases self.backoff.len() - i,
        {
            if self.backoff[i].0 == *id {
                proof {
                    assert(self@.backoff[i as int].0 == id@);
                    self@.lemma_block_index(i as int);
                }
                return Some(i);
            }
            assert(self@.backoff[i as int].0 != id@);
            i += 1;
        }
        None
    }

    /// Update local pressure from the backlog.
    pub fn set_pressure(&mut self, pressure: u64)
        requires
            old(self).wf(),
        ensures
            final(self).wf(),
            final(self)@ == old(self)@.set_pressure(pressure),
    {
        self.local_pressure = pressure;
    }

    /// Advances the pulse by `delta`, wrapping at one.
    pub fn tick_pulse(&mut self, delta: u64)
        requires
            old(self).wf(),
        ensures
            final(self).wf(),
            final(self)@ == old(self)@.tick_pulse(delta),
    {
        self.pulse_phase = advance(self.pulse_phase, delta);
    }

    /// Draws the pulse toward a neighbour's phase along the shorter way
    /// round, by the part `weight` of that way.
    pub fn align_pulse(&mut self, neighbor_phase: u64, weight: u64)
        requires
            old(self).wf(),
        ensures
            final(self).wf(),
            final(self)@ == old(self)@.align_pulse(neighbor_phase, weight),
    {
        self.pulse_phase = align(self.pulse_phase, neighbor_phase, weight);
    }
}

impl TopicMesh {
    /// Adds a peer to the directory at the time `now`; a peer that is known
    /// already stays as it is.
    pub fn add_peer_at(&mut self, id: String, energy_score: u64, now: u64)
        requires
            old(self).wf(),
        ensures
            final(self).wf(),
            final(self)@ == old(self)@.add_peer(id@, energy_score, now),
    {
        if self.peer_index(&id).is_none() {
            self.insert_peer(id, energy_score, now);
        }
    }

    /// Adds a peer to the directory; a peer that is known already stays as
    /// it is.
    pub fn add_peer(&mut self, id: String, energy_score: u64)
        requires
            old(self).wf(),
        ensures
            final(self).wf(),
            exists|now: u64| final(self)@ == old(self)@.add_peer(id@, energy_score, now),
    {
        let now = self.now();
        self.add_peer_at(id, energy_score, now);
    }

    fn insert_peer(&mut self, id: String, energy_score: u64, now: u64)
        requires
            old(self).wf(),
            !old(self)@.knows(id@),
        ensures
            final(self).wf(),
            final(self)@ == old(self)@.with_new_peer(id@, energy_score, now),
    {
        let mut peer = MeshPeer::new(id, energy_score);
        peer.last_seen = now;
        self.peers.push(peer);
        proof {
            let before = old(self)@;
            let after = before.with_new_peer(id@, energy_score, now);
            assert(self@.peers =~= after.peers);
            before.lemma_with_new_peer_wf(id@, energy_score, now);
            lemma_members_push(before.peers, after.peers.last());
        }
    }

    /// Records the energy score that a peer advertised at the time `now`;
    /// a peer not yet known becomes known.
    pub fn update_peer_score_at(&mut self, id: &str, energy_score: u64, now: u64)
        requires
            old(self).wf(),
        ensures
            final(self).wf(),
            final(self)@ == old(self)@.update_peer_score(id@, energy_score, now),
    {
        let key = id.to_owned();
        match self.peer_index(&key) {
            Some(i) => {
                self.peers[i].energy_score = energy_score;
                self.peers[i].last_seen = now;
                proof {
                    let before = old(self)@;
                    let peer = PeerView {
                        energy_score,
                        last_seen: now,
                        ..before.peers[i as int]
                    };
                    assert(self@.peers =~= before.peers.update(i as int, peer));
                    before.lemma_with_peer_wf(i as int, peer);
                    lemma_members_update(before.peers, i as int, peer);
                }
            },
            None => {
                self.insert_peer(key, energy_score, now);
            },
        }
    }

    /// Records the energy score that a peer advertised; a peer not yet
    /// known becomes known.
    pub fn update_peer_score(&mut self, id: &str, energy_score: u64)
        requires
            old(self).wf(),
        ensures
            final(self).wf(),
            exists|now: u64| final(self)@ == old(self)@.update_peer_score(id@, energy_score, now),
    {
        let now = self.now();
        self.update_peer_score_at(id, energy_score, now);
    }

    /// Records the pressure that a known peer reported.
    pub fn update_peer_pressure(&mut self, id: &str, pressure: u64)
        requires
            old(self).wf(),
        ensures
            final(self).wf(),
            final(self)@ == old(self)@.update_peer_pressure(id@, pressure),
    {
        let key = id.to_owned();
        if let Some(i) = self.peer_index(&key) {
            self.peers[i].pressure = pressure;
            proof {
                let before = old(self)@;
                let peer = PeerView { pressure, ..before.peers[i as int] };
                assert(self@.peers =~= before.peers.update(i as int, peer));
                before.lemma_with_peer_wf(i as int, peer);
                lemma_members_update(before.peers, i as int, peer);
            }
        }
    }

    /// Records that the message `msg_id` arrived through `peer_id` at the
    /// time `now`. A known peer's message count grows by one and the path
    /// to it thickens. A message seen before counts as a duplicate; any
    /// other enters the cache.
    pub fn record_message_at(&mut self, peer_id: &str, msg_id: &str, now: u64)
        requires
            old(self).wf(),
        ensures
            final(self).wf(),
            final(self)@ == old(self)@.record_message(peer_id@, msg_id@, now),
    {
        let key = peer_id.to_owned();
        if let Some(i) = self.peer_index(&key) {
            let gradient: u64 = max_u64(
                gap_u64(self.local_pressure, self.peers[i].pressure),
                UNIT / 10,
            ) / 10;
            let conductivity: u64 = self.peers[i].conductivity;
            proof {
                assert(old(self)@.peers[i as int].conducts());
            }
            self.peers[i].conductivity = if gradient >= CONDUCTIVITY_CEILING - conductivity {
                CONDUCTIVITY_CEILING
            } else {
                conductivity + gradient
            };
            self.peers[i].message_count = add_saturating(self.peers[i].message_count, 1);
            self.peers[i].last_seen = now;
            proof {
                let before = old(self)@;
                let peer = before.carried(before.peers[i as int], now);
                assert(self@.peers =~= before.peers.update(i as int, peer));
                before.lemma_with_peer_wf(i as int, peer);
                lemma_members_update(before.peers, i as int, peer);
            }
        }
        let msg = msg_id.to_owned();
        match find_id(&self.message_cache, &msg) {
            Some(k) => {
                proof {
                    assert(texts(self.message_cache@)[k as int] == msg_id@);
                }
                self.duplicate_count = add_saturating(self.duplicate_count, 1);
            },
            None => {
                self.message_cache.push(msg);
                proof {
                    let cache = old(self)@.message_cache;
                    assert(self@.message_cache =~= cache.push(msg_id@));
                    assert forall|a: int, b: int|
                        0 <= a < cache.push(msg_id@).len() && 0 <= b < cache.push(msg_id@).len()
                            && a != b implies cache.push(msg_id@)[a] != cache.push(msg_id@)[b] by {
                        if a < cache.len() {
                            assert(cache.contains(cache[a]));
                        }
                        if b < cache.len() {
                            assert(cache.contains(cache[b]));
                        }
                    }
                }
            },
        }
    }

    /// Records that the message `msg_id` arrived through `peer_id`.
    pub fn record_message(&mut self, peer_id: &str, msg_id: &str)
        requires
            old(self).wf(),
        ensures
            final(self).wf(),
            exists|now: u64| final(self)@ == old(self)@.record_message(peer_id@, msg_id@, now),
    {
        let now = self.now();
        self.record_message_at(peer_id, msg_id, now);
    }

    /// How many members the mesh has.
    pub fn mesh_size(&self) -> (size: usize)
        requires
            self.wf(),
        ensures
            size == self@.mesh_size(),
    {
        self.mesh_count
    }

    /// Records a backoff against one who is no member.
    fn block(&mut self, id: String, until: u64)
        requires
            old(self).wf(),
            !old(self)@.is_member(id@),
        ensures
            final(self).wf(),
            final(self)@ == old(self)@.block(id@, until),
    {
        match self.backoff_index(&id) {
            Some(i) => {
                self.backoff[i].1 = until;
                proof {
                    assert(self@.backoff =~= old(self)@.backoff.update(i as int, (id@, until)));
                }
            },
            None => {
                self.backoff.push((id, until));
                proof {
                    assert(self@.backoff =~= old(self)@.backoff.push((id@, until)));
                }
            },
        }
        proof {
            old(self)@.lemma_block_wf(id@, until);
        }
    }

    /// Handles a peer's request to join the mesh, and says whether it was
    /// accepted.
    pub fn handle_graft(&mut self, peer_id: &str) -> (accepted: bool)
        requires
            old(self).wf(),
        ensures
            final(self).wf(),
            accepted == old(self)@.graft_accepted(peer_id@),
            final(self)@ == old(self)@.handle_graft(peer_id@),
    {
        let key = peer_id.to_owned();
        if self.backoff_index(&key).is_some() {
            return false;
        }
        match self.peer_index(&key) {
            Some(i) => {
                if self.peers[i].score() >= self.config.graft_threshold && self.mesh_count
                    < self.config.d_high {
                    proof {
                        let before = old(self)@;
                        let peer = PeerView { in_mesh: true, ..before.peers[i as int] };
                        before.lemma_with_peer_wf(i as int, peer);
                        lemma_members_update(before.peers, i as int, peer);
                        lemma_members_bound(before.peers.update(i as int, peer));
                    }
                    if !self.peers[i].in_mesh {
                        self.peers[i].in_mesh = true;
                        self.mesh_count = self.mesh_count + 1;
                    }
                    proof {
                        let before = old(self)@;
                        let peer = PeerView { in_mesh: true, ..before.peers[i as int] };
                        assert(self@.peers =~= before.peers.update(i as int, peer));
                    }
                    true
                } else {
                    false
                }
            },
            None => false,
        }
    }

    /// Handles a prune that arrived from `peer_id` at the time `now`: the
    /// peer leaves the mesh and may not be grafted for `backoff`
    /// milliseconds.
    pub fn handle_prune_at(&mut self, peer_id: &str, backoff: u64, now: u64)
        requires
            old(self).wf(),
        ensures
            final(self).wf(),
            final(self)@ == old(self)@.handle_prune(peer_id@, backoff, now),
    {
        let key = peer_id.to_owned();
        if let Some(i) = self.peer_index(&key) {
            proof {
                let before = old(self)@;
                let peer = PeerView { in_mesh: false, ..before.peers[i as int] };
                before.lemma_with_peer_wf(i as int, peer);
                lemma_members_update(before.peers, i as int, peer);
            }
            if self.peers[i].in_mesh {
                self.peers[i].in_mesh = false;
                self.mesh_count = self.mesh_count - 1;
            }
            proof {
                let before = old(self)@;
                let peer = PeerView { in_mesh: false, ..before.peers[i as int] };
                assert(self@.peers =~= before.peers.update(i as int, peer));
                self@.lemma_index_of(i as int);
            }
        }
        self.block(key, add_saturating(now, backoff));
    }

    /// Handles a prune that arrived from `peer_id`.
    pub fn handle_prune(&mut self, peer_id: &str, backoff: u64)
        requires
            old(self).wf(),
        ensures
            final(self).wf(),
            exists|now: u64| final(self)@ == old(self)@.handle_prune(peer_id@, backoff, now),
    {
        let now = self.now();
        self.handle_prune_at(peer_id, backoff, now);
    }

    /// Handles a spike.
    pub fn handle_spike(&mut self, source: &str, intensity: u8)
        requires
            old(self).wf(),
        ensures
            final(self).wf(),
            final(self)@ == old(self)@.handle_spike(source@, intensity),
    {
        if intensity > DANGER_INTENSITY {
            self.local_pressure = PRESSURE_CEILING;
            let key = source.to_owned();
            if let Some(i) = self.peer_index(&key) {
                let conductivity: u64 = self.peers[i].conductivity;
                proof {
                    assert(old(self)@.peers[i as int].conducts());
                }
                self.peers[i].conductivity = if conductivity >= CONDUCTIVITY_CEILING - 2 * UNIT {
                    CONDUCTIVITY_CEILING
                } else {
                    conductivity + 2 * UNIT
                };
                proof {
                    let before = old(self)@;
                    let alarmed = MeshView { local_pressure: PRESSURE_CEILING, ..before };
                    let peer = PeerView {
                        conductivity: excited(before.peers[i as int].conductivity as int) as u64,
                        ..before.peers[i as int]
                    };
                    assert(self@.peers =~= before.peers.update(i as int, peer));
                    alarmed.lemma_with_peer_wf(i as int, peer);
                    lemma_members_update(before.peers, i as int, peer);
                }
            }
        }
    }

    /// Those of the announced messages that the cache lacks.
    fn missing(&self, announced: &Vec<String>) -> (missing: Vec<String>)
        ensures
            texts(missing@) == self@.missing(texts(announced@)),
    {
        let mut missing: Vec<String> = Vec::new();
        let mut k: usize = 0;
        proof {
            reveal(Seq::filter);
            assert(texts(announced@).take(0) =~= Seq::empty());
        }
        while k < announced.len()
            invariant
                k <= announced.len(),
                texts(missing@) == texts(announced@).take(k as int).filter(self@.unseen()),
            decreases announced.len() - k,
        {
            proof {
                lemma_filter_next(texts(announced@), k as int, self@.unseen());
            }
            let ghost before = missing@;
            match find_id(&self.message_cache, &announced[k]) {
                Some(at) => {
                    proof {
                        assert(texts(self.message_cache@)[at as int] == announced@[k as int]@);
                    }
                },
                None => {
                    missing.push(announced[k].clone());
                    proof {
                        assert(texts(missing@) =~= texts(before).push(announced@[k as int]@));
                    }
                },
            }
            k += 1;
        }
        proof {
            assert(texts(announced@).take(announced.len() as int) =~= texts(announced@));
        }
        missing
    }

    /// Handles a control message that arrived from `peer_id` at the time
    /// `now`, and returns the answer owed to the peer, if any.
    pub fn handle_control_at(&mut self, peer_id: &str, control: MeshControl, now: u64) -> (reply:
        Option<MeshControl>)
        requires
            old(self).wf(),
        ensures
            final(self).wf(),
            final(self)@ == old(self)@.handle_control(peer_id@, control@, now),
            match reply {
                Some(r) => old(self)@.control_reply(peer_id@, control@) == Some(r@),
                None => old(self)@.control_reply(peer_id@, control@).is_none(),
            },
    {
        match control {
            MeshControl::Graft { .. } => {
                if self.handle_graft(peer_id) {
                    None
                } else {
                    Some(MeshControl::Prune { topic: self.topic.clone(), backoff: PRUNE_BACKOFF })
                }
            },
            MeshControl::Prune { backoff, .. } => {
                self.handle_prune_at(peer_id, backoff, now);
                None
            },
            MeshControl::IHave { message_ids, .. } => {
                let missing = self.missing(&message_ids);
                if missing.len() > 0 {
                    Some(MeshControl::IWant { message_ids: missing })
                } else {
                    None
                }
            },
            MeshControl::IWant { .. } => None,
        }
    }

    /// Handles a control message that arrived from `peer_id`, and returns
    /// the answer owed to the peer, if any.
    pub fn handle_control(&mut self, peer_id: &str, control: MeshControl) -> (reply: Option<
        MeshControl,
    >)
        requires
            old(self).wf(),
        ensures
            final(self).wf(),
            exists|now: u64| final(self)@ == old(self)@.handle_control(peer_id@, control@, now),
            match reply {
                Some(r) => old(self)@.control_reply(peer_id@, control@) == Some(r@),
                None => old(self)@.control_reply(peer_id@, control@).is_none(),
            },
    {
        let now = self.now();
        self.handle_control_at(peer_id, control, now)
    }

    /// The peers to forward a message to.
    pub fn get_forward_targets(&self, is_own_message: bool) -> (targets: Vec<String>)
        requires
            self.wf(),
        ensures
            texts(targets@) == self@.forward_targets(is_own_message),
    {
        let mut targets: Vec<String> = Vec::new();
        let mut k: usize = 0;
        let ghost keep = if is_own_message {
            self@.floods_to()
        } else {
            MeshView::member()
        };
        proof {
            reveal(Seq::filter);
            assert(self@.peers.take(0) =~= Seq::empty());
            assert(texts(targets@) =~= self@.peers.take(0).filter(keep).map_values(
                MeshView::id_of(),
            ));
        }
        while k < self.peers.len()
            invariant
                k <= self.peers.len(),
                keep == if is_own_message {
                    self@.floods_to()
                } else {
                    MeshView::member()
                },
                texts(targets@) == self@.peers.take(k as int).filter(keep).map_values(
                    MeshView::id_of(),
                ),
            decreases self.peers.len() - k,
        {
            proof {
                lemma_filter_next(self@.peers, k as int, keep);
            }
            let ghost before = targets@;
            let wanted: bool = if is_own_message {
                self.peers[k].score() >= self.config.graft_threshold
            } else {
                self.peers[k].in_mesh
            };
            if wanted {
                targets.push(self.peers[k].id.clone());
                proof {
                    assert(texts(targets@) =~= texts(before).push(self@.peers[k as int].id));
                    assert(self@.peers.take(k as int).filter(keep).push(
                        self@.peers[k as int],
                    ).map_values(MeshView::id_of()) =~= self@.peers.take(k as int).filter(
                        keep,
                    ).map_values(MeshView::id_of()).push(self@.peers[k as int].id));
                }
            }
            k += 1;
        }
        proof {
            assert(self@.peers.take(self.peers.len() as int) =~= self@.peers);
        }
        targets
    }
}

/// The least of the scores; the largest `u64` where there are none.
pub open spec fn least_of(scores: Seq<u64>) -> u64
    decreases scores.len(),
{
    if scores.len() == 0 {
        u64::MAX
    } else if scores.last() <= least_of(scores.drop_last()) {
        scores.last()
    } else {
        least_of(scores.drop_last())
    }
}

/// The greatest of the scores; zero where there are none.
pub open spec fn greatest_of(scores: Seq<u64>) -> u64
    decreases scores.len(),
{
    if scores.len() == 0 {
        0
    } else if scores.last() >= greatest_of(scores.drop_last()) {
        scores.last()
    } else {
        greatest_of(scores.drop_last())
    }
}

/// Figures of a mesh.
#[derive(Debug, Clone, Copy)]
pub struct MeshStats {
    pub mesh_size: usize,
    pub known_peers: usize,
    /// Median score of the members; zero for an empty mesh.
    pub median_score: u64,
    /// Least score of a member; the largest `u64` for an empty mesh.
    pub min_score: u64,
    /// Greatest score of a member; zero for an empty mesh.
    pub max_score: u64,
    pub messages_cached: usize,
    pub duplicate_count: u64,
    pub backoff_count: usize,
}

impl MeshView {
    /// The figures of the mesh.
    pub open spec fn stats(self) -> MeshStats {
        MeshStats {
            mesh_size: self.mesh_size() as usize,
            known_peers: self.peers.len() as usize,
            median_score: self.median_score() as u64,
            min_score: least_of(self.mesh_scores()),
            max_score: greatest_of(self.mesh_scores()),
            messages_cached: self.message_cache.len() as usize,
            duplicate_count: self.duplicate_count,
            backoff_count: self.backoff.len() as usize,
        }
    }
}

impl TopicMesh {
    /// The topic of the mesh.
    pub fn topic(&self) -> (topic: &str)
        ensures
            topic@ == self@.topic,
    {
        self.topic.as_str()
    }

    pub fn config(&self) -> (config: MeshConfig)
        ensures
            config == self@.config,
    {
        self.config
    }

    /// Replaces the configuration; the next heartbeat brings the mesh
    /// within the new bounds.
    pub fn set_config(&mut self, config: MeshConfig)
        requires
            old(self).wf(),
        ensures
            final(self).wf(),
            final(self)@ == (MeshView { config, ..old(self)@ }),
    {
        self.config = config;
    }

    pub fn local_pressure(&self) -> (pressure: u64)
        ensures
            pressure == self@.local_pressure,
    {
        self.local_pressure
    }

    pub fn pulse_phase(&self) -> (phase: u64)
        requires
            self.wf(),
        ensures
            phase == self@.pulse_phase,
            phase < UNIT,
    {
        self.pulse_phase
    }

    pub fn duplicate_count(&self) -> (count: u64)
        ensures
            count == self@.duplicate_count,
    {
        self.duplicate_count
    }

    /// How many peers are known.
    pub fn known_count(&self) -> (count: usize)
        ensures
            count == self@.peers.len(),
    {
        self.peers.len()
    }

    /// How many messages the cache holds.
    pub fn cached_count(&self) -> (count: usize)
        ensures
            count == self@.message_cache.len(),
    {
        self.message_cache.len()
    }

    /// How many backoffs stand.
    pub fn backoff_count(&self) -> (count: usize)
        ensures
            count == self@.backoff.len(),
    {
        self.backoff.len()
    }

    /// Whether the peer is known.
    pub fn knows(&self, id: &str) -> (known: bool)
        requires
            self.wf(),
        ensures
            known == self@.knows(id@),
    {
        self.peer_index(&id.to_owned()).is_some()
    }

    /// The record of a peer, if it is known.
    pub fn peer(&self, id: &str) -> (record: Option<MeshPeer>)
        requires
            self.wf(),
        ensures
            match record {
                Some(p) => self@.knows(id@) && p@ == self@.peer(id@),
                None => !self@.knows(id@),
            },
    {
        match self.peer_index(&id.to_owned()) {
            Some(i) => Some(self.peers[i].clone()),
            None => None,
        }
    }

    /// Whether the peer is a member of the mesh.
    pub fn in_mesh(&self, id: &str) -> (member: bool)
        requires
            self.wf(),
        ensures
            member == self@.is_member(id@),
    {
        match self.peer_index(&id.to_owned()) {
            Some(i) => self.peers[i].in_mesh,
            None => false,
        }
    }

    /// Whether a backoff stands against the peer.
    pub fn in_backoff(&self, id: &str) -> (blocked: bool)
        requires
            self.wf(),
        ensures
            blocked == self@.blocked(id@),
    {
        self.backoff_index(&id.to_owned()).is_some()
    }

    /// When the backoff against the peer ends, if one stands.
    pub fn backoff_until(&self, id: &str) -> (until: Option<u64>)
        requires
            self.wf(),
        ensures
            match until {
                Some(t) => self@.blocked(id@) && t == self@.blocked_until(id@),
                None => !self@.blocked(id@),
            },
    {
        match self.backoff_index(&id.to_owned()) {
            Some(i) => Some(self.backoff[i].1),
            None => None,
        }
    }

    /// Whether the message is in the cache.
    pub fn has_message(&self, id: &str) -> (seen: bool)
        ensures
            seen == self@.has_message(id@),
    {
        let key = id.to_owned();
        match find_id(&self.message_cache, &key) {
            Some(k) => {
                proof {
                    assert(texts(self.message_cache@)[k as int] == id@);
                }
                true
            },
            None => false,
        }
    }

    /// The scores of the members, in directory order.
    pub fn mesh_scores(&self) -> (scores: Vec<u64>)
        requires
            self.wf(),
        ensures
            scores@ == self@.mesh_scores(),
    {
        let mut scores: Vec<u64> = Vec::new();
        let mut k: usize = 0;
        proof {
            reveal(Seq::filter);
            assert(self@.peers.take(0) =~= Seq::empty());
            assert(scores@ =~= self@.peers.take(0).filter(MeshView::member()).map_values(
                MeshView::score_of(),
            ));
        }
        while k < self.peers.len()
            invariant
                k <= self.peers.len(),
                scores@ == self@.peers.take(k as int).filter(MeshView::member()).map_values(
                    MeshView::score_of(),
                ),
            decreases self.peers.len() - k,
        {
            proof {
                lemma_filter_next(self@.peers, k as int, MeshView::member());
            }
            if self.peers[k].in_mesh {
                let ghost before = scores@;
                scores.push(self.peers[k].score());
                proof {
                    assert(self@.peers.take(k as int).filter(MeshView::member()).push(
                        self@.peers[k as int],
                    ).map_values(MeshView::score_of()) =~= before.push(
                        self@.peers[k as int].score() as u64,
                    ));
                }
            }
            k += 1;
        }
        proof {
            assert(self@.peers.take(self.peers.len() as int) =~= self@.peers);
        }
        scores
    }

    /// The median score of the members; zero for an empty mesh.
    pub fn mesh_median_score(&self) -> (m: u64)
        requires
            self.wf(),
        ensures
            m == self@.median_score(),
    {
        let scores = self.mesh_scores();
        median_of(&scores)
    }

    /// The figures of the mesh.
    pub fn stats(&self) -> (stats: MeshStats)
        requires
            self.wf(),
        ensures
            stats == self@.stats(),
    {
        let scores = self.mesh_scores();
        let mut min_score: u64 = u64::MAX;
        let mut max_score: u64 = 0;
        let mut k: usize = 0;
        proof {
            assert(scores@.take(0) =~= Seq::empty());
        }
        while k < scores.len()
            invariant
                k <= scores.len(),
                min_score == least_of(scores@.take(k as int)),
                max_score == greatest_of(scores@.take(k as int)),
            decreases scores.len() - k,
        {
            proof {
                assert(scores@.take(k + 1).drop_last() =~= scores@.take(k as int));
            }
            if scores[k] <= min_score {
                min_score = scores[k];
            }
            if scores[k] >= max_score {
                max_score = scores[k];
            }
            k += 1;
        }
        proof {
            assert(scores@.take(scores.len() as int) =~= scores@);
        }
        MeshStats {
            mesh_size: self.mesh_count,
            known_peers: self.peers.len(),
            median_score: median_of(&scores),
            min_score,
            max_score,
            messages_cached: self.message_cache.len(),
            duplicate_count: self.duplicate_count,
            backoff_count: self.backoff.len(),
        }
    }
}

} // verus!
