//! Laws of the mesh: what holds of every mesh that keeps its invariant.

use vstd::prelude::*;
use crate::mesh::invariants::lemma_maintain;
use crate::mesh::{expiry, MeshView};
use crate::pulse::{circular_distance, lemma_alignment_never_parts};
use crate::units::UNIT;
use crate::peer::PeerView;
use crate::units::saturate;

verus! {

/// The mesh after the message `msg_id` has arrived through `peer_id` once
/// at each of the given times.
pub open spec fn record_repeatedly(
    mesh: MeshView,
    peer_id: Seq<char>,
    msg_id: Seq<char>,
    times: Seq<u64>,
) -> MeshView
    decreases times.len(),
{
    if times.len() == 0 {
        mesh
    } else {
        record_repeatedly(mesh, peer_id, msg_id, times.drop_last()).record_message(
            peer_id,
            msg_id,
            times.last(),
        )
    }
}

/// Every member of a mesh is known and marked as a member, and no backoff
/// stands against it.
pub proof fn law_members_are_known_and_free(mesh: MeshView, id: Seq<char>)
    requires
        mesh.wf(),
        mesh.mesh_peers().contains(id),
    ensures
        mesh.knows(id),
        mesh.peer(id).in_mesh,
        !mesh.blocked(id),
{
    mesh.lemma_members_free();
}

/// A heartbeat keeps the invariant of the mesh, so that every member is
/// known and free of backoff, and it leaves the configuration as it was.
/// Where `d_low` is no greater than `d_high`, the mesh has `d_high` members
/// at most afterwards.
pub proof fn law_heartbeat_keeps_the_mesh_in_bounds(
    mesh: MeshView,
    now: u64,
    chosen: Seq<Seq<char>>,
)
    requires
        mesh.wf(),
    ensures
        mesh.heartbeat(now, chosen).mesh.wf(),
        mesh.heartbeat(now, chosen).mesh.config == mesh.config,
        mesh.config.d_low <= mesh.config.d_high ==> mesh.heartbeat(now, chosen).mesh.mesh_size()
            <= mesh.config.d_high,
        forall|id: Seq<char>| #[trigger]
            mesh.heartbeat(now, chosen).mesh.mesh_peers().contains(id) ==> mesh.heartbeat(
                now,
                chosen,
            ).mesh.knows(id) && mesh.heartbeat(now, chosen).mesh.peer(id).in_mesh
                && !mesh.heartbeat(now, chosen).mesh.blocked(id),
{
    lemma_maintain(mesh, now);
    mesh.heartbeat(now, chosen).mesh.lemma_members_free();
}

/// Drawing the pulse of a mesh toward a neighbour's phase by a weight of at
/// most one never parts the two phases: their distance on the circle does
/// not grow.
pub proof fn law_alignment_never_parts(mesh: MeshView, neighbor_phase: u64, weight: u64)
    requires
        mesh.wf(),
        neighbor_phase < UNIT,
        weight <= UNIT,
    ensures
        mesh.align_pulse(neighbor_phase, weight).wf(),
        circular_distance(
            mesh.align_pulse(neighbor_phase, weight).pulse_phase as int,
            neighbor_phase as int,
        ) <= circular_distance(mesh.pulse_phase as int, neighbor_phase as int),
{
    lemma_alignment_never_parts(mesh.pulse_phase as int, neighbor_phase as int, weight as int);
}

/// Recording a message keeps the invariant of the mesh and leaves the
/// message in the cache; the duplicate count grows by one exactly if the
/// message was there before; a known peer stays known, with one message
/// more to its name.
pub proof fn law_record_message(mesh: MeshView, peer_id: Seq<char>, msg_id: Seq<char>, now: u64)
    requires
        mesh.wf(),
    ensures
        mesh.record_message(peer_id, msg_id, now).wf(),
        mesh.record_message(peer_id, msg_id, now).has_message(msg_id),
        mesh.record_message(peer_id, msg_id, now).duplicate_count == if mesh.has_message(msg_id) {
            saturate(mesh.duplicate_count + 1) as u64
        } else {
            mesh.duplicate_count
        },
        mesh.knows(peer_id) ==> mesh.record_message(peer_id, msg_id, now).knows(peer_id)
            && mesh.record_message(peer_id, msg_id, now).peer(peer_id).message_count == saturate(
            mesh.peer(peer_id).message_count + 1,
        ),
{
    let after = mesh.record_message(peer_id, msg_id, now);
    let touched = if mesh.knows(peer_id) {
        mesh.with_peer(
            mesh.index_of(peer_id),
            mesh.carried(mesh.peers[mesh.index_of(peer_id)], now),
        )
    } else {
        mesh
    };
    if mesh.knows(peer_id) {
        let i = mesh.index_of(peer_id);
        let peer = mesh.carried(mesh.peers[i], now);
        assert(mesh.peers[i].conducts());
        mesh.lemma_with_peer_wf(i, peer);
        assert(touched.peers[i].id == peer_id);
        touched.lemma_index_of(i);
    }
    assert(touched.wf());
    if mesh.has_message(msg_id) {
    } else {
        let cache = mesh.message_cache;
        let grown = cache.push(msg_id);
        assert(grown[cache.len() as int] == msg_id);
        assert forall|a: int, b: int| 0 <= a < grown.len() && 0 <= b < grown.len() && a
            != b implies grown[a] != grown[b] by {
            if a < cache.len() {
                assert(cache.contains(cache[a]));
            }
            if b < cache.len() {
                assert(cache.contains(cache[b]));
            }
        }
    }
}

/// A message recorded any number of times, and at least once, stands in
/// the cache exactly once, and each time but the first it counts as a
/// duplicate; if the cache held it before, the first time counts as well.
/// The peer through which it came, if known, has as many messages more to
/// its name.
pub proof fn law_replays_are_duplicates(
    mesh: MeshView,
    peer_id: Seq<char>,
    msg_id: Seq<char>,
    times: Seq<u64>,
)
    requires
        mesh.wf(),
        times.len() >= 1,
    ensures
        record_repeatedly(mesh, peer_id, msg_id, times).wf(),
        record_repeatedly(mesh, peer_id, msg_id, times).message_cache.to_multiset().count(msg_id)
            == 1,
        record_repeatedly(mesh, peer_id, msg_id, times).duplicate_count == saturate(
            mesh.duplicate_count + times.len() - if mesh.has_message(msg_id) {
                0int
            } else {
                1int
            },
        ),
        mesh.knows(peer_id) ==> record_repeatedly(mesh, peer_id, msg_id, times).knows(peer_id)
            && record_repeatedly(mesh, peer_id, msg_id, times).peer(peer_id).message_count
            == saturate(mesh.peer(peer_id).message_count + times.len()),
    decreases times.len(),
{
    let earlier = record_repeatedly(mesh, peer_id, msg_id, times.drop_last());
    let after = record_repeatedly(mesh, peer_id, msg_id, times);
    if times.len() == 1 {
        assert(times.drop_last().len() == 0);
        assert(earlier == mesh);
    } else {
        law_replays_are_duplicates(mesh, peer_id, msg_id, times.drop_last());
        earlier.message_cache.to_multiset_ensures();
    }
    law_record_message(earlier, peer_id, msg_id, times.last());
    after.message_cache.lemma_multiset_has_no_duplicates();
    after.message_cache.to_multiset_ensures();
}

/// A message that the cache did not hold, recorded `N` times in a row,
/// raises the duplicate count by `N - 1`, as long as the count stays within
/// a `u64`.
pub proof fn law_replays_below_the_limit(
    mesh: MeshView,
    peer_id: Seq<char>,
    msg_id: Seq<char>,
    times: Seq<u64>,
)
    requires
        mesh.wf(),
        mesh.knows(peer_id),
        !mesh.has_message(msg_id),
        times.len() >= 1,
        mesh.duplicate_count + times.len() - 1 <= u64::MAX,
    ensures
        record_repeatedly(mesh, peer_id, msg_id, times).duplicate_count == mesh.duplicate_count
            + times.len() - 1,
        record_repeatedly(mesh, peer_id, msg_id, times).message_cache.to_multiset().count(msg_id)
            == 1,
{
    law_replays_are_duplicates(mesh, peer_id, msg_id, times);
}

/// After a prune from a peer, the peer is no member, a backoff stands
/// against it until the time the prune asked for, and a graft request of
/// the peer is refused and changes nothing.
pub proof fn law_prune_blocks_graft(mesh: MeshView, id: Seq<char>, backoff: u64, now: u64)
    requires
        mesh.wf(),
    ensures
        mesh.handle_prune(id, backoff, now).wf(),
        !mesh.handle_prune(id, backoff, now).mesh_peers().contains(id),
        mesh.handle_prune(id, backoff, now).blocked(id),
        mesh.handle_prune(id, backoff, now).blocked_until(id) == expiry(now as int, backoff as int),
        !mesh.handle_prune(id, backoff, now).graft_accepted(id),
        mesh.handle_prune(id, backoff, now).handle_graft(id) == mesh.handle_prune(
            id,
            backoff,
            now,
        ),
{
    let until = expiry(now as int, backoff as int) as u64;
    let left = if mesh.knows(id) {
        mesh.with_peer(
            mesh.index_of(id),
            PeerView { in_mesh: false, ..mesh.peers[mesh.index_of(id)] },
        )
    } else {
        mesh
    };
    if mesh.knows(id) {
        let i = mesh.index_of(id);
        mesh.lemma_with_peer_wf(i, PeerView { in_mesh: false, ..mesh.peers[i] });
        assert(left.peers[i].id == id);
        left.lemma_index_of(i);
    } else {
        assert(!left.knows(id));
    }
    assert(!left.is_member(id));
    left.lemma_block_wf(id, until);
    left.lemma_block(id, until);
    let after = left.block(id, until);
    assert(after.peers == left.peers);
    assert(after.is_member(id) == left.is_member(id));
}

/// The backoff that a prune has set lasts until it expires: a sweep at a
/// time before its end leaves it standing, and the peer's graft requests
/// refused.
pub proof fn law_backoff_lasts(mesh: MeshView, id: Seq<char>, backoff: u64, now: u64, later: u64)
    requires
        mesh.wf(),
        later < expiry(now as int, backoff as int),
    ensures
        mesh.handle_prune(id, backoff, now).swept(later).blocked(id),
        !mesh.handle_prune(id, backoff, now).swept(later).graft_accepted(id),
{
    law_prune_blocks_graft(mesh, id, backoff, now);
    let after = mesh.handle_prune(id, backoff, now);
    let k = after.block_index(id);
    assert(after.backoff[k].0 == id);
    assert(MeshView::pending(later)(after.backoff[k]));
    after.backoff.lemma_filter_contains(MeshView::pending(later), k);
    let swept = after.swept(later);
    let at = choose|at: int| 0 <= at < swept.backoff.len() && swept.backoff[at] == after.backoff[k];
    assert(swept.backoff[at].0 == id);
}

} // verus!
