//! Why a heartbeat keeps the invariant of a mesh and its degree bound,
//! step by step.

use vstd::prelude::*;
use crate::control::{PRUNE_BACKOFF, REPLACE_BACKOFF};
use crate::mesh::heartbeat::{Round, REPLACE_MARGIN};
use crate::mesh::{
    blocked_in,
    expiry,
    lemma_members_bound,
    lemma_members_room,
    lemma_members_update,
    lemma_members_witness,
    members,
    MeshView,
};
use crate::peer::PeerView;
use crate::units::max_of;

verus! {

/// Where each element that a filter keeps comes from: positions in the
/// sequence, ascending.
pub proof fn lemma_filter_origin<A>(s: Seq<A>, keep: spec_fn(A) -> bool) -> (from: Seq<int>)
    ensures
        from.len() == s.filter(keep).len(),
        forall|a: int|
            0 <= a < from.len() ==> 0 <= #[trigger] from[a] < s.len() && s.filter(keep)[a]
                == s[from[a]],
        forall|a: int, b: int| 0 <= a < b < from.len() ==> #[trigger] from[a] < #[trigger] from[b],
    decreases s.len(),
{
    reveal(Seq::filter);
    if s.len() == 0 {
        Seq::empty()
    } else {
        let earlier = lemma_filter_origin(s.drop_last(), keep);
        if keep(s.last()) {
            earlier.push(s.len() - 1)
        } else {
            earlier
        }
    }
}

/// Fading changes no membership.
proof fn lemma_members_fade(peers: Seq<PeerView>)
    ensures
        members(peers.map_values(MeshView::fade())) == members(peers),
    decreases peers.len(),
{
    if peers.len() > 0 {
        lemma_members_fade(peers.drop_last());
        assert(peers.map_values(MeshView::fade()).drop_last() =~= peers.drop_last().map_values(
            MeshView::fade(),
        ));
    }
}

/// The decay keeps the invariant and the members.
pub proof fn lemma_decayed(mesh: MeshView)
    requires
        mesh.wf(),
    ensures
        mesh.decayed().wf(),
        mesh.decayed().mesh_size() == mesh.mesh_size(),
        mesh.decayed().peers.len() == mesh.peers.len(),
        mesh.decayed().config == mesh.config,
{
    let after = mesh.decayed();
    lemma_members_fade(mesh.peers);
    assert forall|i: int| 0 <= i < after.peers.len() implies (
    #[trigger] after.peers[i]).conducts() by {
        assert(mesh.peers[i].conducts());
    }
    assert forall|i: int, j: int| 0 <= i < j < after.peers.len() implies (
    #[trigger] after.peers[i]).id != (#[trigger] after.peers[j]).id by {
        assert(mesh.peers[i].id != mesh.peers[j].id);
    }
    assert forall|i: int| 0 <= i < after.peers.len() && (
    #[trigger] after.peers[i]).in_mesh implies !blocked_in(after.backoff, after.peers[i].id) by {
        assert(mesh.peers[i].in_mesh);
    }
}

/// The sweep keeps the invariant and the members.
pub proof fn lemma_swept(mesh: MeshView, now: u64)
    requires
        mesh.wf(),
    ensures
        mesh.swept(now).wf(),
        mesh.swept(now).peers == mesh.peers,
        mesh.swept(now).config == mesh.config,
{
    let after = mesh.swept(now);
    let from = lemma_filter_origin(mesh.backoff, MeshView::pending(now));
    assert forall|a: int, b: int| 0 <= a < b < after.backoff.len() implies (
    #[trigger] after.backoff[a]).0 != (#[trigger] after.backoff[b]).0 by {
        assert(after.backoff[a] == mesh.backoff[from[a]]);
        assert(after.backoff[b] == mesh.backoff[from[b]]);
    }
    assert forall|i: int| 0 <= i < after.peers.len() && (
    #[trigger] after.peers[i]).in_mesh implies !blocked_in(after.backoff, after.peers[i].id) by {
        if blocked_in(after.backoff, after.peers[i].id) {
            let a = after.block_index(after.peers[i].id);
            assert(after.backoff[a] == mesh.backoff[from[a]]);
            assert(mesh.blocked(mesh.peers[i].id));
        }
    }
}

/// Pruning a member keeps the invariant and leaves one member fewer.
pub proof fn lemma_prune(round: Round, i: int, backoff: u64, now: u64)
    requires
        round.mesh.wf(),
        0 <= i < round.mesh.peers.len(),
        round.mesh.peers[i].in_mesh,
    ensures
        round.prune(i, backoff, now).mesh.wf(),
        round.prune(i, backoff, now).mesh.mesh_size() + 1 == round.mesh.mesh_size(),
        round.prune(i, backoff, now).mesh.peers.len() == round.mesh.peers.len(),
        round.prune(i, backoff, now).mesh.config == round.mesh.config,
        forall|j: int|
            0 <= j < round.mesh.peers.len() && j != i ==> #[trigger] round.prune(
                i,
                backoff,
                now,
            ).mesh.peers[j] == round.mesh.peers[j],
        forall|other: Seq<char>|
            other != round.mesh.peers[i].id ==> (#[trigger] round.prune(
                i,
                backoff,
                now,
            ).mesh.blocked(other) == round.mesh.blocked(other)),
{
    let mesh = round.mesh;
    let peer = PeerView { in_mesh: false, ..mesh.peers[i] };
    let left = mesh.with_peer(i, peer);
    let until = expiry(now as int, backoff as int) as u64;
    mesh.lemma_with_peer_wf(i, peer);
    lemma_members_update(mesh.peers, i, peer);
    left.lemma_index_of(i);
    left.lemma_block_wf(peer.id, until);
    left.lemma_block(peer.id, until);
}

/// Grafting a peer outside the mesh against which no backoff stands keeps
/// the invariant and leaves one member more.
pub proof fn lemma_graft(round: Round, i: int)
    requires
        round.mesh.wf(),
        0 <= i < round.mesh.peers.len(),
        !round.mesh.peers[i].in_mesh,
        !round.mesh.blocked(round.mesh.peers[i].id),
    ensures
        round.graft(i).mesh.wf(),
        round.graft(i).mesh.mesh_size() == round.mesh.mesh_size() + 1,
        round.graft(i).mesh.peers.len() == round.mesh.peers.len(),
        round.graft(i).mesh.config == round.mesh.config,
{
    let mesh = round.mesh;
    let peer = PeerView { in_mesh: true, ..mesh.peers[i] };
    mesh.lemma_with_peer_wf(i, peer);
    lemma_members_update(mesh.peers, i, peer);
}

/// Pruning the weak keeps the invariant.
pub proof fn lemma_prune_weak_upto(round: Round, k: int, now: u64)
    requires
        round.mesh.wf(),
        0 <= k <= round.mesh.peers.len(),
    ensures
        round.prune_weak_upto(k, now).mesh.wf(),
        round.prune_weak_upto(k, now).mesh.peers.len() == round.mesh.peers.len(),
        round.prune_weak_upto(k, now).mesh.config == round.mesh.config,
    decreases k,
{
    if k > 0 {
        lemma_prune_weak_upto(round, k - 1, now);
        let before = round.prune_weak_upto(k - 1, now);
        if before.mesh.is_weak(k - 1) {
            lemma_prune(before, k - 1, PRUNE_BACKOFF, now);
        }
    }
}

/// Among the first `k` records, if one is a member, one is the weakest.
proof fn lemma_weakest_upto(mesh: MeshView, k: int) -> (w: int)
    requires
        0 <= k <= mesh.peers.len(),
        exists|j: int| 0 <= j < k && (#[trigger] mesh.peers[j]).in_mesh,
    ensures
        0 <= w < k,
        mesh.peers[w].in_mesh,
        forall|j: int|
            0 <= j < k && (#[trigger] mesh.peers[j]).in_mesh ==> mesh.peers[w].score()
                < mesh.peers[j].score() || (mesh.peers[w].score() == mesh.peers[j].score() && w
                <= j),
    decreases k,
{
    let earlier = exists|j: int| 0 <= j < k - 1 && (#[trigger] mesh.peers[j]).in_mesh;
    if earlier {
        let w = lemma_weakest_upto(mesh, k - 1);
        if mesh.peers[k - 1].in_mesh && mesh.peers[k - 1].score() < mesh.peers[w].score() {
            k - 1
        } else {
            w
        }
    } else {
        let j = choose|j: int| 0 <= j < k && (#[trigger] mesh.peers[j]).in_mesh;
        assert(j == k - 1);
        k - 1
    }
}

/// A mesh with members has a weakest member.
pub proof fn lemma_weakest_exists(mesh: MeshView)
    requires
        mesh.mesh_size() > 0,
    ensures
        mesh.weakest() is Some,
        mesh.is_weakest(mesh.weakest().unwrap()),
{
    let j = lemma_members_witness(mesh.peers);
    assert(mesh.peers[j].in_mesh);
    let w = lemma_weakest_upto(mesh, mesh.peers.len() as int);
    assert(mesh.is_weakest(w));
}

/// Pruning the overflow keeps the invariant and brings the mesh within
/// `d_high`, given rounds enough.
pub proof fn lemma_prune_overflow(round: Round, now: u64, rounds: nat)
    requires
        round.mesh.wf(),
        rounds >= round.mesh.mesh_size(),
    ensures
        round.prune_overflow(now, rounds).mesh.wf(),
        round.prune_overflow(now, rounds).mesh.mesh_size() <= round.mesh.config.d_high,
        round.prune_overflow(now, rounds).mesh.peers.len() == round.mesh.peers.len(),
        round.prune_overflow(now, rounds).mesh.config == round.mesh.config,
    decreases rounds,
{
    if rounds == 0 || round.mesh.mesh_size() <= round.mesh.config.d_high {
    } else {
        lemma_weakest_exists(round.mesh);
        let w = round.mesh.weakest().unwrap();
        lemma_prune(round, w, PRUNE_BACKOFF, now);
        lemma_prune_overflow(round.prune(w, PRUNE_BACKOFF, now), now, (rounds - 1) as nat);
    }
}

/// The best candidate, where there is one, is a candidate.
pub proof fn lemma_best_is_candidate(mesh: MeshView, bound: int)
    requires
        mesh.best_candidate(bound) is Some,
    ensures
        mesh.is_candidate(mesh.best_candidate(bound).unwrap(), bound),
{
}

/// Grafting the best candidate keeps the invariant and adds one member at
/// most.
pub proof fn lemma_graft_best(round: Round, bound: int)
    requires
        round.mesh.wf(),
    ensures
        round.graft_best(bound).mesh.wf(),
        round.graft_best(bound).mesh.mesh_size() <= round.mesh.mesh_size() + 1,
        round.graft_best(bound).mesh.peers.len() == round.mesh.peers.len(),
        round.graft_best(bound).mesh.config == round.mesh.config,
{
    if round.mesh.best_candidate(bound) is Some {
        lemma_best_is_candidate(round.mesh, bound);
        lemma_graft(round, round.mesh.best_candidate(bound).unwrap());
    }
}

/// Grafting the underflow keeps the invariant and does not take the mesh
/// beyond `d_low`, unless it was beyond before.
pub proof fn lemma_graft_underflow(round: Round, rounds: nat)
    requires
        round.mesh.wf(),
    ensures
        round.graft_underflow(rounds).mesh.wf(),
        round.graft_underflow(rounds).mesh.mesh_size() <= max_of(
            round.mesh.mesh_size() as int,
            round.mesh.config.d_low as int,
        ),
        round.graft_underflow(rounds).mesh.peers.len() == round.mesh.peers.len(),
        round.graft_underflow(rounds).mesh.config == round.mesh.config,
    decreases rounds,
{
    let bound = round.mesh.config.graft_threshold as int;
    if rounds == 0 || round.mesh.mesh_size() >= round.mesh.config.d_low {
    } else if round.mesh.best_candidate(bound) is Some {
        let b = round.mesh.best_candidate(bound).unwrap();
        lemma_best_is_candidate(round.mesh, bound);
        lemma_graft(round, b);
        lemma_graft_underflow(round.graft(b), (rounds - 1) as nat);
    }
}

/// Opportunistic grafting keeps the invariant and does not take the mesh
/// beyond `d_high`, unless it was beyond before.
pub proof fn lemma_graft_opportunely(round: Round)
    requires
        round.mesh.wf(),
    ensures
        round.graft_opportunely().mesh.wf(),
        round.graft_opportunely().mesh.mesh_size() <= max_of(
            round.mesh.mesh_size() as int,
            round.mesh.config.d_high as int,
        ),
        round.graft_opportunely().mesh.peers.len() == round.mesh.peers.len(),
        round.graft_opportunely().mesh.config == round.mesh.config,
{
    let m = round.mesh.median_score();
    lemma_graft_best(round, m + 1);
    lemma_graft_best(round.graft_best(m + 1), m + 1);
}

/// Replacing the weakest link keeps the invariant and the number of
/// members.
pub proof fn lemma_replace_weak_link(round: Round, now: u64)
    requires
        round.mesh.wf(),
    ensures
        round.replace_weak_link(now).mesh.wf(),
        round.replace_weak_link(now).mesh.mesh_size() == round.mesh.mesh_size(),
        round.replace_weak_link(now).mesh.peers.len() == round.mesh.peers.len(),
        round.replace_weak_link(now).mesh.config == round.mesh.config,
{
    let mesh = round.mesh;
    if mesh.mesh_size() >= mesh.config.d_low && mesh.weakest() is Some {
        let w = mesh.weakest().unwrap();
        assert(mesh.is_weakest(w));
        let bound = mesh.peers[w].score() + REPLACE_MARGIN + 1;
        if mesh.best_candidate(bound) is Some {
            let b = mesh.best_candidate(bound).unwrap();
            lemma_best_is_candidate(mesh, bound);
            lemma_prune(round, w, REPLACE_BACKOFF, now);
            let pruned = round.prune(w, REPLACE_BACKOFF, now);
            assert(b != w);
            assert(mesh.peers[b].id != mesh.peers[w].id);
            assert(pruned.mesh.peers[b] == mesh.peers[b]);
            assert(pruned.mesh.blocked(mesh.peers[b].id) == mesh.blocked(mesh.peers[b].id));
            lemma_graft(pruned, b);
        }
    }
}

/// The maintenance of a mesh keeps its invariant, and brings it within
/// `d_high` where `d_low` is no greater.
pub proof fn lemma_maintain(mesh: MeshView, now: u64)
    requires
        mesh.wf(),
    ensures
        mesh.maintain(now).mesh.wf(),
        mesh.maintain(now).mesh.config == mesh.config,
        mesh.maintain(now).mesh.peers.len() == mesh.peers.len(),
        mesh.config.d_low <= mesh.config.d_high ==> mesh.maintain(now).mesh.mesh_size()
            <= mesh.config.d_high,
{
    let n = mesh.peers.len();
    lemma_decayed(mesh);
    lemma_swept(mesh.decayed(), now);
    let start = Round::start(mesh.decayed().swept(now));
    lemma_prune_weak_upto(start, n as int, now);
    let weeded = start.prune_weak(now);
    lemma_members_bound(weeded.mesh.peers);
    lemma_prune_overflow(weeded, now, n);
    let trimmed = weeded.prune_overflow(now, n);
    lemma_graft_underflow(trimmed, n);
    let filled = trimmed.graft_underflow(n);
    lemma_graft_opportunely(filled);
    lemma_replace_weak_link(filled.graft_opportunely(), now);
}

} // verus!
