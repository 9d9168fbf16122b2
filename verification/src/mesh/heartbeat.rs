//! The heartbeat: the maintenance cycle of a mesh.
//!
//! A heartbeat lets conductivity decay, sweeps expired backoffs, prunes
//! members that score too low or are too many, grafts where members are too
//! few or too weak, replaces the weakest link by a clearly better peer and
//! announces recent messages to peers outside the mesh. [`Round`] is what a
//! heartbeat has done so far; the steps are functions from round to round.

use vstd::prelude::*;
use vstd::pervasive::unreached;
use crate::control::{ControlView, MeshControl, PRUNE_BACKOFF, REPLACE_BACKOFF};
use crate::ids::{clone_ids, lemma_filter_next, texts};
use crate::mesh::{
    backoff_views,
    blocked_in,
    expiry,
    lemma_members_bound,
    lemma_members_room,
    lemma_members_update,
    lemma_members_witness,
    MeshView,
    TopicMesh,
};
use crate::peer::{PeerView, CONDUCTIVITY_FLOOR};
use crate::platform::{choose_ids, sampled_from};
use crate::sorting::median;
use crate::units::{add_saturating, max_of, max_u64};

verus! {

/// The views of a list of addressed control messages.
pub open spec fn control_views(out: Seq<(String, MeshControl)>) -> Seq<(Seq<char>, ControlView)> {
    out.map_values(|e: (String, MeshControl)| (e.0@, e.1@))
}

/// Conductivity after one heartbeat without traffic: nineteen twentieths
/// of it, rounded down, but not less than the floor.
pub open spec fn faded(conductivity: int) -> int {
    max_of(conductivity * 95 / 100, CONDUCTIVITY_FLOOR as int)
}

/// How much better than the weakest member a peer must score to replace
/// it.
pub const REPLACE_MARGIN: u64 = 100_000;

/// How many recent messages an announcement names at most.
pub const ANNOUNCE_WINDOW: usize = 10;

/// What a heartbeat has done so far: the mesh as it stands, and the control
/// messages owed, each with the peer it goes to.
pub struct Round {
    pub mesh: MeshView,
    pub out: Seq<(Seq<char>, ControlView)>,
}

impl MeshView {
    pub open spec fn fade() -> spec_fn(PeerView) -> PeerView {
        |p: PeerView| PeerView { conductivity: faded(p.conductivity as int) as u64, ..p }
    }

    /// Every path thins.
    pub open spec fn decayed(self) -> MeshView {
        MeshView { peers: self.peers.map_values(Self::fade()), ..self }
    }

    pub open spec fn pending(now: u64) -> spec_fn((Seq<char>, u64)) -> bool {
        |e: (Seq<char>, u64)| e.1 > now
    }

    /// The backoffs that have expired by `now` are gone.
    pub open spec fn swept(self, now: u64) -> MeshView {
        MeshView { backoff: self.backoff.filter(Self::pending(now)), ..self }
    }

    /// Whether the record at `i` is that of a member scoring below the
    /// prune threshold.
    pub open spec fn is_weak(self, i: int) -> bool {
        self.peers[i].in_mesh && self.peers[i].score() < self.config.prune_threshold
    }

    /// Whether the record at `i` is that of the weakest member: the first
    /// in the directory among those of least score.
    pub open spec fn is_weakest(self, i: int) -> bool {
        &&& 0 <= i < self.peers.len()
        &&& self.peers[i].in_mesh
        &&& forall|j: int|
            0 <= j < self.peers.len() && (#[trigger] self.peers[j]).in_mesh ==> self.peers[i].score()
                < self.peers[j].score() || (self.peers[i].score() == self.peers[j].score() && i
                <= j)
    }

    /// Where the weakest member stands, if the mesh has members.
    pub open spec fn weakest(self) -> Option<int> {
        if exists|i: int| self.is_weakest(i) {
            Some(choose|i: int| self.is_weakest(i))
        } else {
            None
        }
    }

    /// Whether the record at `i` is that of a peer that may be grafted:
    /// outside the mesh, free of backoff, scoring at least `bound`.
    pub open spec fn is_candidate(self, i: int, bound: int) -> bool {
        &&& 0 <= i < self.peers.len()
        &&& !self.peers[i].in_mesh
        &&& !self.blocked(self.peers[i].id)
        &&& self.peers[i].score() >= bound
    }

    /// Whether the record at `i` is that of the best candidate: the first
    /// in the directory among those of greatest score.
    pub open spec fn is_best(self, i: int, bound: int) -> bool {
        &&& self.is_candidate(i, bound)
        &&& forall|j: int| #[trigger]
            self.is_candidate(j, bound) ==> self.peers[j].score() < self.peers[i].score() || (
            self.peers[j].score() == self.peers[i].score() && i <= j)
    }

    /// Where the best candidate scoring at least `bound` stands, if there
    /// is a candidate.
    pub open spec fn best_candidate(self, bound: int) -> Option<int> {
        if exists|i: int| self.is_best(i, bound) {
            Some(choose|i: int| self.is_best(i, bound))
        } else {
            None
        }
    }

    pub open spec fn score_of() -> spec_fn(PeerView) -> u64 {
        |p: PeerView| p.score() as u64
    }

    /// The scores of the members, in directory order.
    pub open spec fn mesh_scores(self) -> Seq<u64> {
        self.peers.filter(Self::member()).map_values(Self::score_of())
    }

    /// The median score of the members; zero for an empty mesh.
    pub open spec fn median_score(self) -> int {
        median(self.mesh_scores())
    }

    pub open spec fn outsider() -> spec_fn(PeerView) -> bool {
        |p: PeerView| !p.in_mesh
    }

    /// The known peers outside the mesh, in directory order.
    pub open spec fn outsiders(self) -> Seq<Seq<char>> {
        self.peers.filter(Self::outsider()).map_values(Self::id_of())
    }

    /// The identifiers of the messages seen last, oldest first.
    pub open spec fn recent_messages(self) -> Seq<Seq<char>> {
        let n = self.message_cache.len() as int;
        self.message_cache.subrange(
            if n > ANNOUNCE_WINDOW {
                n - ANNOUNCE_WINDOW
            } else {
                0
            },
            n,
        )
    }

    /// Whether an announcement may go to `id`: a known peer outside the
    /// mesh.
    pub open spec fn is_lazy_target(self, id: Seq<char>) -> bool {
        self.knows(id) && !self.peer(id).in_mesh
    }

    /// The first `room` of the chosen peers to which an announcement may
    /// go, in the order chosen.
    pub open spec fn lazy_targets(self, chosen: Seq<Seq<char>>, room: nat) -> Seq<Seq<char>>
        decreases chosen.len(),
    {
        if chosen.len() == 0 || room == 0 {
            Seq::empty()
        } else if self.is_lazy_target(chosen[0]) {
            seq![chosen[0]] + self.lazy_targets(chosen.drop_first(), (room - 1) as nat)
        } else {
            self.lazy_targets(chosen.drop_first(), room)
        }
    }

    /// The announcement that goes to a peer.
    pub open spec fn announcement(self) -> spec_fn(Seq<char>) -> (Seq<char>, ControlView) {
        |id: Seq<char>|
            (id, ControlView::IHave { topic: self.topic, message_ids: self.recent_messages() })
    }

    /// The maintenance of the mesh at the time `now`: all of a heartbeat
    /// but the announcements.
    pub open spec fn maintain(self, now: u64) -> Round {
        let n = self.peers.len();
        Round::start(self.decayed().swept(now)).prune_weak(now).prune_overflow(
            now,
            n,
        ).graft_underflow(n).graft_opportunely().replace_weak_link(now)
    }

    /// The heartbeat at the time `now` that announces to the first
    /// `d_lazy` peers outside the mesh among `chosen`.
    pub open spec fn heartbeat(self, now: u64, chosen: Seq<Seq<char>>) -> Round {
        self.maintain(now).announce(chosen)
    }

    /// There is one weakest member at most.
    pub proof fn lemma_weakest(self, i: int)
        requires
            self.is_weakest(i),
        ensures
            self.weakest() == Some(i),
    {
        let w = choose|w: int| self.is_weakest(w);
        assert(self.peers[w].in_mesh && self.peers[i].in_mesh);
    }

    /// There is one best candidate at most.
    pub proof fn lemma_best(self, i: int, bound: int)
        requires
            self.is_best(i, bound),
        ensures
            self.best_candidate(bound) == Some(i),
    {
        let b = choose|b: int| self.is_best(b, bound);
        assert(self.is_candidate(b, bound) && self.is_candidate(i, bound));
    }
}

impl Round {
    /// The round that has done nothing yet.
    pub open spec fn start(mesh: MeshView) -> Round {
        Round { mesh, out: Seq::empty() }
    }

    /// The member at `i` is pruned: it leaves the mesh, a backoff of
    /// `backoff` milliseconds stands against it, and it is told so.
    pub open spec fn prune(self, i: int, backoff: u64, now: u64) -> Round {
        let peer = self.mesh.peers[i];
        Round {
            mesh: self.mesh.with_peer(i, PeerView { in_mesh: false, ..peer }).block(
                peer.id,
                expiry(now as int, backoff as int) as u64,
            ),
            out: self.out.push(
                (peer.id, ControlView::Prune { topic: self.mesh.topic, backoff }),
            ),
        }
    }

    /// The peer at `i` is grafted: it joins the mesh and is told so.
    pub open spec fn graft(self, i: int) -> Round {
        let peer = self.mesh.peers[i];
        Round {
            mesh: self.mesh.with_peer(i, PeerView { in_mesh: true, ..peer }),
            out: self.out.push((peer.id, ControlView::Graft { topic: self.mesh.topic })),
        }
    }

    /// Among the first `k` records, the members that score below the prune
    /// threshold are pruned.
    pub open spec fn prune_weak_upto(self, k: int, now: u64) -> Round
        decreases k,
    {
        if k <= 0 {
            self
        } else {
            let before = self.prune_weak_upto(k - 1, now);
            if before.mesh.is_weak(k - 1) {
                before.prune(k - 1, PRUNE_BACKOFF, now)
            } else {
                before
            }
        }
    }

    /// Every member that scores below the prune threshold is pruned.
    pub open spec fn prune_weak(self, now: u64) -> Round {
        self.prune_weak_upto(self.mesh.peers.len() as int, now)
    }

    /// While the mesh has more than `d_high` members, the weakest is
    /// pruned, in `rounds` prunings at most.
    pub open spec fn prune_overflow(self, now: u64, rounds: nat) -> Round
        decreases rounds,
    {
        if rounds == 0 || self.mesh.mesh_size() <= self.mesh.config.d_high {
            self
        } else {
            match self.mesh.weakest() {
                Some(w) => self.prune(w, PRUNE_BACKOFF, now).prune_overflow(
                    now,
                    (rounds - 1) as nat,
                ),
                None => self,
            }
        }
    }

    /// The best candidate scoring at least `bound` is grafted, if there is
    /// one.
    pub open spec fn graft_best(self, bound: int) -> Round {
        match self.mesh.best_candidate(bound) {
            Some(b) => self.graft(b),
            None => self,
        }
    }

    /// While the mesh has fewer than `d_low` members and a candidate
    /// reaches the graft threshold, the best is grafted, in `rounds`
    /// graftings at most.
    pub open spec fn graft_underflow(self, rounds: nat) -> Round
        decreases rounds,
    {
        if rounds == 0 || self.mesh.mesh_size() >= self.mesh.config.d_low {
            self
        } else {
            match self.mesh.best_candidate(self.mesh.config.graft_threshold as int) {
                Some(b) => self.graft(b).graft_underflow((rounds - 1) as nat),
                None => self,
            }
        }
    }

    /// Where the median score of the members lies below the opportunistic
    /// threshold, the two best candidates that score above the median are
    /// grafted, as far as `d_high` allows.
    pub open spec fn graft_opportunely(self) -> Round {
        let m = self.mesh.median_score();
        if m < self.mesh.config.opportunistic_graft_threshold && self.mesh.mesh_size()
            < self.mesh.config.d_high {
            let first = self.graft_best(m + 1);
            if first.mesh.mesh_size() < first.mesh.config.d_high {
                first.graft_best(m + 1)
            } else {
                first
            }
        } else {
            self
        }
    }

    /// Where the mesh has `d_low` members or more and some candidate scores
    /// more than a tenth above the weakest member, the weakest is pruned
    /// and the best candidate grafted in its place.
    pub open spec fn replace_weak_link(self, now: u64) -> Round {
        if self.mesh.mesh_size() >= self.mesh.config.d_low {
            match self.mesh.weakest() {
                Some(w) => match self.mesh.best_candidate(
                    self.mesh.peers[w].score() + REPLACE_MARGIN + 1,
                ) {
                    Some(b) => self.prune(w, REPLACE_BACKOFF, now).graft(b),
                    None => self,
                },
                None => self,
            }
        } else {
            self
        }
    }

    /// Where the cache holds a message, the recent ones are announced to
    /// the first `d_lazy` of the chosen peers that are known and outside
    /// the mesh.
    pub open spec fn announce(self, chosen: Seq<Seq<char>>) -> Round {
        if self.mesh.message_cache.len() == 0 {
            self
        } else {
            Round {
                out: self.out + self.mesh.lazy_targets(
                    chosen,
                    self.mesh.config.d_lazy as nat,
                ).map_values(self.mesh.announcement()),
                ..self
            }
        }
    }
}

impl TopicMesh {
    /// The round that stands at this mesh with these messages owed.
    pub(crate) open spec fn round(&self, out: Seq<(String, MeshControl)>) -> Round {
        Round { mesh: self@, out: control_views(out) }
    }

    fn prune_member(
        &mut self,
        i: usize,
        backoff: u64,
        now: u64,
        out: &mut Vec<(String, MeshControl)>,
    )
        requires
            old(self).wf(),
            i < old(self)@.peers.len(),
            old(self)@.peers[i as int].in_mesh,
        ensures
            final(self).wf(),
            final(self).round(final(out)@) == old(self).round(old(out)@).prune(
                i as int,
                backoff,
                now,
            ),
            final(self)@.mesh_size() + 1 == old(self)@.mesh_size(),
            final(self)@.peers.len() == old(self)@.peers.len(),
            final(self)@.config == old(self)@.config,
    {
        proof {
            let before = old(self)@;
            let peer = PeerView { in_mesh: false, ..before.peers[i as int] };
            before.lemma_with_peer_wf(i as int, peer);
            lemma_members_update(before.peers, i as int, peer);
        }
        self.peers[i].in_mesh = false;
        self.mesh_count = self.mesh_count - 1;
        let id = self.peers[i].id.clone();
        let ghost owed = out@;
        out.push((id.clone(), MeshControl::Prune { topic: self.topic.clone(), backoff }));
        proof {
            let before = old(self)@;
            let peer = PeerView { in_mesh: false, ..before.peers[i as int] };
            assert(self@.peers =~= before.peers.update(i as int, peer));
            self@.lemma_index_of(i as int);
            assert(control_views(out@) =~= control_views(owed).push(
                (before.peers[i as int].id, ControlView::Prune { topic: before.topic, backoff }),
            ));
        }
        self.block(id, add_saturating(now, backoff));
    }

    fn graft_peer(&mut self, i: usize, out: &mut Vec<(String, MeshControl)>)
        requires
            old(self).wf(),
            i < old(self)@.peers.len(),
            !old(self)@.peers[i as int].in_mesh,
            !old(self)@.blocked(old(self)@.peers[i as int].id),
        ensures
            final(self).wf(),
            final(self).round(final(out)@) == old(self).round(old(out)@).graft(i as int),
            final(self)@.mesh_size() == old(self)@.mesh_size() + 1,
            final(self)@.peers.len() == old(self)@.peers.len(),
            final(self)@.config == old(self)@.config,
    {
        proof {
            let before = old(self)@;
            let peer = PeerView { in_mesh: true, ..before.peers[i as int] };
            before.lemma_with_peer_wf(i as int, peer);
            lemma_members_update(before.peers, i as int, peer);
            lemma_members_bound(before.peers.update(i as int, peer));
            assert(before.peers.update(i as int, peer).len() == self.peers.len());
        }
        self.peers[i].in_mesh = true;
        self.mesh_count = self.mesh_count + 1;
        let ghost owed = out@;
        out.push((self.peers[i].id.clone(), MeshControl::Graft { topic: self.topic.clone() }));
        proof {
            let before = old(self)@;
            let peer = PeerView { in_mesh: true, ..before.peers[i as int] };
            assert(self@.peers =~= before.peers.update(i as int, peer));
            assert(control_views(out@) =~= control_views(owed).push(
                (before.peers[i as int].id, ControlView::Graft { topic: before.topic }),
            ));
        }
    }

    fn decay(&mut self)
        requires
            old(self).wf(),
        ensures
            final(self).wf(),
            final(self)@ == old(self)@.decayed(),
    {
        let mut i: usize = 0;
        while i < self.peers.len()
            invariant
                i <= self.peers.len(),
                self.wf(),
                self@ == (MeshView { peers: self@.peers, ..old(self)@ }),
                self@.peers.len() == old(self)@.peers.len(),
                forall|j: int|
                    0 <= j < i ==> #[trigger] self@.peers[j] == MeshView::fade()(
                        old(self)@.peers[j],
                    ),
                forall|j: int|
                    i <= j < self@.peers.len() ==> #[trigger] self@.peers[j] == old(self)@.peers[j],
            decreases self.peers.len() - i,
        {
            let ghost before = self@;
            proof {
                assert(before.peers[i as int].conducts());
            }
            let conductivity: u64 = self.peers[i].conductivity;
            self.peers[i].conductivity = max_u64(conductivity * 95 / 100, CONDUCTIVITY_FLOOR);
            proof {
                let peer = MeshView::fade()(before.peers[i as int]);
                assert(self@.peers =~= before.peers.update(i as int, peer));
                before.lemma_with_peer_wf(i as int, peer);
                lemma_members_update(before.peers, i as int, peer);
            }
            i += 1;
        }
        proof {
            assert(self@.peers =~= old(self)@.peers.map_values(MeshView::fade()));
        }
    }

    fn sweep(&mut self, now: u64)
        requires
            old(self).wf(),
        ensures
            final(self).wf(),
            final(self)@ == old(self)@.swept(now),
    {
        let mut kept: Vec<(String, u64)> = Vec::new();
        let ghost mut from: Seq<int> = Seq::empty();
        let mut k: usize = 0;
        proof {
            reveal(Seq::filter);
            assert(self@.backoff.take(0) =~= Seq::empty());
            assert(backoff_views(kept@) =~= Seq::empty());
        }
        while k < self.backoff.len()
            invariant
                k <= self.backoff.len(),
                self.wf(),
                self@ == old(self)@,
                backoff_views(kept@) == self@.backoff.take(k as int).filter(
                    MeshView::pending(now),
                ),
                from.len() == kept@.len(),
                forall|a: int|
                    0 <= a < from.len() ==> 0 <= #[trigger] from[a] < k && backoff_views(kept@)[a]
                        == self@.backoff[from[a]],
                forall|a: int, b: int|
                    0 <= a < b < from.len() ==> #[trigger] from[a] < #[trigger] from[b],
            decreases self.backoff.len() - k,
        {
            proof {
                lemma_filter_next(self@.backoff, k as int, MeshView::pending(now));
            }
            if self.backoff[k].1 > now {
                let ghost held = kept@;
                kept.push((self.backoff[k].0.clone(), self.backoff[k].1));
                proof {
                    from = from.push(k as int);
                    assert(backoff_views(kept@) =~= backoff_views(held).push(
                        self@.backoff[k as int],
                    ));
                }
            }
            k += 1;
        }
        proof {
            assert(self@.backoff.take(self.backoff.len() as int) =~= self@.backoff);
        }
        self.backoff = kept;
        proof {
            let before = old(self)@;
            let after = self@;
            assert forall|a: int, b: int| 0 <= a < b < after.backoff.len() implies (
            #[trigger] after.backoff[a]).0 != (#[trigger] after.backoff[b]).0 by {
                assert(after.backoff[a] == before.backoff[from[a]]);
                assert(after.backoff[b] == before.backoff[from[b]]);
            }
            assert forall|i: int| 0 <= i < after.peers.len() && (
            #[trigger] after.peers[i]).in_mesh implies !blocked_in(
                after.backoff,
                after.peers[i].id,
            ) by {
                if blocked_in(after.backoff, after.peers[i].id) {
                    let a = after.block_index(after.peers[i].id);
                    assert(after.backoff[a] == before.backoff[from[a]]);
                    assert(before.blocked(before.peers[i].id));
                }
            }
        }
    }

    fn prune_weak(&mut self, now: u64, out: &mut Vec<(String, MeshControl)>)
        requires
            old(self).wf(),
        ensures
            final(self).wf(),
            final(self).round(final(out)@) == old(self).round(old(out)@).prune_weak(now),
            final(self)@.peers.len() == old(self)@.peers.len(),
            final(self)@.config == old(self)@.config,
    {
        let n: usize = self.peers.len();
        let mut i: usize = 0;
        while i < n
            invariant
                i <= n,
                n == self@.peers.len(),
                n == old(self)@.peers.len(),
                self.wf(),
                self@.config == old(self)@.config,
                self.round(out@) == old(self).round(old(out)@).prune_weak_upto(i as int, now),
            decreases n - i,
        {
            if self.peers[i].in_mesh && self.peers[i].score() < self.config.prune_threshold {
                self.prune_member(i, PRUNE_BACKOFF, now, out);
            }
            i += 1;
        }
    }

    /// Where the weakest member stands.
    fn weakest_member(&self) -> (found: Option<usize>)
        requires
            self.wf(),
        ensures
            match found {
                Some(w) => w < self@.peers.len() && self@.peers[w as int].in_mesh
                    && self@.weakest() == Some(w as int),
                None => self@.weakest().is_none() && self@.mesh_size() == 0,
            },
    {
        let n: usize = self.peers.len();
        let mut found: Option<usize> = None;
        let mut least: u64 = 0;
        let mut i: usize = 0;
        while i < n
            invariant
                i <= n,
                n == self@.peers.len(),
                match found {
                    Some(w) => {
                        &&& w < i
                        &&& self@.peers[w as int].in_mesh
                        &&& least == self@.peers[w as int].score()
                        &&& forall|j: int|
                            0 <= j < i && (#[trigger] self@.peers[j]).in_mesh ==> least
                                < self@.peers[j].score() || (least == self@.peers[j].score() && w
                                <= j)
                    },
                    None => forall|j: int| 0 <= j < i ==> !(#[trigger] self@.peers[j]).in_mesh,
                },
            decreases n - i,
        {
            if self.peers[i].in_mesh {
                let score: u64 = self.peers[i].score();
                if found.is_none() || score < least {
                    found = Some(i);
                    least = score;
                }
            }
            i += 1;
        }
        proof {
            match found {
                Some(w) => {
                    assert(self@.is_weakest(w as int));
                    self@.lemma_weakest(w as int);
                },
                None => {
                    if self@.mesh_size() > 0 {
                        let j = lemma_members_witness(self@.peers);
                        assert(self@.peers[j].in_mesh);
                    }
                    assert forall|w: int| !self@.is_weakest(w) by {
                        if 0 <= w < self@.peers.len() {
                            assert(!self@.peers[w].in_mesh);
                        }
                    }
                },
            }
        }
        found
    }

    /// Where the best candidate scoring at least `bound` stands.
    fn best_candidate(&self, bound: u64) -> (found: Option<usize>)
        requires
            self.wf(),
        ensures
            match found {
                Some(b) => self@.is_candidate(b as int, bound as int) && self@.best_candidate(
                    bound as int,
                ) == Some(b as int),
                None => self@.best_candidate(bound as int).is_none(),
            },
    {
        let n: usize = self.peers.len();
        let mut found: Option<usize> = None;
        let mut most: u64 = 0;
        let mut i: usize = 0;
        while i < n
            invariant
                i <= n,
                n == self@.peers.len(),
                self.wf(),
                match found {
                    Some(b) => {
                        &&& b < i
                        &&& self@.is_candidate(b as int, bound as int)
                        &&& most == self@.peers[b as int].score()
                        &&& forall|j: int|
                            0 <= j < i && #[trigger] self@.is_candidate(j, bound as int)
                                ==> self@.peers[j].score() < most || (self@.peers[j].score()
                                == most && b <= j)
                    },
                    None => forall|j: int|
                        0 <= j < i ==> !#[trigger] self@.is_candidate(j, bound as int),
                },
            decreases n - i,
        {
            if !self.peers[i].in_mesh {
                let score: u64 = self.peers[i].score();
                if score >= bound && (found.is_none() || score > most) {
                    if self.backoff_index(&self.peers[i].id).is_none() {
                        found = Some(i);
                        most = score;
                    }
                }
            }
            i += 1;
        }
        proof {
            match found {
                Some(b) => {
                    assert(self@.is_best(b as int, bound as int));
                    self@.lemma_best(b as int, bound as int);
                },
                None => {
                    assert forall|b: int| !self@.is_best(b, bound as int) by {
                        assert(!self@.is_candidate(b, bound as int));
                    }
                },
            }
        }
        found
    }
}

impl TopicMesh {
    fn prune_overflow(
        &mut self,
        now: u64,
        out: &mut Vec<(String, MeshControl)>,
        Ghost(rounds): Ghost<nat>,
    )
        requires
            old(self).wf(),
            rounds >= old(self)@.mesh_size(),
        ensures
            final(self).wf(),
            final(self).round(final(out)@) == old(self).round(old(out)@).prune_overflow(
                now,
                rounds,
            ),
            final(self)@.mesh_size() <= old(self)@.config.d_high,
            final(self)@.peers.len() == old(self)@.peers.len(),
            final(self)@.config == old(self)@.config,
    {
        let ghost mut left: nat = rounds;
        while self.mesh_count > self.config.d_high
            invariant
                self.wf(),
                left >= self@.mesh_size(),
                self@.config == old(self)@.config,
                self@.peers.len() == old(self)@.peers.len(),
                self.round(out@).prune_overflow(now, left) == old(self).round(
                    old(out)@,
                ).prune_overflow(now, rounds),
            decreases self.mesh_count,
        {
            match self.weakest_member() {
                Some(w) => {
                    self.prune_member(w, PRUNE_BACKOFF, now, out);
                    proof {
                        left = (left - 1) as nat;
                    }
                },
                None => unreached(),
            }
        }
    }

    fn graft_underflow(&mut self, out: &mut Vec<(String, MeshControl)>, Ghost(rounds): Ghost<nat>)
        requires
            old(self).wf(),
            rounds + old(self)@.mesh_size() >= old(self)@.peers.len(),
        ensures
            final(self).wf(),
            final(self).round(final(out)@) == old(self).round(old(out)@).graft_underflow(rounds),
            final(self)@.mesh_size() <= max_of(
                old(self)@.mesh_size() as int,
                old(self)@.config.d_low as int,
            ),
            final(self)@.peers.len() == old(self)@.peers.len(),
            final(self)@.config == old(self)@.config,
    {
        let ghost mut left: nat = rounds;
        let mut open: bool = true;
        while open && self.mesh_count < self.config.d_low
            invariant
                self.wf(),
                left + self@.mesh_size() >= self@.peers.len(),
                self@.config == old(self)@.config,
                self@.peers.len() == old(self)@.peers.len(),
                self@.mesh_size() <= max_of(
                    old(self)@.mesh_size() as int,
                    old(self)@.config.d_low as int,
                ),
                !open ==> self@.best_candidate(self@.config.graft_threshold as int).is_none(),
                self.round(out@).graft_underflow(left) == old(self).round(
                    old(out)@,
                ).graft_underflow(rounds),
            decreases
                    self@.peers.len() - self@.mesh_size() + if open {
                        1int
                    } else {
                        0int
                    },
        {
            proof {
                lemma_members_bound(self@.peers);
            }
            match self.best_candidate(self.config.graft_threshold) {
                Some(b) => {
                    proof {
                        lemma_members_room(self@.peers, b as int);
                    }
                    self.graft_peer(b, out);
                    proof {
                        left = (left - 1) as nat;
                    }
                },
                None => {
                    open = false;
                },
            }
        }
    }

    fn graft_best(&mut self, bound: u64, out: &mut Vec<(String, MeshControl)>)
        requires
            old(self).wf(),
        ensures
            final(self).wf(),
            final(self).round(final(out)@) == old(self).round(old(out)@).graft_best(bound as int),
            final(self)@.mesh_size() <= old(self)@.mesh_size() + 1,
            final(self)@.peers.len() == old(self)@.peers.len(),
            final(self)@.config == old(self)@.config,
    {
        if let Some(b) = self.best_candidate(bound) {
            self.graft_peer(b, out);
        }
    }

    fn graft_opportunely(&mut self, out: &mut Vec<(String, MeshControl)>)
        requires
            old(self).wf(),
        ensures
            final(self).wf(),
            final(self).round(final(out)@) == old(self).round(old(out)@).graft_opportunely(),
            final(self)@.mesh_size() <= max_of(
                old(self)@.mesh_size() as int,
                old(self)@.config.d_high as int,
            ),
            final(self)@.peers.len() == old(self)@.peers.len(),
            final(self)@.config == old(self)@.config,
    {
        let m: u64 = self.mesh_median_score();
        if m < self.config.opportunistic_graft_threshold && self.mesh_count < self.config.d_high {
            self.graft_best(m + 1, out);
            if self.mesh_count < self.config.d_high {
                self.graft_best(m + 1, out);
            }
        }
    }

    fn replace_weak_link(&mut self, now: u64, out: &mut Vec<(String, MeshControl)>)
        requires
            old(self).wf(),
        ensures
            final(self).wf(),
            final(self).round(final(out)@) == old(self).round(old(out)@).replace_weak_link(now),
            final(self)@.mesh_size() == old(self)@.mesh_size(),
            final(self)@.peers.len() == old(self)@.peers.len(),
            final(self)@.config == old(self)@.config,
    {
        if self.mesh_count >= self.config.d_low {
            if let Some(w) = self.weakest_member() {
                let bound: u64 = self.peers[w].score() + REPLACE_MARGIN + 1;
                if let Some(b) = self.best_candidate(bound) {
                    let ghost before = self@;
                    self.prune_member(w, REPLACE_BACKOFF, now, out);
                    proof {
                        let peer = PeerView { in_mesh: false, ..before.peers[w as int] };
                        before.with_peer(w as int, peer).lemma_block(
                            before.peers[w as int].id,
                            expiry(now as int, REPLACE_BACKOFF as int) as u64,
                        );
                        before.lemma_with_peer_wf(w as int, peer);
                        assert(before.peers[b as int].id != before.peers[w as int].id);
                        assert(self@.peers[b as int] == before.peers[b as int]);
                    }
                    self.graft_peer(b, out);
                }
            }
        }
    }

    /// The identifiers of the messages seen last, oldest first.
    pub fn recent_messages(&self) -> (recent: Vec<String>)
        ensures
            texts(recent@) == self@.recent_messages(),
    {
        let n: usize = self.message_cache.len();
        let first: usize = if n > ANNOUNCE_WINDOW {
            n - ANNOUNCE_WINDOW
        } else {
            0
        };
        let mut recent: Vec<String> = Vec::new();
        let mut k: usize = first;
        while k < n
            invariant
                first <= k <= n,
                n == self.message_cache.len(),
                recent.len() == k - first,
                forall|j: int|
                    0 <= j < recent.len() ==> (#[trigger] recent@[j])@ == self.message_cache@[first
                        + j]@,
            decreases n - k,
        {
            recent.push(self.message_cache[k].clone());
            k += 1;
        }
        proof {
            assert(texts(recent@) =~= self@.recent_messages());
        }
        recent
    }

    /// The known peers outside the mesh, in directory order.
    pub fn non_mesh_peers(&self) -> (outsiders: Vec<String>)
        requires
            self.wf(),
        ensures
            texts(outsiders@) == self@.outsiders(),
    {
        let mut outsiders: Vec<String> = Vec::new();
        let mut k: usize = 0;
        proof {
            reveal(Seq::filter);
            assert(self@.peers.take(0) =~= Seq::empty());
            assert(texts(outsiders@) =~= self@.peers.take(0).filter(
                MeshView::outsider(),
            ).map_values(MeshView::id_of()));
        }
        while k < self.peers.len()
            invariant
                k <= self.peers.len(),
                texts(outsiders@) == self@.peers.take(k as int).filter(
                    MeshView::outsider(),
                ).map_values(MeshView::id_of()),
            decreases self.peers.len() - k,
        {
            proof {
                lemma_filter_next(self@.peers, k as int, MeshView::outsider());
            }
            if !self.peers[k].in_mesh {
                let ghost before = outsiders@;
                outsiders.push(self.peers[k].id.clone());
                proof {
                    assert(texts(outsiders@) =~= texts(before).push(self@.peers[k as int].id));
                    assert(self@.peers.take(k as int).filter(MeshView::outsider()).push(
                        self@.peers[k as int],
                    ).map_values(MeshView::id_of()) =~= self@.peers.take(k as int).filter(
                        MeshView::outsider(),
                    ).map_values(MeshView::id_of()).push(self@.peers[k as int].id));
                }
            }
            k += 1;
        }
        proof {
            assert(self@.peers.take(self.peers.len() as int) =~= self@.peers);
        }
        outsiders
    }

    fn announce(&self, chosen: &Vec<String>, out: &mut Vec<(String, MeshControl)>)
        requires
            self.wf(),
        ensures
            self.round(final(out)@) == self.round(old(out)@).announce(texts(chosen@)),
    {
        if self.message_cache.len() == 0 {
            return ;
        }
        let recent = self.recent_messages();
        let room: usize = self.config.d_lazy;
        let ghost owed = control_views(out@);
        let ghost all = texts(chosen@);
        let ghost mut told: Seq<Seq<char>> = Seq::empty();
        let mut sent: usize = 0;
        let mut k: usize = 0;
        proof {
            assert(all.skip(0) =~= all);
            assert(control_views(out@) =~= owed + told.map_values(self@.announcement()));
        }
        while k < chosen.len() && sent < room
            invariant
                k <= chosen.len(),
                sent <= room,
                self.wf(),
                room == self@.config.d_lazy,
                all == texts(chosen@),
                texts(recent@) == self@.recent_messages(),
                control_views(out@) == owed + told.map_values(self@.announcement()),
                told + self@.lazy_targets(all.skip(k as int), (room - sent) as nat)
                    == self@.lazy_targets(all, room as nat),
            decreases chosen.len() - k,
        {
            proof {
                assert(all.skip(k as int).drop_first() =~= all.skip(k + 1));
                assert(all.skip(k as int)[0] == chosen@[k as int]@);
            }
            let eligible: bool = match self.peer_index(&chosen[k]) {
                Some(i) => !self.peers[i].in_mesh,
                None => false,
            };
            if eligible {
                let ghost before = out@;
                out.push(
                    (
                        chosen[k].clone(),
                        MeshControl::IHave {
                            topic: self.topic.clone(),
                            message_ids: clone_ids(&recent),
                        },
                    ),
                );
                proof {
                    let id = chosen@[k as int]@;
                    let next = told.push(id);
                    assert(control_views(out@) =~= control_views(before).push(
                        self@.announcement()(id),
                    ));
                    assert(next.map_values(self@.announcement()) =~= told.map_values(
                        self@.announcement(),
                    ).push(self@.announcement()(id)));
                    assert(control_views(out@) =~= owed + next.map_values(self@.announcement()));
                    assert(next + self@.lazy_targets(
                        all.skip(k + 1),
                        (room - sent - 1) as nat,
                    ) =~= told + (seq![id] + self@.lazy_targets(
                        all.skip(k + 1),
                        (room - sent - 1) as nat,
                    )));
                    told = next;
                }
                sent += 1;
            }
            k += 1;
        }
        proof {
            assert(self@.lazy_targets(all.skip(k as int), (room - sent) as nat) =~= Seq::empty());
            assert(told + Seq::<Seq<char>>::empty() =~= told);
        }
    }

    fn maintain(&mut self, now: u64, out: &mut Vec<(String, MeshControl)>)
        requires
            old(self).wf(),
            old(out)@.len() == 0,
        ensures
            final(self).wf(),
            final(self).round(final(out)@) == old(self)@.maintain(now),
            final(self)@.config == old(self)@.config,
            old(self)@.config.d_low <= old(self)@.config.d_high ==> final(self)@.mesh_size()
                <= old(self)@.config.d_high,
    {
        let ghost n = self@.peers.len();
        self.decay();
        self.sweep(now);
        proof {
            assert(control_views(out@) =~= Seq::empty());
            assert(self@.peers.len() == n);
        }
        self.prune_weak(now, out);
        proof {
            lemma_members_bound(self@.peers);
        }
        self.prune_overflow(now, out, Ghost(n));
        proof {
            lemma_members_bound(self@.peers);
        }
        self.graft_underflow(out, Ghost(n));
        self.graft_opportunely(out);
        self.replace_weak_link(now, out);
    }

    /// The heartbeat at the time `now`. It lets conductivity decay, sweeps
    /// expired backoffs, prunes and grafts, and announces the recent
    /// messages to the first `d_lazy` of the `chosen` peers that are known
    /// and outside the mesh. It returns the control messages to send, each
    /// with the peer it goes to.
    pub fn heartbeat_at(&mut self, now: u64, chosen: &Vec<String>) -> (out: Vec<
        (String, MeshControl),
    >)
        requires
            old(self).wf(),
        ensures
            final(self).wf(),
            final(self)@ == old(self)@.heartbeat(now, texts(chosen@)).mesh,
            control_views(out@) == old(self)@.heartbeat(now, texts(chosen@)).out,
            old(self)@.config.d_low <= old(self)@.config.d_high ==> final(self)@.mesh_size()
                <= old(self)@.config.d_high,
            forall|id: Seq<char>| #[trigger]
                final(self)@.is_member(id) ==> !final(self)@.blocked(id),
    {
        let mut out: Vec<(String, MeshControl)> = Vec::new();
        self.maintain(now, &mut out);
        self.announce(chosen, &mut out);
        proof {
            self@.lemma_members_free();
        }
        out
    }

    /// The heartbeat at the present time, which announces to `d_lazy`
    /// peers outside the mesh chosen at random. It returns the control
    /// messages to send, each with the peer it goes to.
    pub fn heartbeat(&mut self) -> (out: Vec<(String, MeshControl)>)
        requires
            old(self).wf(),
        ensures
            final(self).wf(),
            exists|now: u64, chosen: Seq<Seq<char>>|
                final(self)@ == (#[trigger] old(self)@.heartbeat(now, chosen)).mesh
                    && control_views(out@) == old(self)@.heartbeat(now, chosen).out
                    && sampled_from(
                    chosen,
                    old(self)@.maintain(now).mesh.outsiders(),
                    old(self)@.config.d_lazy as int,
                ),
            old(self)@.config.d_low <= old(self)@.config.d_high ==> final(self)@.mesh_size()
                <= old(self)@.config.d_high,
            forall|id: Seq<char>| #[trigger]
                final(self)@.is_member(id) ==> !final(self)@.blocked(id),
    {
        let now = self.now();
        let mut out: Vec<(String, MeshControl)> = Vec::new();
        self.maintain(now, &mut out);
        let pool = self.non_mesh_peers();
        let chosen = choose_ids(&pool, self.config.d_lazy);
        self.announce(&chosen, &mut out);
        proof {
            assert(self@ == old(self)@.heartbeat(now, texts(chosen@)).mesh);
            self@.lemma_members_free();
        }
        out
    }
}

} // verus!
