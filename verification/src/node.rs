//! The node: what it bids for, how often its heart beats, what it relays,
//! and what it does on each tick and each message.
//!
//! The node decides; whoever drives it carries the decisions out. A tick or
//! a message yields a list of [`Outbound`] actions: what to publish, what to
//! store, whether to relay.

use vstd::prelude::*;
use vstd::string::StringExecFns;
use crate::agent::{has_capability, holds_capability, Bid, BidView, Capability, EnergyStatus, Task};
use crate::config::MeshConfig;
use crate::control::{ControlView, MeshControl};
use crate::mesh::heartbeat::control_views;
use crate::mesh::{MeshView, TopicMesh};
use crate::metabolism::{BatteryMetabolism, Metabolism, PowerMode};
use crate::mycelium::Spike;
use crate::sensor::VirtualSensor;
use crate::platform::{occurs_in, random_ratio, sampled_from, text_contains};
use crate::sync::{
    is_state_vector, vector_clocks, DecodedSync, SharedState, SyncMessage, SyncView,
};
use crate::ids::texts;
use crate::units::{mul_div, saturate, UNIT};

verus! {

/// With this many bids known, only nodes rich in energy bid.
pub const QUORUM: usize = 3;

/// Below this energy a node leaves a task to a quorum of others.
pub const QUORUM_ENERGY: u64 = 800_000;

/// Below this energy a node never bids.
pub const CRITICAL_ENERGY: u64 = 200_000;

/// Below this energy the heart beats slower than once a second.
pub const LOW_ENERGY: u64 = 500_000;

/// Below this energy a node is exhausted.
pub const EXHAUSTED_ENERGY: u64 = 50_000;

/// A task that reaches a node with less than this intensity goes unseen.
pub const FAINT_REACH: u64 = 100_000;

/// What a bidder expects a task to cost, in mAh.
pub const TASK_COST: u64 = 50_000_000;

/// Above this phase the pulse is at its peak.
pub const PULSE_PEAK: u64 = 800_000;

/// Pulse advance per tick unless the driver says otherwise.
pub const PULSE_DELTA: u64 = 50_000;

/// Name of the shared document's topic.
pub const SHARED_STATE_NAME: &'static str = "hypha_global_state";

/// Prefix of the keys under which received messages are stored.
pub const MESSAGE_KEY_PREFIX: &'static str = "msg_";

/// Marker of the tokens that the stand-in validator accepts.
pub const VALID_TOKEN_MARK: &'static str = "auth-valid";

/// Whether a node at `energy` that knows of `known_bids` bids and holds the
/// required capability, or not, bids for a task: not below the critical
/// energy, and not against a quorum unless it is rich in energy.
pub open spec fn quorum_bids(energy: u64, known_bids: usize, capable: bool) -> bool {
    &&& !(known_bids >= QUORUM && energy < QUORUM_ENERGY)
    &&& energy >= CRITICAL_ENERGY
    &&& capable
}

/// The views of a list of bids.
pub open spec fn bid_views(bids: Seq<Bid>) -> Seq<BidView> {
    bids.map_values(|b: Bid| b@)
}

/// The greatest energy score among the bids for a task, if there is a bid
/// for it.
pub open spec fn best_energy(bids: Seq<BidView>, task_id: Seq<char>) -> Option<u64>
    decreases bids.len(),
{
    if bids.len() == 0 {
        None
    } else {
        let earlier = best_energy(bids.drop_last(), task_id);
        if bids.last().task_id == task_id {
            match earlier {
                Some(best) => Some(
                    if bids.last().energy_score >= best {
                        bids.last().energy_score
                    } else {
                        best
                    },
                ),
                None => Some(bids.last().energy_score),
            }
        } else {
            earlier
        }
    }
}

/// Whether the stand-in validator accepts a token: it does where the token
/// holds the mark of validity.
pub open spec fn token_valid(token: Seq<char>) -> bool {
    token.len() > 0 && occurs_in(VALID_TOKEN_MARK@, token)
}

/// Whether a node at `energy` bids for a task of which bids are known: its
/// token, if it carries one, must be valid; no known bid may beat the
/// node's energy; the task's reach must not be faint; and the node must
/// hold the capability.
pub open spec fn bundle_bids(
    energy: u64,
    auth_token: Option<Seq<char>>,
    reach_intensity: u64,
    best: Option<u64>,
    capable: bool,
) -> bool {
    &&& match auth_token {
        Some(token) => token_valid(token),
        None => true,
    }
    &&& match best {
        Some(best) => energy >= best,
        None => true,
    }
    &&& reach_intensity >= FAINT_REACH
    &&& capable
}

/// Milliseconds between heartbeats at rest: a minute for a node in
/// critical state, ten seconds for one low on energy, else a second.
pub open spec fn base_interval(energy: u64) -> u64 {
    if energy < CRITICAL_ENERGY {
        60_000
    } else if energy < LOW_ENERGY {
        10_000
    } else {
        1_000
    }
}

/// Milliseconds between heartbeats: where energy exceeds `0.4` and
/// pressure `5`, the interval at rest divided by `min(pressure / 5, 4)`,
/// rounded down.
pub open spec fn interval(energy: u64, pressure: u64) -> int {
    if energy > 400_000 && pressure > 5 * UNIT {
        if pressure >= 20 * UNIT {
            (base_interval(energy) / 4) as int
        } else {
            base_interval(energy) * 5 * UNIT / (pressure as int)
        }
    } else {
        base_interval(energy) as int
    }
}

/// Whether a node relays a message it has just stored: always above an
/// energy of `0.9`; else where energy exceeds `0.6`, pressure stays below
/// `7` and the pulse is beyond `0.7`.
pub open spec fn relays(energy: u64, pressure: u64, phase: u64) -> bool {
    energy > 900_000 || (energy > 600_000 && pressure < 7 * UNIT && phase > 700_000)
}

/// The pressure that a backlog of `cached` messages exerts: a tenth each.
pub open spec fn backlog_pressure(cached: nat) -> u64 {
    saturate(cached * UNIT / 10) as u64
}

/// What the driver of a node is to do.
#[derive(Debug)]
pub enum Outbound {
    /// Publish the node's energy on the status topic.
    Status(EnergyStatus),
    /// Publish a control message for `target` on the control topic.
    Control { target: String, control: MeshControl },
    /// Publish a sync message on the state topic.
    State(SyncMessage),
    /// Store the payload of the message at hand under `key`.
    Persist { key: String },
    /// Publish the message at hand again, unchanged, on its topic.
    Relay,
}

/// The mathematical value of an [`Outbound`].
pub enum OutboundView {
    Status { source_id: Seq<char>, energy_score: u64 },
    Control { target: Seq<char>, control: ControlView },
    State(SyncView),
    Persist { key: Seq<char> },
    Relay,
}

impl View for Outbound {
    type V = OutboundView;

    open spec fn view(&self) -> OutboundView {
        match self {
            Outbound::Status(status) => OutboundView::Status {
                source_id: status.source_id@,
                energy_score: status.energy_score,
            },
            Outbound::Control { target, control } => OutboundView::Control {
                target: target@,
                control: control@,
            },
            Outbound::State(message) => OutboundView::State(message@),
            Outbound::Persist { key } => OutboundView::Persist { key: key@ },
            Outbound::Relay => OutboundView::Relay,
        }
    }
}

/// The views of a list of actions.
pub open spec fn outbound_views(out: Seq<Outbound>) -> Seq<OutboundView> {
    out.map_values(|o: Outbound| o@)
}

impl Outbound {
    /// Whether the action, if it publishes the first step of a sync, carries
    /// a state vector that its receivers can decode.
    pub open spec fn well_encoded(&self) -> bool {
        match self {
            Outbound::State(SyncMessage::SyncStep1(vector)) => is_state_vector(vector@),
            _ => true,
        }
    }
}

/// Whether every first step of a sync among the actions carries a state
/// vector.
pub open spec fn all_well_encoded(out: Seq<Outbound>) -> bool {
    forall|i: int| 0 <= i < out.len() ==> (#[trigger] out[i]).well_encoded()
}

/// A message as it reaches the node, decoded by the topic it came on.
#[derive(Debug)]
pub enum Inbound {
    /// From the status topic.
    Status(EnergyStatus),
    /// From the control topic: a control message for `target`.
    Control { target: String, control: MeshControl },
    /// From the task topic.
    Task(Task),
    /// From the spike topic.
    Spike(Spike),
    /// From the state topic, with the updates decoded.
    State(DecodedSync),
    /// From any other topic: a payload to store.
    Other,
    /// From a topic of the overlay, but not decodable: to be dropped.
    Malformed,
}

/// The control message as an action for the driver.
pub open spec fn addressed() -> spec_fn((Seq<char>, ControlView)) -> OutboundView {
    |e: (Seq<char>, ControlView)| OutboundView::Control { target: e.0, control: e.1 }
}

/// What a tick makes of a mesh, and what it asks of the driver, apart from
/// the sync request that may follow: the pulse advances; at its peak the
/// node advertises its energy, adapts the mesh degrees to it and lets the
/// heart beat; at last the backlog sets the pressure.
pub open spec fn ticked(
    mesh: MeshView,
    peer_id: Seq<char>,
    energy: u64,
    pulse_delta: u64,
    now: u64,
    chosen: Seq<Seq<char>>,
) -> (MeshView, Seq<OutboundView>) {
    let pulsed = mesh.tick_pulse(pulse_delta);
    if pulsed.pulse_phase > PULSE_PEAK {
        let round = (MeshView { config: MeshConfig::for_energy(energy), ..pulsed }).heartbeat(
            now,
            chosen,
        );
        (
            round.mesh.set_pressure(backlog_pressure(round.mesh.message_cache.len())),
            seq![OutboundView::Status { source_id: peer_id, energy_score: energy }]
                + round.out.map_values(addressed()),
        )
    } else {
        (pulsed.set_pressure(backlog_pressure(pulsed.message_cache.len())), Seq::empty())
    }
}

/// Whether `chosen` may be what the heartbeat of a tick has chosen at
/// random: where the tick comes at the peak of the pulse, a sample of
/// `d_lazy` peers, taken from different places among the known peers that
/// the maintenance has left outside the mesh.
pub open spec fn tick_sample(
    mesh: MeshView,
    energy: u64,
    pulse_delta: u64,
    now: u64,
    chosen: Seq<Seq<char>>,
) -> bool {
    let pulsed = mesh.tick_pulse(pulse_delta);
    let adapted = MeshView { config: MeshConfig::for_energy(energy), ..pulsed };
    pulsed.pulse_phase > PULSE_PEAK ==> sampled_from(
        chosen,
        adapted.maintain(now).mesh.outsiders(),
        adapted.config.d_lazy as int,
    )
}

/// The request for what the node lacks of the shared state, where one is
/// made: the first step of a sync, with the state vector of the node's
/// replica.
pub open spec fn sync_request(sync: bool, state: SharedState) -> Seq<OutboundView> {
    if sync {
        seq![OutboundView::State(SyncView::SyncStep1(state.state_vector()))]
    } else {
        Seq::empty()
    }
}

/// The key under which a received message is stored.
pub open spec fn message_key(msg_id: Seq<char>) -> Seq<char> {
    MESSAGE_KEY_PREFIX@ + msg_id
}

/// Computes [`message_key`].
pub fn message_key_of(msg_id: &str) -> (key: String)
    ensures
        key@ == message_key(msg_id@),
{
    let mut key = String::from_str(MESSAGE_KEY_PREFIX);
    key.append(msg_id);
    key
}

/// Decides whether to relay; see [`relays`].
pub fn should_relay(energy: u64, pressure: u64, phase: u64) -> (relay: bool)
    ensures
        relay == relays(energy, pressure, phase),
{
    energy > 900_000 || (energy > 600_000 && pressure < 7 * UNIT && phase > 700_000)
}

/// Computes [`interval`].
pub fn heartbeat_interval_for(energy: u64, pressure: u64) -> (millis: u64)
    ensures
        millis == interval(energy, pressure),
{
    let base: u64 = if energy < CRITICAL_ENERGY {
        60_000
    } else if energy < LOW_ENERGY {
        10_000
    } else {
        1_000
    };
    if energy > 400_000 && pressure > 5 * UNIT {
        if pressure >= 20 * UNIT {
            base / 4
        } else {
            base * 5 * UNIT / pressure
        }
    } else {
        base
    }
}

/// Computes [`best_energy`].
pub fn best_bid_energy(bids: &Vec<Bid>, task_id: &String) -> (best: Option<u64>)
    ensures
        best == best_energy(bid_views(bids@), task_id@),
{
    let mut best: Option<u64> = None;
    let mut k: usize = 0;
    proof {
        assert(bid_views(bids@).take(0) =~= Seq::empty());
    }
    while k < bids.len()
        invariant
            k <= bids.len(),
            best == best_energy(bid_views(bids@).take(k as int), task_id@),
        decreases bids.len() - k,
    {
        proof {
            assert(bid_views(bids@).take(k + 1).drop_last() =~= bid_views(bids@).take(k as int));
        }
        if bids[k].task_id == *task_id {
            best = match best {
                Some(b) => Some(
                    if bids[k].energy_score >= b {
                        bids[k].energy_score
                    } else {
                        b
                    },
                ),
                None => Some(bids[k].energy_score),
            };
        }
        k += 1;
    }
    proof {
        assert(bid_views(bids@).take(bids.len() as int) =~= bid_views(bids@));
    }
    best
}

/// A node of the overlay.
pub struct SporeNode<M: Metabolism> {
    pub peer_id: String,
    pub power_mode: PowerMode,
    pub metabolism: M,
    pub capabilities: Vec<Capability>,
    pub sensors: Vec<Box<dyn VirtualSensor>>,
    pub mesh: TopicMesh,
    pub shared_state: SharedState,
}

impl SporeNode<BatteryMetabolism> {
    /// A node on a full battery.
    pub fn new(peer_id: String) -> (node: SporeNode<BatteryMetabolism>)
        ensures
            node.wf(),
            node.peer_id@ == peer_id@,
            node.power_mode == PowerMode::Normal,
            node.capabilities@.len() == 0,
            node.sensors@.len() == 0,
            node.metabolism == BatteryMetabolism::full(),
            node.shared_state.topic_name() == SHARED_STATE_NAME@,
            node.shared_state.entries() == Map::<Seq<char>, Seq<char>>::empty(),
            node.mesh@ == MeshView::empty(
                "hypha"@,
                MeshConfig::standard(),
                node.mesh@.pulse_phase,
            ),
    {
        Self::new_with_metabolism(peer_id, BatteryMetabolism::default())
    }
}

impl<M: Metabolism> SporeNode<M> {
    /// The invariant of a node: that of its mesh.
    pub open spec fn wf(&self) -> bool {
        self.mesh.wf()
    }

    /// Whether the node is as `before` in all but its mesh and its shared
    /// document.
    pub open spec fn keeps(&self, before: &Self) -> bool {
        &&& self.peer_id == before.peer_id
        &&& self.power_mode == before.power_mode
        &&& self.metabolism == before.metabolism
        &&& self.capabilities == before.capabilities
        &&& self.sensors == before.sensors
    }

    /// Whether the node holds the capability.
    pub open spec fn capable_of(&self, wanted: Capability) -> bool {
        holds_capability(self.capabilities@, wanted@)
    }

    /// A node that lives on the given metabolism, with an empty mesh for
    /// the topic `hypha` and an empty shared document.
    pub fn new_with_metabolism(peer_id: String, metabolism: M) -> (node: SporeNode<M>)
        ensures
            node.wf(),
            node.peer_id@ == peer_id@,
            node.power_mode == PowerMode::Normal,
            node.capabilities@.len() == 0,
            node.sensors@.len() == 0,
            node.metabolism == metabolism,
            node.shared_state.topic_name() == SHARED_STATE_NAME@,
            node.shared_state.entries() == Map::<Seq<char>, Seq<char>>::empty(),
            node.mesh@ == MeshView::empty(
                "hypha"@,
                MeshConfig::standard(),
                node.mesh@.pulse_phase,
            ),
    {
        SporeNode {
            peer_id,
            power_mode: PowerMode::Normal,
            metabolism,
            capabilities: Vec::new(),
            sensors: Vec::new(),
            mesh: TopicMesh::new(String::from_str("hypha"), MeshConfig::default()),
            shared_state: SharedState::new(SHARED_STATE_NAME),
        }
    }

    /// Registers a capability.
    pub fn add_capability(&mut self, cap: Capability)
        ensures
            final(self).capabilities@ == old(self).capabilities@.push(cap),
            final(self).peer_id == old(self).peer_id,
            final(self).power_mode == old(self).power_mode,
            final(self).metabolism == old(self).metabolism,
            final(self).sensors == old(self).sensors,
            final(self).mesh == old(self).mesh,
    {
        self.capabilities.push(cap);
    }

    /// Attaches a sensor.
    pub fn add_sensor(&mut self, sensor: Box<dyn VirtualSensor>)
        ensures
            final(self).sensors@ == old(self).sensors@.push(sensor),
            final(self).peer_id == old(self).peer_id,
            final(self).power_mode == old(self).power_mode,
            final(self).metabolism == old(self).metabolism,
            final(self).capabilities == old(self).capabilities,
            final(self).mesh == old(self).mesh,
    {
        self.sensors.push(sensor);
    }

    /// Puts the node and its metabolism into a power mode.
    pub fn set_power_mode(&mut self, mode: PowerMode)
        ensures
            final(self).power_mode == mode,
            final(self).metabolism == old(self).metabolism.reset(mode),
            final(self).peer_id == old(self).peer_id,
            final(self).capabilities == old(self).capabilities,
            final(self).sensors == old(self).sensors,
            final(self).mesh == old(self).mesh,
    {
        self.metabolism.set_mode(mode);
        self.power_mode = mode;
    }

    /// The energy score of the node's metabolism.
    pub fn energy_score(&self) -> (score: u64)
        ensures
            score == self.metabolism.energy(),
    {
        self.metabolism.energy_score()
    }

    /// Quorum sensing: whether to bid for a task of which `known_bids`
    /// bids are known, and the bid.
    pub fn evaluate_task(&self, task: &Task, known_bids: usize) -> (bid: Option<Bid>)
        ensures
            match bid {
                Some(b) => quorum_bids(
                    self.metabolism.energy(),
                    known_bids,
                    self.capable_of(task.required_capability),
                ) && b@ == (BidView {
                    task_id: task.id@,
                    bidder_id: self.peer_id@,
                    energy_score: self.metabolism.energy(),
                    cost_mah: TASK_COST,
                }),
                None => !quorum_bids(
                    self.metabolism.energy(),
                    known_bids,
                    self.capable_of(task.required_capability),
                ),
            },
    {
        let score: u64 = self.energy_score();
        if known_bids >= QUORUM && score < QUORUM_ENERGY {
            return None;
        }
        if score < CRITICAL_ENERGY {
            return None;
        }
        if has_capability(&self.capabilities, &task.required_capability) {
            Some(
                Bid {
                    task_id: task.id.clone(),
                    bidder_id: self.peer_id.clone(),
                    energy_score: score,
                    cost_mah: TASK_COST,
                },
            )
        } else {
            None
        }
    }

    /// Milliseconds until the next heartbeat: longer for a node low on
    /// energy, shorter under pressure.
    pub fn heartbeat_interval(&self) -> (millis: u64)
        ensures
            millis == interval(self.metabolism.energy(), self.mesh@.local_pressure),
    {
        heartbeat_interval_for(self.energy_score(), self.mesh.local_pressure())
    }

    /// Draws energy for an operation; refused when the metabolism is
    /// depleted.
    pub fn consume_energy(&mut self, mah: u64) -> (granted: bool)
        ensures
            granted == !old(self).metabolism.depleted(),
            granted ==> final(self).metabolism == old(self).metabolism.drawn(mah),
            !granted ==> final(self).metabolism == old(self).metabolism,
            final(self).peer_id == old(self).peer_id,
            final(self).power_mode == old(self).power_mode,
            final(self).capabilities == old(self).capabilities,
            final(self).sensors == old(self).sensors,
            final(self).mesh == old(self).mesh,
    {
        self.metabolism.consume(mah)
    }

    /// What is left of the metabolism's reserve.
    pub fn mah_remaining(&self) -> (left: u64)
        ensures
            left == self.metabolism.reserve(),
    {
        self.metabolism.remaining()
    }

    /// Whether the node has too little energy to take part.
    pub fn is_exhausted(&self) -> (exhausted: bool)
        ensures
            exhausted == (self.metabolism.energy() < EXHAUSTED_ENERGY),
    {
        self.energy_score() < EXHAUSTED_ENERGY
    }

    /// Validates the authorization token of a task. A stand-in: it accepts
    /// the tokens that hold the mark of validity, whatever capability is
    /// required.
    pub fn validate_ucan(&self, token: &str, required_cap: &Capability) -> (valid: bool)
        ensures
            valid == token_valid(token@),
    {
        if token.is_empty() {
            return false;
        }
        text_contains(token, VALID_TOKEN_MARK)
    }

    /// The emergent auction: whether to bid for a task given the bids
    /// known, and the bid, which then joins the known bids. The bid offers
    /// the node's energy weighted by the task's reach.
    pub fn process_task_bundle(&self, task: &Task, known_bids: &mut Vec<Bid>) -> (bid: Option<Bid>)
        ensures
            match bid {
                Some(b) => bundle_bids(
                    self.metabolism.energy(),
                    task@.auth_token,
                    task.reach_intensity,
                    best_energy(bid_views(old(known_bids)@), task.id@),
                    self.capable_of(task.required_capability),
                ) && b@ == (BidView {
                    task_id: task.id@,
                    bidder_id: self.peer_id@,
                    energy_score: saturate(
                        self.metabolism.energy() * task.reach_intensity / (UNIT as int),
                    ) as u64,
                    cost_mah: TASK_COST,
                }) && bid_views(final(known_bids)@) == bid_views(old(known_bids)@).push(b@),
                None => !bundle_bids(
                    self.metabolism.energy(),
                    task@.auth_token,
                    task.reach_intensity,
                    best_energy(bid_views(old(known_bids)@), task.id@),
                    self.capable_of(task.required_capability),
                ) && final(known_bids)@ == old(known_bids)@,
            },
    {
        let score: u64 = self.energy_score();
        match &task.auth_token {
            Some(token) => {
                if !self.validate_ucan(token.as_str(), &task.required_capability) {
                    return None;
                }
            },
            None => {},
        }
        match best_bid_energy(known_bids, &task.id) {
            Some(best) => {
                if score < best {
                    return None;
                }
            },
            None => {},
        }
        if task.reach_intensity < FAINT_REACH {
            return None;
        }
        if has_capability(&self.capabilities, &task.required_capability) {
            let bid = Bid {
                task_id: task.id.clone(),
                bidder_id: self.peer_id.clone(),
                energy_score: mul_div(score, task.reach_intensity, UNIT),
                cost_mah: TASK_COST,
            };
            let copy = bid.clone();
            known_bids.push(copy);
            proof {
                assert(bid_views(known_bids@) =~= bid_views(old(known_bids)@).push(bid@));
            }
            Some(bid)
        } else {
            None
        }
    }

    /// Raises a spike of the node's own, as when a spike arrives from
    /// itself.
    pub fn trigger_sync_spike(&mut self, intensity: u8)
        requires
            old(self).wf(),
        ensures
            final(self).wf(),
            final(self).mesh@ == old(self).mesh@.handle_spike(old(self).peer_id@, intensity),
            final(self).keeps(old(self)),
    {
        self.mesh.handle_spike(self.peer_id.as_str(), intensity);
    }
}

/// What a message makes of the node's replica of the shared state: an
/// update that is there, be it a change or the second step of a sync, is
/// applied to it; nothing else touches it.
pub open spec fn synced(state: SharedState, inbound: Inbound) -> SharedState {
    match inbound {
        Inbound::State(DecodedSync::Update(Some(update))) => state.taking(update),
        Inbound::State(DecodedSync::SyncStep2(Some(update))) => state.taking(update),
        _ => state,
    }
}

/// What a message makes of a mesh, and what it asks of the driver.
///
/// A status updates the sender's energy score. A control message for this
/// node is handled by the mesh, and the reply, if one is owed, goes back to
/// the sender. A task leaves no trace. A spike reaches the mesh. A state
/// vector is answered with what its sender lacks; other sync messages are
/// taken in. Any other payload is stored, counted for the peer it came
/// through, and relayed if the node can afford it. What could not be
/// decoded is dropped.
pub open spec fn received(
    mesh: MeshView,
    peer_id: Seq<char>,
    energy: u64,
    source: Seq<char>,
    msg_id: Seq<char>,
    inbound: Inbound,
    now: u64,
    state: SharedState,
) -> (MeshView, Seq<OutboundView>) {
    match inbound {
        Inbound::Status(status) => (
            mesh.update_peer_score(source, status.energy_score, now),
            Seq::empty(),
        ),
        Inbound::Control { target, control } => if target@ == peer_id {
            (
                mesh.handle_control(source, control@, now),
                match mesh.control_reply(source, control@) {
                    Some(reply) => seq![OutboundView::Control { target: source, control: reply }],
                    None => Seq::empty(),
                },
            )
        } else {
            (mesh, Seq::empty())
        },
        Inbound::Task(_) => (mesh, Seq::empty()),
        Inbound::Spike(spike) => (mesh.handle_spike(spike.source@, spike.intensity), Seq::empty()),
        Inbound::State(DecodedSync::SyncStep1(bytes)) => (
            mesh,
            if SharedState::reads_vector(bytes@) {
                seq![OutboundView::State(SyncView::SyncStep2(state.since(vector_clocks(bytes@))))]
            } else {
                Seq::empty()
            },
        ),
        Inbound::State(_) => (mesh, Seq::empty()),
        Inbound::Other => {
            let stored = mesh.record_message(source, msg_id, now);
            (
                stored,
                if relays(energy, stored.local_pressure, stored.pulse_phase) {
                    seq![OutboundView::Persist { key: message_key(msg_id) }, OutboundView::Relay]
                } else {
                    seq![OutboundView::Persist { key: message_key(msg_id) }]
                },
            )
        },
        Inbound::Malformed => (mesh, Seq::empty()),
    }
}

/// Adds the control messages of a heartbeat to the actions.
fn append_controls(out: &mut Vec<Outbound>, controls: &Vec<(String, MeshControl)>)
    requires
        all_well_encoded(old(out)@),
    ensures
        outbound_views(final(out)@) == outbound_views(old(out)@) + control_views(
            controls@,
        ).map_values(addressed()),
        all_well_encoded(final(out)@),
{
    let mut k: usize = 0;
    proof {
        assert(outbound_views(out@) =~= outbound_views(old(out)@) + control_views(controls@).take(
            0,
        ).map_values(addressed()));
    }
    while k < controls.len()
        invariant
            k <= controls.len(),
            all_well_encoded(out@),
            outbound_views(out@) == outbound_views(old(out)@) + control_views(controls@).take(
                k as int,
            ).map_values(addressed()),
        decreases controls.len() - k,
    {
        let ghost before = out@;
        out.push(
            Outbound::Control { target: controls[k].0.clone(), control: controls[k].1.clone() },
        );
        proof {
            let next = addressed()(control_views(controls@)[k as int]);
            assert(outbound_views(out@) =~= outbound_views(before).push(next));
            assert(control_views(controls@).take(k + 1).map_values(addressed())
                =~= control_views(controls@).take(k as int).map_values(addressed()).push(next));
        }
        k += 1;
    }
    proof {
        assert(control_views(controls@).take(controls.len() as int) =~= control_views(controls@));
    }
}

impl<M: Metabolism> SporeNode<M> {
    /// One tick of the scheduler at the time `now`. The heartbeat, if the
    /// pulse is at its peak, announces to the first `d_lazy` peers outside
    /// the mesh among `chosen`. With `sync` the node also asks its peers
    /// for what it lacks of the shared state. Returns what the driver is to
    /// do.
    pub fn tick_at(&mut self, pulse_delta: u64, now: u64, chosen: &Vec<String>, sync: bool) -> (out:
        Vec<Outbound>)
        requires
            old(self).wf(),
        ensures
            final(self).wf(),
            final(self).mesh@ == ticked(
                old(self).mesh@,
                old(self).peer_id@,
                old(self).metabolism.energy(),
                pulse_delta,
                now,
                texts(chosen@),
            ).0,
            outbound_views(out@) == ticked(
                old(self).mesh@,
                old(self).peer_id@,
                old(self).metabolism.energy(),
                pulse_delta,
                now,
                texts(chosen@),
            ).1 + sync_request(sync, old(self).shared_state),
            all_well_encoded(out@),
            final(self).shared_state == old(self).shared_state,
            final(self).keeps(old(self)),
    {
        let energy: u64 = self.energy_score();
        let mut out: Vec<Outbound> = Vec::new();
        self.mesh.tick_pulse(pulse_delta);
        if self.mesh.pulse_phase() > PULSE_PEAK {
            out.push(
                Outbound::Status(
                    EnergyStatus { source_id: self.peer_id.clone(), energy_score: energy },
                ),
            );
            self.mesh.set_config(MeshConfig::adaptive(energy));
            let controls = self.mesh.heartbeat_at(now, chosen);
            let ghost before = out@;
            append_controls(&mut out, &controls);
            proof {
                assert(outbound_views(before) =~= seq![
                    OutboundView::Status {
                        source_id: old(self).peer_id@,
                        energy_score: energy,
                    },
                ]);
            }
        } else {
            proof {
                assert(outbound_views(out@) =~= Seq::empty());
            }
        }
        let backlog: usize = self.mesh.cached_count();
        self.mesh.set_pressure(mul_div(backlog as u64, UNIT, 10));
        if sync {
            let ghost before = out@;
            out.push(Outbound::State(self.shared_state.create_sync_step_1()));
            proof {
                assert(outbound_views(out@) =~= outbound_views(before) + sync_request(
                    true,
                    old(self).shared_state,
                ));
            }
        } else {
            proof {
                assert(outbound_views(out@) + Seq::<OutboundView>::empty() =~= outbound_views(
                    out@,
                ));
            }
        }
        out
    }

    /// One tick of the scheduler at the present time. The heartbeat, if the
    /// pulse is at its peak, announces to peers chosen at random; one tick
    /// in ten, at random, the node asks its peers for what it lacks of the
    /// shared state. Returns what the driver is to do.
    pub fn tick(&mut self, pulse_delta: u64) -> (out: Vec<Outbound>)
        requires
            old(self).wf(),
        ensures
            final(self).wf(),
            exists|now: u64, chosen: Seq<Seq<char>>, sync: bool|
                final(self).mesh@ == (#[trigger] ticked(
                    old(self).mesh@,
                    old(self).peer_id@,
                    old(self).metabolism.energy(),
                    pulse_delta,
                    now,
                    chosen,
                )).0 && outbound_views(out@) == ticked(
                    old(self).mesh@,
                    old(self).peer_id@,
                    old(self).metabolism.energy(),
                    pulse_delta,
                    now,
                    chosen,
                ).1 + #[trigger] sync_request(sync, old(self).shared_state) && tick_sample(
                    old(self).mesh@,
                    old(self).metabolism.energy(),
                    pulse_delta,
                    now,
                    chosen,
                ),
            all_well_encoded(out@),
            final(self).shared_state == old(self).shared_state,
            final(self).keeps(old(self)),
    {
        let energy: u64 = self.energy_score();
        let mut out: Vec<Outbound> = Vec::new();
        let ghost mut now: u64 = 0;
        let ghost mut chosen: Seq<Seq<char>> = Seq::empty();
        self.mesh.tick_pulse(pulse_delta);
        if self.mesh.pulse_phase() > PULSE_PEAK {
            out.push(
                Outbound::Status(
                    EnergyStatus { source_id: self.peer_id.clone(), energy_score: energy },
                ),
            );
            self.mesh.set_config(MeshConfig::adaptive(energy));
            let ghost adapted = self.mesh@;
            let controls = self.mesh.heartbeat();
            let ghost before = out@;
            append_controls(&mut out, &controls);
            proof {
                let (n, c) = choose|n: u64, c: Seq<Seq<char>>|
                    self.mesh@ == (#[trigger] adapted.heartbeat(n, c)).mesh && control_views(
                        controls@,
                    ) == adapted.heartbeat(n, c).out && sampled_from(
                        c,
                        adapted.maintain(n).mesh.outsiders(),
                        adapted.config.d_lazy as int,
                    );
                now = n;
                chosen = c;
                assert(outbound_views(before) =~= seq![
                    OutboundView::Status {
                        source_id: old(self).peer_id@,
                        energy_score: energy,
                    },
                ]);
            }
        } else {
            proof {
                assert(outbound_views(out@) =~= Seq::empty());
            }
        }
        let backlog: usize = self.mesh.cached_count();
        self.mesh.set_pressure(mul_div(backlog as u64, UNIT, 10));
        let sync: bool = random_ratio(1, 10);
        if sync {
            let ghost before = out@;
            out.push(Outbound::State(self.shared_state.create_sync_step_1()));
            proof {
                assert(outbound_views(out@) =~= outbound_views(before) + sync_request(
                    true,
                    old(self).shared_state,
                ));
            }
        } else {
            proof {
                assert(outbound_views(out@) + Seq::<OutboundView>::empty() =~= outbound_views(
                    out@,
                ));
            }
        }
        proof {
            let result = ticked(
                old(self).mesh@,
                old(self).peer_id@,
                old(self).metabolism.energy(),
                pulse_delta,
                now,
                chosen,
            );
            assert(self.mesh@ == result.0);
            assert(outbound_views(out@) == result.1 + sync_request(sync, old(self).shared_state));
            assert(tick_sample(
                old(self).mesh@,
                old(self).metabolism.energy(),
                pulse_delta,
                now,
                chosen,
            ));
        }
        out
    }

    /// Takes in a message that arrived at the time `now` through the peer
    /// `source`, and returns what the driver is to do.
    pub fn on_message_at(&mut self, source: &str, msg_id: &str, inbound: Inbound, now: u64) -> (out:
        Vec<Outbound>)
        requires
            old(self).wf(),
        ensures
            final(self).wf(),
            final(self).mesh@ == received(
                old(self).mesh@,
                old(self).peer_id@,
                old(self).metabolism.energy(),
                source@,
                msg_id@,
                inbound,
                now,
                old(self).shared_state,
            ).0,
            outbound_views(out@) == received(
                old(self).mesh@,
                old(self).peer_id@,
                old(self).metabolism.energy(),
                source@,
                msg_id@,
                inbound,
                now,
                old(self).shared_state,
            ).1,
            all_well_encoded(out@),
            final(self).shared_state == synced(old(self).shared_state, inbound),
            final(self).keeps(old(self)),
    {
        let mut out: Vec<Outbound> = Vec::new();
        proof {
            assert(outbound_views(out@) =~= Seq::empty());
        }
        match inbound {
            Inbound::Status(status) => {
                self.mesh.update_peer_score_at(source, status.energy_score, now);
            },
            Inbound::Control { target, control } => {
                if target == self.peer_id {
                    if let Some(reply) = self.mesh.handle_control_at(source, control, now) {
                        out.push(Outbound::Control { target: source.to_owned(), control: reply });
                        proof {
                            assert(outbound_views(out@) =~= seq![
                                OutboundView::Control { target: source@, control: reply@ },
                            ]);
                        }
                    }
                }
            },
            Inbound::Task(_) => {},
            Inbound::Spike(spike) => {
                self.mesh.handle_spike(spike.source.as_str(), spike.intensity);
            },
            Inbound::State(message) => {
                match message {
                    DecodedSync::Update(update) => {
                        let _ = self.shared_state.apply_update(update);
                    },
                    DecodedSync::SyncStep1(vector) => {
                        if let Ok(reply) = self.shared_state.handle_sync_step_1(vector.as_slice()) {
                            out.push(Outbound::State(reply));
                            proof {
                                assert(outbound_views(out@) =~= seq![OutboundView::State(reply@)]);
                            }
                        }
                    },
                    DecodedSync::SyncStep2(update) => {
                        let _ = self.shared_state.handle_sync_step_2(update);
                    },
                }
            },
            Inbound::Other => {
                out.push(Outbound::Persist { key: message_key_of(msg_id) });
                self.mesh.record_message_at(source, msg_id, now);
                let energy: u64 = self.energy_score();
                if should_relay(energy, self.mesh.local_pressure(), self.mesh.pulse_phase()) {
                    out.push(Outbound::Relay);
                    proof {
                        assert(outbound_views(out@) =~= seq![
                            OutboundView::Persist { key: message_key(msg_id@) },
                            OutboundView::Relay,
                        ]);
                    }
                } else {
                    proof {
                        assert(outbound_views(out@) =~= seq![
                            OutboundView::Persist { key: message_key(msg_id@) },
                        ]);
                    }
                }
            },
            Inbound::Malformed => {},
        }
        out
    }

    /// Takes in a message that arrived through the peer `source`, and
    /// returns what the driver is to do.
    pub fn on_message(&mut self, source: &str, msg_id: &str, inbound: Inbound) -> (out: Vec<
        Outbound,
    >)
        requires
            old(self).wf(),
        ensures
            final(self).wf(),
            exists|now: u64|
                final(self).mesh@ == (#[trigger] received(
                    old(self).mesh@,
                    old(self).peer_id@,
                    old(self).metabolism.energy(),
                    source@,
                    msg_id@,
                    inbound,
                    now,
                    old(self).shared_state,
                )).0 && outbound_views(out@) == received(
                    old(self).mesh@,
                    old(self).peer_id@,
                    old(self).metabolism.energy(),
                    source@,
                    msg_id@,
                    inbound,
                    now,
                    old(self).shared_state,
                ).1,
            all_well_encoded(out@),
            final(self).shared_state == synced(old(self).shared_state, inbound),
            final(self).keeps(old(self)),
    {
        let now = self.mesh.now();
        self.on_message_at(source, msg_id, inbound, now)
    }
}

} // verus!
