//! Capabilities, tasks, bids and energy advertisements.

use vstd::prelude::*;
use vstd::arithmetic::div_mod::{lemma_fundamental_div_mod, lemma_hoist_over_denominator};
use crate::units::{min_of, min_u64, saturate, UNIT};

verus! {

/// What a node can do for others.
#[derive(Debug)]
pub enum Capability {
    Compute(u32),
    Storage(u64),
    Sensing(String),
}

/// The mathematical value of a [`Capability`].
pub enum CapabilityView {
    Compute(u32),
    Storage(u64),
    Sensing(Seq<char>),
}

impl View for Capability {
    type V = CapabilityView;

    open spec fn view(&self) -> CapabilityView {
        match self {
            Capability::Compute(n) => CapabilityView::Compute(*n),
            Capability::Storage(n) => CapabilityView::Storage(*n),
            Capability::Sensing(tag) => CapabilityView::Sensing(tag@),
        }
    }
}

impl Clone for Capability {
    fn clone(&self) -> (r: Capability)
        ensures
            r@ == self@,
    {
        match self {
            Capability::Compute(n) => Capability::Compute(*n),
            Capability::Storage(n) => Capability::Storage(*n),
            Capability::Sensing(tag) => Capability::Sensing(tag.clone()),
        }
    }
}

impl PartialEq for Capability {
    fn eq(&self, other: &Capability) -> (r: bool) {
        self.matches(other)
    }
}

impl vstd::std_specs::cmp::PartialEqSpecImpl for Capability {
    open spec fn obeys_eq_spec() -> bool {
        true
    }

    open spec fn eq_spec(&self, other: &Capability) -> bool {
        self@ == other@
    }
}

impl Capability {
    /// Two capabilities match when they are the same variant with the same
    /// payload.
    pub fn matches(&self, other: &Capability) -> (r: bool)
        ensures
            r == (self@ == other@),
    {
        match (self, other) {
            (Capability::Compute(a), Capability::Compute(b)) => *a == *b,
            (Capability::Storage(a), Capability::Storage(b)) => *a == *b,
            (Capability::Sensing(a), Capability::Sensing(b)) => *a == *b,
            _ => false,
        }
    }
}

/// Whether some capability of `held` matches `wanted`.
pub open spec fn holds_capability(held: Seq<Capability>, wanted: CapabilityView) -> bool {
    exists|i: int| 0 <= i < held.len() && (#[trigger] held[i])@ == wanted
}

/// Searches `held` for a capability matching `wanted`.
pub fn has_capability(held: &Vec<Capability>, wanted: &Capability) -> (r: bool)
    ensures
        r == holds_capability(held@, wanted@),
{
    let mut i: usize = 0;
    while i < held.len()
        invariant
            i <= held.len(),
            forall|j: int| 0 <= j < i ==> (#[trigger] held@[j])@ != wanted@,
        decreases held.len() - i,
    {
        if held[i].matches(wanted) {
            return true;
        }
        i += 1;
    }
    false
}

/// Energy advertisement of one node.
#[derive(Debug)]
pub struct EnergyStatus {
    pub source_id: String,
    /// From `0` (dead) to [`UNIT`] (full or mains-powered).
    pub energy_score: u64,
}

/// A unit of work offered to the mesh.
#[derive(Debug)]
pub struct Task {
    pub id: String,
    pub required_capability: Capability,
    pub priority: u8,
    /// How much of the task's diffusion budget is left.
    pub reach_intensity: u64,
    pub source_id: String,
    /// Authorization token, if the task carries one.
    pub auth_token: Option<String>,
}

impl Clone for EnergyStatus {
    fn clone(&self) -> (r: EnergyStatus)
        ensures
            r.source_id@ == self.source_id@,
            r.energy_score == self.energy_score,
    {
        EnergyStatus { source_id: self.source_id.clone(), energy_score: self.energy_score }
    }
}

/// The mathematical value of a [`Task`].
pub struct TaskView {
    pub id: Seq<char>,
    pub required_capability: CapabilityView,
    pub priority: u8,
    pub reach_intensity: u64,
    pub source_id: Seq<char>,
    pub auth_token: Option<Seq<char>>,
}

impl View for Task {
    type V = TaskView;

    open spec fn view(&self) -> TaskView {
        TaskView {
            id: self.id@,
            required_capability: self.required_capability@,
            priority: self.priority,
            reach_intensity: self.reach_intensity,
            source_id: self.source_id@,
            auth_token: match self.auth_token {
                Some(token) => Some(token@),
                None => None,
            },
        }
    }
}

impl Clone for Task {
    fn clone(&self) -> (r: Task)
        ensures
            r@ == self@,
    {
        Task {
            id: self.id.clone(),
            required_capability: self.required_capability.clone(),
            priority: self.priority,
            reach_intensity: self.reach_intensity,
            source_id: self.source_id.clone(),
            auth_token: match &self.auth_token {
                Some(token) => Some(token.clone()),
                None => None,
            },
        }
    }
}

/// Ten to the nineteenth: the denominator of [`hop_product`].
pub const HOP_SCALE: u128 = 10_000_000_000_000_000_000;

/// What one hop lets through of a task's reach, as a multiple of ten to the
/// minus nineteenth: the product of `min(conductivity, 3)`, `min(energy +
/// 0.2, 1)`, `min(1 - min(pressure, 10) / 10 + 0.1, 1)` and `0.9`.
pub open spec fn hop_product(conductivity: int, energy: int, pressure: int) -> int {
    min_of(conductivity, 3 * UNIT) * min_of(energy + UNIT / 5, UNIT as int) * min_of(
        UNIT - min_of(pressure, 10 * UNIT) / 10 + UNIT / 10,
        UNIT as int,
    ) * 9
}

/// The reach that is left of `reach` after one hop: `reach * min(conductivity,
/// 3) * min(energy + 0.2, 1) * min(1 - min(pressure, 10) / 10 + 0.1, 1) *
/// 0.9`, rounded down and cut off at the largest `u64`.
pub open spec fn diffused(reach: int, conductivity: int, energy: int, pressure: int) -> int {
    saturate(reach * hop_product(conductivity, energy, pressure) / (HOP_SCALE as int))
}

/// Computes [`hop_product`].
pub fn hop_product_of(conductivity: u64, energy: u64, pressure: u64) -> (product: u128)
    ensures
        product == hop_product(conductivity as int, energy as int, pressure as int),
        product <= 27_000_000_000_000_000_000,
{
    let flow: u64 = min_u64(conductivity, 3 * UNIT);
    let vigour: u64 = if energy > u64::MAX - UNIT / 5 {
        UNIT
    } else {
        min_u64(energy + UNIT / 5, UNIT)
    };
    let slack: u64 = min_u64(UNIT - min_u64(pressure, 10 * UNIT) / 10 + UNIT / 10, UNIT);
    assert(flow * vigour <= 3_000_000 * 1_000_000) by (nonlinear_arith)
        requires
            flow <= 3_000_000,
            vigour <= 1_000_000,
    ;
    let two: u128 = (flow as u128) * (vigour as u128);
    assert(two * slack <= 3_000_000_000_000 * 1_000_000) by (nonlinear_arith)
        requires
            two <= 3_000_000_000_000,
            slack <= 1_000_000,
    ;
    two * (slack as u128) * 9
}

impl Task {
    /// A task at full reach that carries no authorization.
    pub fn new(id: String, cap: Capability, priority: u8, source_id: String) -> (task: Task)
        ensures
            task@ == (TaskView {
                id: id@,
                required_capability: cap@,
                priority,
                reach_intensity: UNIT,
                source_id: source_id@,
                auth_token: None,
            }),
    {
        Task {
            id,
            required_capability: cap,
            priority,
            reach_intensity: UNIT,
            source_id,
            auth_token: None,
        }
    }

    /// The same task carrying `token`.
    pub fn with_auth(self, token: String) -> (task: Task)
        ensures
            task@ == (TaskView { auth_token: Some(token@), ..self@ }),
    {
        let mut task = self;
        task.auth_token = Some(token);
        task
    }

    /// The reach that a neighbour receives over a path of the given
    /// conductivity, given the neighbour's energy and pressure.
    pub fn diffuse(&self, conductivity: u64, neighbor_energy: u64, neighbor_pressure: u64) -> (next:
        u64)
        ensures
            next == diffused(
                self.reach_intensity as int,
                conductivity as int,
                neighbor_energy as int,
                neighbor_pressure as int,
            ),
    {
        let product: u128 = hop_product_of(conductivity, neighbor_energy, neighbor_pressure);
        let whole: u128 = product / HOP_SCALE;
        let rest: u128 = product % HOP_SCALE;
        let reach: u128 = self.reach_intensity as u128;
        assert(reach * rest <= 0xffff_ffff_ffff_ffff * 10_000_000_000_000_000_000) by (nonlinear_arith)
            requires
                reach <= 0xffff_ffff_ffff_ffff,
                rest <= 10_000_000_000_000_000_000,
        ;
        assert(reach * whole <= 0xffff_ffff_ffff_ffff * 2) by (nonlinear_arith)
            requires
                reach <= 0xffff_ffff_ffff_ffff,
                whole <= 2,
        ;
        let next: u128 = reach * whole + reach * rest / HOP_SCALE;
        proof {
            let d = HOP_SCALE as int;
            lemma_fundamental_div_mod(product as int, d);
            assert(reach * product == reach * rest + (reach * whole) * d) by (nonlinear_arith)
                requires
                    product == d * whole + rest,
            ;
            lemma_hoist_over_denominator(reach * rest, reach * whole, d as nat);
        }
        if next > u64::MAX as u128 {
            u64::MAX
        } else {
            next as u64
        }
    }
}

/// An offer to carry out a task.
#[derive(Debug)]
pub struct Bid {
    pub task_id: String,
    pub bidder_id: String,
    /// The bidder's energy score as submitted.
    pub energy_score: u64,
    /// What the bidder expects the task to cost, in fixed-point mAh.
    pub cost_mah: u64,
}

/// The mathematical value of a [`Bid`].
pub struct BidView {
    pub task_id: Seq<char>,
    pub bidder_id: Seq<char>,
    pub energy_score: u64,
    pub cost_mah: u64,
}

impl View for Bid {
    type V = BidView;

    open spec fn view(&self) -> BidView {
        BidView {
            task_id: self.task_id@,
            bidder_id: self.bidder_id@,
            energy_score: self.energy_score,
            cost_mah: self.cost_mah,
        }
    }
}

impl Clone for Bid {
    fn clone(&self) -> (r: Bid)
        ensures
            r@ == self@,
    {
        Bid {
            task_id: self.task_id.clone(),
            bidder_id: self.bidder_id.clone(),
            energy_score: self.energy_score,
            cost_mah: self.cost_mah,
        }
    }
}

} // verus!
