//! Metering of sandboxed task execution: fuel against an energy budget.

use vstd::prelude::*;
use vstd::string::StringExecFns;
use crate::metabolism::Metabolism;
use crate::units::{max_of, mul_div, saturate, UNIT};

verus! {

/// Why a task yielded no result.
#[derive(Debug)]
pub enum ComputeError {
    /// The runtime failed; the text says how.
    Wasm(String),
    /// The metabolism has nothing left to pay with.
    Exhausted,
    /// The task was not valid; the text says why.
    Validation(String),
}

/// The mathematical value of a [`ComputeError`].
pub enum ComputeErrorView {
    Wasm(Seq<char>),
    Exhausted,
    Validation(Seq<char>),
}

impl View for ComputeError {
    type V = ComputeErrorView;

    open spec fn view(&self) -> ComputeErrorView {
        match self {
            ComputeError::Wasm(text) => ComputeErrorView::Wasm(text@),
            ComputeError::Exhausted => ComputeErrorView::Exhausted,
            ComputeError::Validation(text) => ComputeErrorView::Validation(text@),
        }
    }
}

impl ComputeError {
    /// The error in words.
    pub fn message(&self) -> (text: String)
        ensures
            text@ == match self@ {
                ComputeErrorView::Wasm(detail) => "WASM runtime error: "@ + detail,
                ComputeErrorView::Exhausted => "Resource exhausted"@,
                ComputeErrorView::Validation(detail) => "Task validation failed: "@ + detail,
            },
    {
        match self {
            ComputeError::Wasm(detail) => {
                let mut text = String::from_str("WASM runtime error: ");
                text.append(detail.as_str());
                text
            },
            ComputeError::Exhausted => String::from_str("Resource exhausted"),
            ComputeError::Validation(detail) => {
                let mut text = String::from_str("Task validation failed: ");
                text.append(detail.as_str());
                text
            },
        }
    }
}

/// Units of fuel that one unit of energy buys.
pub const FUEL_PER_ENERGY: u64 = 100_000;

/// The fuel that an energy budget buys, cut off at the largest `u64`.
pub open spec fn fuel_for(budget: int) -> int {
    saturate(budget * FUEL_PER_ENERGY / (UNIT as int))
}

/// The energy that the fuel burnt has cost, cut off at the largest `u64`:
/// what is missing from `limit` in `remaining`, at the price of fuel.
pub open spec fn cost_of(limit: int, remaining: int) -> int {
    saturate(max_of(limit - remaining, 0) * UNIT / (FUEL_PER_ENERGY as int))
}

/// The fuel to start a task with under the given energy budget.
pub fn fuel_limit(budget: u64) -> (fuel: u64)
    ensures
        fuel == fuel_for(budget as int),
{
    mul_div(budget, FUEL_PER_ENERGY, UNIT)
}

/// The energy to charge for a task that started with `limit` units of fuel
/// and ended with `remaining`.
pub fn fuel_cost(limit: u64, remaining: u64) -> (cost: u64)
    ensures
        cost == cost_of(limit as int, remaining as int),
{
    let burnt: u64 = if remaining >= limit {
        0
    } else {
        limit - remaining
    };
    mul_div(burnt, UNIT, FUEL_PER_ENERGY)
}

/// Settles a task that ran to its end: charges the metabolism for the fuel
/// burnt, [`cost_of`]. The task yields its output unless the metabolism was
/// depleted already, in which case nothing is charged.
pub fn settle<M: Metabolism>(
    metabolism: &mut M,
    limit: u64,
    remaining: u64,
    output: Vec<u8>,
) -> (result: Result<Vec<u8>, ComputeError>)
    ensures
        match result {
            Ok(bytes) => !old(metabolism).depleted() && bytes == output && *final(metabolism)
                == old(metabolism).drawn(cost_of(limit as int, remaining as int) as u64),
            Err(error) => old(metabolism).depleted() && error@ == ComputeErrorView::Exhausted
                && *final(metabolism) == *old(metabolism),
        },
{
    let cost = fuel_cost(limit, remaining);
    if metabolism.consume(cost) {
        Ok(output)
    } else {
        Err(ComputeError::Exhausted)
    }
}

} // verus!
