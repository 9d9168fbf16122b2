//! Metabolism: a node's local resource oracle.
//!
//! Voltages are fixed-point volts and capacities fixed-point mAh (see
//! [`crate::units`]).

use vstd::prelude::*;
use crate::units::{min_of, max_of, saturate, mul_div, UNIT};

verus! {

/// Presets of the battery model.
#[derive(Debug, Clone, Copy, PartialEq, Eq, Structural)]
pub enum PowerMode {
    Normal,
    LowBattery,
    Critical,
}

/// The resources a node lives on.
pub trait Metabolism: Send + Sync + Sized {
    /// The energy score that [`Metabolism::energy_score`] reports.
    spec fn energy(&self) -> u64;

    /// The reserve that [`Metabolism::remaining`] reports.
    spec fn reserve(&self) -> u64;

    /// Whether nothing is left to consume.
    spec fn depleted(&self) -> bool;

    /// Whether the node runs on mains power.
    spec fn mains(&self) -> bool;

    /// The metabolism after a draw of `cost` that was granted.
    spec fn drawn(&self, cost: u64) -> Self;

    /// The metabolism after it was put into the power mode `mode`.
    spec fn reset(&self, mode: PowerMode) -> Self;

    /// The current energy score, from `0` (dead) to [`UNIT`] (full).
    fn energy_score(&self) -> (score: u64)
        ensures
            score == self.energy(),
    ;

    /// Draws `cost` from the reserve. Refused exactly when the reserve was
    /// already depleted, and then nothing changes.
    fn consume(&mut self, cost: u64) -> (granted: bool)
        ensures
            granted == !old(self).depleted(),
            granted ==> *final(self) == old(self).drawn(cost),
            !granted ==> *final(self) == *old(self),
            final(self).mains() == old(self).mains(),
    ;

    /// What is left of the reserve.
    fn remaining(&self) -> (left: u64)
        ensures
            left == self.reserve(),
    ;

    /// Resets the reserve to the preset of `mode`, where the model has one.
    fn set_mode(&mut self, mode: PowerMode)
        ensures
            *final(self) == old(self).reset(mode),
            final(self).mains() == old(self).mains(),
    ;

    fn is_mains_powered(&self) -> (mains: bool)
        ensures
            mains == self.mains(),
    ;
}

/// Voltage of an empty cell.
pub const EMPTY_VOLTAGE: u64 = 3_300_000;

/// Voltage of a full cell.
pub const FULL_VOLTAGE: u64 = 4_200_000;

/// Capacity of a full cell, in mAh.
pub const FULL_CAPACITY: u64 = 2_500_000_000;

/// The energy score of a cell at `voltage` holding `mah`:
/// `0.4 * (voltage - 3.3) / 0.9 + 0.6 * mah / 2500`, rounded down and kept
/// within `[0, 1]`.
pub open spec fn battery_energy(voltage: int, mah: int) -> int {
    min_of(max_of((100_000 * (voltage - EMPTY_VOLTAGE) + 54 * mah) / 225_000, 0), UNIT as int)
}

/// The voltage of a cell holding `mah`: `3.3 + 0.9 * mah / 2500`, rounded
/// down.
pub open spec fn voltage_at(mah: int) -> int {
    EMPTY_VOLTAGE + 9 * mah / 25_000
}

/// A single lithium cell, or a mains supply.
#[derive(Debug)]
pub struct BatteryMetabolism {
    pub voltage: u64,
    pub mah_remaining: u64,
    /// Fixed-point degrees Celsius.
    pub temp_celsius: i64,
    pub is_mains: bool,
}

impl Clone for BatteryMetabolism {
    fn clone(&self) -> (r: BatteryMetabolism)
        ensures
            r == *self,
    {
        BatteryMetabolism {
            voltage: self.voltage,
            mah_remaining: self.mah_remaining,
            temp_celsius: self.temp_celsius,
            is_mains: self.is_mains,
        }
    }
}

impl Default for BatteryMetabolism {
    /// A full cell at room temperature.
    fn default() -> (r: BatteryMetabolism)
        ensures
            r == BatteryMetabolism::full(),
    {
        BatteryMetabolism {
            voltage: FULL_VOLTAGE,
            mah_remaining: FULL_CAPACITY,
            temp_celsius: 25_000_000,
            is_mains: false,
        }
    }
}

impl BatteryMetabolism {
    /// A full cell at room temperature.
    pub open spec fn full() -> BatteryMetabolism {
        BatteryMetabolism {
            voltage: FULL_VOLTAGE,
            mah_remaining: FULL_CAPACITY,
            temp_celsius: 25_000_000,
            is_mains: false,
        }
    }

    /// The voltage and capacity that `mode` presets.
    pub open spec fn preset(mode: PowerMode) -> (u64, u64) {
        match mode {
            PowerMode::Normal => (4_000_000, 2_000_000_000),
            PowerMode::LowBattery => (3_600_000, 500_000_000),
            PowerMode::Critical => (3_300_000, 50_000_000),
        }
    }
}

impl Metabolism for BatteryMetabolism {
    open spec fn energy(&self) -> u64 {
        if self.is_mains {
            UNIT
        } else {
            battery_energy(self.voltage as int, self.mah_remaining as int) as u64
        }
    }

    open spec fn reserve(&self) -> u64 {
        self.mah_remaining
    }

    open spec fn depleted(&self) -> bool {
        self.mah_remaining == 0
    }

    open spec fn mains(&self) -> bool {
        self.is_mains
    }

    /// The charge goes down by `cost`, to nothing at the least, and the
    /// voltage follows the charge.
    open spec fn drawn(&self, cost: u64) -> BatteryMetabolism {
        BatteryMetabolism {
            mah_remaining: max_of(self.mah_remaining - cost, 0) as u64,
            voltage: voltage_at(max_of(self.mah_remaining - cost, 0)) as u64,
            ..*self
        }
    }

    /// Voltage and charge go to the preset of the mode.
    open spec fn reset(&self, mode: PowerMode) -> BatteryMetabolism {
        BatteryMetabolism {
            voltage: Self::preset(mode).0,
            mah_remaining: Self::preset(mode).1,
            ..*self
        }
    }

    fn energy_score(&self) -> (score: u64)
        ensures
            score <= UNIT,
            self.is_mains ==> score == UNIT,
            !self.is_mains ==> score == battery_energy(
                self.voltage as int,
                self.mah_remaining as int,
            ),
    {
        if self.is_mains {
            return UNIT;
        }
        let charge: u128 = 100_000 * (self.voltage as u128) + 54 * (self.mah_remaining as u128);
        let floor: u128 = 100_000 * (EMPTY_VOLTAGE as u128);
        if charge <= floor {
            0
        } else {
            let q: u128 = (charge - floor) / 225_000;
            if q >= UNIT as u128 {
                UNIT
            } else {
                q as u64
            }
        }
    }

    fn consume(&mut self, cost: u64) -> (granted: bool) {
        if self.mah_remaining == 0 {
            return false;
        }
        let left: u64 = if cost >= self.mah_remaining {
            0
        } else {
            self.mah_remaining - cost
        };
        let rise: u64 = mul_div(left, 9, 25_000);
        assert(9 * left / 25_000 <= left);
        self.mah_remaining = left;
        self.voltage = EMPTY_VOLTAGE + rise;
        true
    }

    fn remaining(&self) -> (left: u64) {
        self.mah_remaining
    }

    fn set_mode(&mut self, mode: PowerMode) {
        match mode {
            PowerMode::Normal => {
                self.voltage = 4_000_000;
                self.mah_remaining = 2_000_000_000;
            },
            PowerMode::LowBattery => {
                self.voltage = 3_600_000;
                self.mah_remaining = 500_000_000;
            },
            PowerMode::Critical => {
                self.voltage = 3_300_000;
                self.mah_remaining = 50_000_000;
            },
        }
    }

    fn is_mains_powered(&self) -> (mains: bool) {
        self.is_mains
    }
}

/// A metabolism that reports whatever score it was given.
#[derive(Debug, Clone, Copy)]
pub struct MockMetabolism {
    pub energy: u64,
    pub is_mains: bool,
}

impl MockMetabolism {
    pub fn new(energy: u64, is_mains: bool) -> (r: MockMetabolism)
        ensures
            r == (MockMetabolism { energy, is_mains }),
    {
        MockMetabolism { energy, is_mains }
    }
}

impl Metabolism for MockMetabolism {
    open spec fn energy(&self) -> u64 {
        self.energy
    }

    /// A score of one stands for a full cell of 2500 mAh.
    open spec fn reserve(&self) -> u64 {
        saturate(self.energy * 2500) as u64
    }

    open spec fn depleted(&self) -> bool {
        self.energy == 0
    }

    open spec fn mains(&self) -> bool {
        self.is_mains
    }

    /// The score goes down by `cost`, to nothing at the least.
    open spec fn drawn(&self, cost: u64) -> MockMetabolism {
        MockMetabolism { energy: max_of(self.energy - cost, 0) as u64, ..*self }
    }

    /// The mock has no presets: it stays as it is.
    open spec fn reset(&self, mode: PowerMode) -> MockMetabolism {
        *self
    }

    fn energy_score(&self) -> (score: u64) {
        self.energy
    }

    fn consume(&mut self, cost: u64) -> (granted: bool) {
        if self.energy == 0 {
            return false;
        }
        self.energy = if cost >= self.energy {
            0
        } else {
            self.energy - cost
        };
        true
    }

    fn remaining(&self) -> (left: u64) {
        mul_div(self.energy, 2500, 1)
    }

    fn set_mode(&mut self, mode: PowerMode) {
    }

    fn is_mains_powered(&self) -> (mains: bool) {
        self.is_mains
    }
}

} // verus!
