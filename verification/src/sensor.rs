//! Virtual sensors: named readings that the mesh can refresh.

use vstd::prelude::*;

verus! {

/// A named fixed-point reading.
pub trait VirtualSensor: Send + Sync {
    /// The sensor's name.
    spec fn label(&self) -> Seq<char>;

    /// The reading that [`VirtualSensor::read`] reports.
    spec fn value(&self) -> i64;

    fn name(&self) -> (name: &str)
        ensures
            name@ == self.label(),
    ;

    fn read(&self) -> (value: i64)
        ensures
            value == self.value(),
    ;

    /// Replaces the reading by one that the mesh delivered.
    fn update_from_mesh(&mut self, value: i64)
        ensures
            final(self).value() == value,
            final(self).label() == old(self).label(),
    ;
}

/// A sensor that remembers the last value it was given.
pub struct BasicSensor {
    pub name: String,
    pub last_value: i64,
}

impl VirtualSensor for BasicSensor {
    open spec fn label(&self) -> Seq<char> {
        self.name@
    }

    open spec fn value(&self) -> i64 {
        self.last_value
    }

    fn name(&self) -> (name: &str) {
        self.name.as_str()
    }

    fn read(&self) -> (value: i64) {
        self.last_value
    }

    fn update_from_mesh(&mut self, value: i64) {
        self.last_value = value;
    }
}

} // verus!
