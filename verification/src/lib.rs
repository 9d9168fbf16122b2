//! Hypha: an energy-aware gossip mesh for intermittently connected nodes.
//!
//! Every scalar of the protocol (energy score, conductivity, pressure, pulse
//! phase, reach intensity) is a fixed-point number; see [`units`].

pub mod units;
pub mod ids;
pub mod sorting;
pub mod agent;
pub mod metabolism;
pub mod sensor;
pub mod config;
pub mod peer;
pub mod control;
pub mod platform;
pub mod pulse;
pub mod mesh;
pub mod eval;
pub mod lib0;
pub mod sync;
pub mod capabilities;
pub mod mycelium;
pub mod compute;
pub mod node;
pub mod laws;

pub use agent::{Bid, Capability, EnergyStatus, Task};
pub use config::MeshConfig;
pub use control::MeshControl;
pub use mesh::{MeshStats, TopicMesh};
pub use metabolism::{BatteryMetabolism, Metabolism, MockMetabolism, PowerMode};
pub use node::SporeNode;
pub use peer::MeshPeer;
pub use sensor::{BasicSensor, VirtualSensor};
