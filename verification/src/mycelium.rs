//! The topics of the overlay and what travels on them.

use vstd::prelude::*;
use vstd::string::StringExecFns;

verus! {

/// Which transports a node uses.
#[derive(Debug, Clone, Copy, PartialEq, Eq, Structural)]
pub enum NetProfile {
    /// TCP only.
    Tcp,
    /// TCP and QUIC.
    TcpQuic,
    /// For mobile nodes on little power: QUIC and relays preferred.
    Mobile,
}

impl Default for NetProfile {
    fn default() -> (profile: NetProfile)
        ensures
            profile == NetProfile::Tcp,
    {
        NetProfile::Tcp
    }
}

impl NetProfile {
    /// Whether the profile brings QUIC beside TCP.
    pub fn uses_quic(&self) -> (quic: bool)
        ensures
            quic == !(*self == NetProfile::Tcp),
    {
        match self {
            NetProfile::Tcp => false,
            NetProfile::TcpQuic => true,
            NetProfile::Mobile => true,
        }
    }
}

/// A short, urgent signal.
#[derive(Debug)]
pub struct Spike {
    pub source: String,
    /// From 0 to 255.
    pub intensity: u8,
    /// Which pattern of the vocabulary the spike follows.
    pub pattern_id: u8,
}

impl Clone for Spike {
    fn clone(&self) -> (r: Spike)
        ensures
            r.source@ == self.source@,
            r.intensity == self.intensity,
            r.pattern_id == self.pattern_id,
    {
        Spike {
            source: self.source.clone(),
            intensity: self.intensity,
            pattern_id: self.pattern_id,
        }
    }
}

/// Topic on which nodes advertise their energy.
pub const STATUS_TOPIC: &'static str = "hypha_energy_status";

/// Topic on which meshes are maintained.
pub const CONTROL_TOPIC: &'static str = "hypha_mesh_control";

/// Topic on which tasks are offered.
pub const TASK_TOPIC: &'static str = "hypha_task_stream";

/// Topic on which spikes travel.
pub const SPIKE_TOPIC: &'static str = "hypha_spikes";

/// Topic on which the replicas of the shared state talk.
pub const STATE_TOPIC: &'static str = "hypha_global_state";

/// What a topic carries.
#[derive(Debug, Clone, Copy, PartialEq, Eq, Structural)]
pub enum TopicClass {
    Status,
    Control,
    Task,
    Spike,
    State,
    /// Payload that the node stores and may relay.
    Other,
}

/// What the topic of the given name carries.
pub open spec fn class_of(topic: Seq<char>) -> TopicClass {
    if topic == STATUS_TOPIC@ {
        TopicClass::Status
    } else if topic == CONTROL_TOPIC@ {
        TopicClass::Control
    } else if topic == TASK_TOPIC@ {
        TopicClass::Task
    } else if topic == SPIKE_TOPIC@ {
        TopicClass::Spike
    } else if topic == STATE_TOPIC@ {
        TopicClass::State
    } else {
        TopicClass::Other
    }
}

/// Classifies a topic by its name.
pub fn classify(topic: &str) -> (class: TopicClass)
    ensures
        class == class_of(topic@),
{
    let name = topic.to_owned();
    if name == String::from_str(STATUS_TOPIC) {
        TopicClass::Status
    } else if name == String::from_str(CONTROL_TOPIC) {
        TopicClass::Control
    } else if name == String::from_str(TASK_TOPIC) {
        TopicClass::Task
    } else if name == String::from_str(SPIKE_TOPIC) {
        TopicClass::Spike
    } else if name == String::from_str(STATE_TOPIC) {
        TopicClass::State
    } else {
        TopicClass::Other
    }
}

} // verus!
