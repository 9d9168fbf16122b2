//! Mesh control messages.

use vstd::prelude::*;
use crate::ids::{clone_ids, texts};

verus! {

/// Backoff, in milliseconds, that goes with a prune for low score or
/// overflow, and with the refusal of a graft.
pub const PRUNE_BACKOFF: u64 = 60_000;

/// Backoff, in milliseconds, that goes with the replacement of a weak link.
pub const REPLACE_BACKOFF: u64 = 30_000;

/// The verbs by which meshes are maintained.
#[derive(Debug)]
pub enum MeshControl {
    /// The sender adds the receiver to its mesh.
    Graft { topic: String },
    /// The sender removes the receiver from its mesh; the receiver should
    /// not graft again for `backoff` milliseconds.
    Prune { topic: String, backoff: u64 },
    /// The sender holds these messages.
    IHave { topic: String, message_ids: Vec<String> },
    /// The sender asks for these messages.
    IWant { message_ids: Vec<String> },
}

/// The mathematical value of a [`MeshControl`].
pub enum ControlView {
    Graft { topic: Seq<char> },
    Prune { topic: Seq<char>, backoff: u64 },
    IHave { topic: Seq<char>, message_ids: Seq<Seq<char>> },
    IWant { message_ids: Seq<Seq<char>> },
}

impl View for MeshControl {
    type V = ControlView;

    open spec fn view(&self) -> ControlView {
        match self {
            MeshControl::Graft { topic } => ControlView::Graft { topic: topic@ },
            MeshControl::Prune { topic, backoff } => ControlView::Prune {
                topic: topic@,
                backoff: *backoff,
            },
            MeshControl::IHave { topic, message_ids } => ControlView::IHave {
                topic: topic@,
                message_ids: texts(message_ids@),
            },
            MeshControl::IWant { message_ids } => ControlView::IWant {
                message_ids: texts(message_ids@),
            },
        }
    }
}

impl Clone for MeshControl {
    fn clone(&self) -> (r: MeshControl)
        ensures
            r@ == self@,
    {
        match self {
            MeshControl::Graft { topic } => MeshControl::Graft { topic: topic.clone() },
            MeshControl::Prune { topic, backoff } => MeshControl::Prune {
                topic: topic.clone(),
                backoff: *backoff,
            },
            MeshControl::IHave { topic, message_ids } => MeshControl::IHave {
                topic: topic.clone(),
                message_ids: clone_ids(message_ids),
            },
            MeshControl::IWant { message_ids } => MeshControl::IWant {
                message_ids: clone_ids(message_ids),
            },
        }
    }
}

} // verus!
