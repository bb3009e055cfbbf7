//! The payload that an [`Envelope`](crate::Envelope) carries.

use vstd::prelude::*;

use crate::messages::{Checkpoint, CheckpointView, DynamicFrame, DynamicFrameView};

verus! {

/// What a frame carries: a full checkpoint, or the dynamic state between two
/// checkpoints (field tags 10 and 11 of the envelope).
#[derive(Clone, Debug, PartialEq)]
pub enum Payload {
    Checkpoint(Checkpoint),
    Dynamic(DynamicFrame),
}

/// The mathematical value of a [`Payload`].
#[verifier::ext_equal]
pub enum PayloadView {
    Checkpoint(CheckpointView),
    Dynamic(DynamicFrameView),
}

impl View for Payload {
    type V = PayloadView;

    open spec fn view(&self) -> PayloadView {
        match self {
            Payload::Checkpoint(c) => PayloadView::Checkpoint(c@),
            Payload::Dynamic(d) => PayloadView::Dynamic(d@),
        }
    }
}

} // verus!
