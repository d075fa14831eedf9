//! The payload of an `AirQualityPacket`.

use vstd::prelude::*;
use super::{DeltaBatch, FullSample};

verus! {

/// Either a keyframe or a run of deltas.
pub enum Payload {
    FullSample(FullSample),
    DeltaBatch(DeltaBatch),
}

} // verus!
