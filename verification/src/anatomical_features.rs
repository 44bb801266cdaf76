use vstd::prelude::*;
use crate::primitives::{Count, Length};
use crate::skeletal::BoneSegment;

verus! {

/// The sensory modality an organ serves.
#[derive(Clone, Copy, Debug, PartialEq, Eq, Structural, Hash)]
pub enum SensoryType {
    Ocular,
    Auditory,
    Olfactory,
    Tactile,
}

/// A sense organ socketed on the cranium.
#[derive(Clone, Copy, Debug)]
pub struct SensoryOrgan {
    pub kind: SensoryType,
    pub size: Length,
}

/// A rigid outgrowth such as a horn.
#[derive(Clone, Copy, Debug)]
pub struct Protrusion {
    pub length: Length,
}

/// A row of small spines along the back.
#[derive(Clone, Copy, Debug)]
pub struct SpineRow {
    pub count: Count,
    pub spine_length: Length,
    pub spacing: Length,
}

/// A fin blade with its membrane.
#[derive(Clone, Copy, Debug)]
pub struct FinStructure {
    pub height: Length,
    pub length: Length,
    pub membrane_thickness: Length,
}

/// The jaw as a chain of bone segments.
#[derive(Clone, Debug)]
pub struct MandibleStructure {
    pub segments: Vec<BoneSegment>,
}

/// Any non-appendage anatomical feature that can fill a socket.
#[derive(Clone, Debug)]
pub enum AnatomicalFeature {
    Sensory(SensoryOrgan),
    Horn(Protrusion),
    Spines(SpineRow),
    Fin(FinStructure),
    Mandible(MandibleStructure),
}

} // verus!
