use vstd::prelude::*;
use crate::primitives::{Length, Radians};

verus! {

/// Inclusive angular range one articulation degree of freedom may sweep.
#[derive(Clone, Copy, Debug, PartialEq, Eq, Structural)]
pub struct ArticulationRange {
    pub min: Radians,
    pub max: Radians,
}

/// Joint limits for the three anatomical degrees of freedom.
#[derive(Clone, Copy, Debug, PartialEq, Eq, Structural)]
pub struct JointArticulation {
    pub flexion: ArticulationRange,
    pub rotation: ArticulationRange,
    pub abduction: ArticulationRange,
}

/// A single physical bone; its surrounding soft tissue is out of scope here.
#[derive(Clone, Copy, Debug, PartialEq, Eq, Structural)]
pub struct Bone {
    pub length: Length,
}

/// A joint connecting a bone segment to the next one down the chain.
#[derive(Clone, Copy, Debug, PartialEq, Eq, Structural)]
pub struct Joint {
    pub articulation: JointArticulation,
}

/// One link of a bone chain: the bone plus the optional joint at its far end.
#[derive(Clone, Copy, Debug, PartialEq, Eq, Structural)]
pub struct BoneSegment {
    pub bone: Bone,
    pub distal_joint: Option<Joint>,
}

} // verus!
