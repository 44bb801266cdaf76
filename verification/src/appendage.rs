use vstd::prelude::*;
use crate::primitives::{Count, Length, Normalized};
use crate::skeletal::BoneSegment;

verus! {

/// The broad locomotor role of an appendage; it picks the extension axis.
#[derive(Clone, Copy, Debug, PartialEq, Eq, Structural, Hash)]
pub enum AppendageClass {
    Forelimb,
    Hindlimb,
    Wing,
    Tentacle,
    Tail,
    Antenna,
}

/// A stretch of membrane between two bones of one appendage.
#[derive(Clone, Copy, Debug)]
pub struct MembraneSpan {
    pub proximal_bone: usize,
    pub distal_bone: usize,
    pub thickness: Length,
    pub scallop_depth: Normalized,
}

/// The full membrane surface of a winged appendage.
#[derive(Clone, Debug)]
pub struct Patagium {
    pub spans: Vec<MembraneSpan>,
}

/// A strictly positive number of terminal digits.
#[derive(Clone, Copy, Debug, PartialEq, Eq, Structural, Hash)]
pub struct DigitCount(u8);

impl DigitCount {
    pub closed spec fn spec_value(self) -> u8 {
        self.0
    }

    pub fn new(value: u8) -> (r: Option<DigitCount>)
        ensures
            r is Some <==> value > 0,
            r is Some ==> r->0.spec_value() == value,
    {
        if value > 0 {
            Some(DigitCount(value))
        } else {
            None
        }
    }

    pub fn value(self) -> (r: u8)
        ensures
            r == self.spec_value(),
    {
        self.0
    }
}

/// How a limb chain ends.
#[derive(Clone, Copy, Debug, PartialEq, Eq, Structural, Hash)]
pub enum Terminus {
    Tapered,
    Claw { digits: DigitCount },
    Paw { digits: DigitCount },
    Hoof,
    Sucker,
    Pincer,
}

/// Where a limb chain splits into several child chains.
#[derive(Debug)]
pub struct BranchPoint {
    pub parent_segment: usize,
    pub branch_count: Count,
    pub branch: Box<LimbStructure>,
}

/// An ordered chain of bone segments with at most one branch point and a terminus.
#[derive(Debug)]
pub struct LimbStructure {
    pub segments: Vec<BoneSegment>,
    pub branching: Option<BranchPoint>,
    pub terminus: Terminus,
}

/// A complete appendage as attached to a spinal socket.
#[derive(Debug)]
pub struct Appendage {
    pub class: AppendageClass,
    pub structure: LimbStructure,
    pub patagium: Option<Patagium>,
}

} // verus!
