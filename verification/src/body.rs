use vstd::prelude::*;
use crate::anatomical_features::AnatomicalFeature;
use crate::appendage::Appendage;
use crate::primitives::{NonEmpty, VertebraIndex};
use crate::skeletal::Bone;
use crate::sockets_symmetry::SymmetricSocket;

verus! {

/// One vertebra of the spine.
#[derive(Clone, Copy, Debug)]
pub struct Vertebra {
    pub bone: Bone,
}

/// A structure socketed at a particular vertebra.
#[derive(Debug)]
pub struct SpinalAttachment<T> {
    pub vertebra_index: VertebraIndex,
    pub socket: SymmetricSocket<T>,
}

/// The spine with everything hanging from it.
#[derive(Debug)]
pub struct Spine {
    pub vertebrae: NonEmpty<Vertebra>,
    pub appendages: Vec<SpinalAttachment<Appendage>>,
    pub features: Vec<SpinalAttachment<AnatomicalFeature>>,
}

/// The trunk of the body.
#[derive(Debug)]
pub struct Torso {
    pub spine: Spine,
}

} // verus!
