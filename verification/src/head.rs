use vstd::prelude::*;
use crate::anatomical_features::{AnatomicalFeature, MandibleStructure, SensoryOrgan};
use crate::skeletal::Bone;
use crate::sockets_symmetry::{Socket, SymmetricSocket};

verus! {

/// The skull: its bone plus the sockets it offers.
#[derive(Clone, Debug)]
pub struct Cranium {
    pub bone: Bone,
    pub sensory_sockets: Vec<SymmetricSocket<SensoryOrgan>>,
    pub mandible_socket: Option<Socket<MandibleStructure>>,
    pub feature_sockets: Vec<SymmetricSocket<AnatomicalFeature>>,
}

} // verus!
