use vstd::prelude::*;
use crate::appendage::AppendageClass;
use crate::primitives::{Count, VertebraIndex};

verus! {

/// Why a species description is structurally unsound.
#[derive(Clone, Debug, PartialEq, Eq)]
pub enum SpeciesValidationError {
    EmptyVertebraRange,
    SocketIndexOutOfBounds { socket_index: VertebraIndex, max_vertebrae: Count },
    EmptyAllowedList { context: String },
}

/// Why a hand-built organism does not fit its species.
#[derive(Clone, Debug, PartialEq, Eq)]
pub enum OrganismValidationError {
    VertebraIndexOutOfBounds { index: VertebraIndex, vertebra_count: usize },
    AppendageClassMismatch { expected: AppendageClass, found: AppendageClass },
    RequiredSocketEmpty { vertebra_index: VertebraIndex },
    MissingHead,
}

/// Why generating an organism from a species failed.
#[derive(Clone, Debug, PartialEq, Eq)]
pub enum GenerationError {
    InvalidSeed,
    ConstraintUnsatisfiable { context: String },
}

} // verus!
