use vstd::prelude::*;
use crate::primitives::Count;
use crate::spatial::{LocalPosition, Vec3};

verus! {

/// An attachment point that may hold one structure of type `T`.
#[derive(Clone, Debug)]
pub struct Socket<T> {
    pub position: LocalPosition,
    pub normal: Vec3,
    pub attachment: Option<T>,
}

/// A matched left/right pair of values.
#[derive(Clone, Debug)]
pub struct BilateralPair<T> {
    pub left: T,
    pub right: T,
}

/// A socket that sits on the midline or comes as a mirrored pair.
#[derive(Clone, Debug)]
pub enum SymmetricSocket<T> {
    Medial(Socket<T>),
    Lateral(BilateralPair<Socket<T>>),
}

/// The global symmetry plan of a body.
#[derive(Clone, Copy, Debug, PartialEq, Eq, Structural)]
pub enum BodySymmetry {
    Bilateral,
    Radial { fold_count: Count },
    Asymmetric,
}

impl Default for BodySymmetry {
    fn default() -> (r: BodySymmetry)
        ensures
            r == BodySymmetry::Bilateral,
    {
        BodySymmetry::Bilateral
    }
}

} // verus!
