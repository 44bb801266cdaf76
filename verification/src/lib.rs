pub mod anatomical_features;
pub mod appendage;
pub mod body;
pub mod bone_id;
pub mod generator;
pub mod head;
pub mod laws;
pub mod node;
pub mod organism;
pub mod primitives;
pub mod skeletal;
pub mod sockets_symmetry;
pub mod spatial;
pub mod species;
pub mod traits;
pub mod validation_errors;

pub use generator::{SkeletonConfig, SkeletonGenerator};
pub use node::{DepthFirstIter, GeneratedSkeleton, RestTransform, SkeletonNode};
pub use organism::{Organism, UnvalidatedOrganism};
