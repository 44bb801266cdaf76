use vstd::prelude::*;
use crate::appendage::{BranchPoint, LimbStructure, Terminus};
use crate::body::Vertebra;
use crate::head::Cranium;
use crate::primitives::Length;
use crate::skeletal::{Bone, BoneSegment, Joint, JointArticulation};

verus! {

/// Number of extra leaf bones a terminus spawns.
pub open spec fn spec_terminal_bone_count(t: Terminus) -> u8 {
    match t {
        Terminus::Tapered => 0u8,
        Terminus::Hoof => 0u8,
        Terminus::Sucker => 0u8,
        Terminus::Pincer => 2u8,
        Terminus::Claw { digits } => digits.spec_value(),
        Terminus::Paw { digits } => digits.spec_value(),
    }
}

/// Whether a terminus splits into several endpoints.
pub open spec fn spec_is_branching(t: Terminus) -> bool {
    match t {
        Terminus::Tapered | Terminus::Hoof | Terminus::Sucker => false,
        Terminus::Pincer | Terminus::Claw { .. } | Terminus::Paw { .. } => true,
    }
}

/// Capability: the entity is backed by one physical bone.
pub trait BoneSource {
    spec fn bone_view(&self) -> Bone;

    fn bone(&self) -> (r: &Bone)
        ensures
            *r == self.bone_view(),
    ;

    fn length(&self) -> (r: Length)
        ensures
            r == self.bone_view().length,
    ;
}

impl BoneSource for Bone {
    open spec fn bone_view(&self) -> Bone {
        *self
    }

    fn bone(&self) -> (r: &Bone) {
        self
    }

    fn length(&self) -> (r: Length) {
        self.length
    }
}

impl BoneSource for Vertebra {
    open spec fn bone_view(&self) -> Bone {
        self.bone
    }

    fn bone(&self) -> (r: &Bone) {
        &self.bone
    }

    fn length(&self) -> (r: Length) {
        self.bone.length
    }
}

impl BoneSource for BoneSegment {
    open spec fn bone_view(&self) -> Bone {
        self.bone
    }

    fn bone(&self) -> (r: &Bone) {
        &self.bone
    }

    fn length(&self) -> (r: Length) {
        self.bone.length
    }
}

impl BoneSource for Cranium {
    open spec fn bone_view(&self) -> Bone {
        self.bone
    }

    fn bone(&self) -> (r: &Bone) {
        &self.bone
    }

    fn length(&self) -> (r: Length) {
        self.bone.length
    }
}

/// Capability: the entity may carry a joint with articulation limits.
pub trait Articulated {
    spec fn joint_view(&self) -> Option<Joint>;

    fn joint(&self) -> (r: Option<&Joint>)
        ensures
            match self.joint_view() {
                Some(j) => r is Some && *r->0 == j,
                None => r is None,
            },
    ;

    fn articulation(&self) -> (r: Option<&JointArticulation>)
        ensures
            match self.joint_view() {
                Some(j) => r is Some && *r->0 == j.articulation,
                None => r is None,
            },
    ;
}

impl Articulated for BoneSegment {
    open spec fn joint_view(&self) -> Option<Joint> {
        self.distal_joint
    }

    fn joint(&self) -> (r: Option<&Joint>) {
        self.distal_joint.as_ref()
    }

    fn articulation(&self) -> (r: Option<&JointArticulation>) {
        match &self.distal_joint {
            Some(j) => Some(&j.articulation),
            None => None,
        }
    }
}

/// Vertebrae carry no articulation yet: spinal joint limits are an open
/// question of the anatomy model, left as an explicit stub.
impl Articulated for Vertebra {
    open spec fn joint_view(&self) -> Option<Joint> {
        None
    }

    fn joint(&self) -> (r: Option<&Joint>) {
        None
    }

    fn articulation(&self) -> (r: Option<&JointArticulation>) {
        None
    }
}

/// Capability: the entity is a walkable chain of bone segments.
pub trait BoneChain {
    spec fn segments_view(&self) -> Seq<BoneSegment>;

    spec fn branching_view(&self) -> bool;

    spec fn terminus_view(&self) -> Option<Terminus>;

    fn segment_count(&self) -> (r: usize)
        ensures
            r == self.segments_view().len(),
    ;

    fn segment(&self, index: usize) -> (r: Option<&BoneSegment>)
        ensures
            index < self.segments_view().len() ==> r is Some && *r->0 == self.segments_view()[index as int],
            index >= self.segments_view().len() ==> r is None,
    ;

    fn branch_points(&self) -> (r: Option<&BranchPoint>)
        ensures
            r is Some <==> self.branching_view(),
    ;

    fn terminus(&self) -> (r: Option<&Terminus>)
        ensures
            match self.terminus_view() {
                Some(t) => r is Some && *r->0 == t,
                None => r is None,
            },
    ;
}

impl BoneChain for LimbStructure {
    open spec fn segments_view(&self) -> Seq<BoneSegment> {
        self.segments@
    }

    open spec fn branching_view(&self) -> bool {
        self.branching is Some
    }

    open spec fn terminus_view(&self) -> Option<Terminus> {
        Some(self.terminus)
    }

    fn segment_count(&self) -> (r: usize) {
        self.segments.len()
    }

    fn segment(&self, index: usize) -> (r: Option<&BoneSegment>) {
        if index < self.segments.len() {
            Some(&self.segments[index])
        } else {
            None
        }
    }

    fn branch_points(&self) -> (r: Option<&BranchPoint>) {
        self.branching.as_ref()
    }

    fn terminus(&self) -> (r: Option<&Terminus>) {
        Some(&self.terminus)
    }
}

/// Walks the segments of a bone chain in order.
pub struct BoneChainIter<'a, C: BoneChain> {
    chain: &'a C,
    index: usize,
}

impl<'a, C: BoneChain> BoneChainIter<'a, C> {
    /// Segments not yet yielded.
    pub closed spec fn remaining(self) -> Seq<BoneSegment> {
        if self.index as int <= self.chain.segments_view().len() {
            self.chain.segments_view().skip(self.index as int)
        } else {
            Seq::empty()
        }
    }

    /// Start walking `chain` from its first segment.
    pub fn new(chain: &'a C) -> (r: BoneChainIter<'a, C>)
        ensures
            r.remaining() == chain.segments_view(),
    {
        let r = BoneChainIter { chain, index: 0 };
        proof {
            assert(chain.segments_view().skip(0) =~= chain.segments_view());
        }
        r
    }

    /// The next segment of the chain, if one is left.
    pub fn next(&mut self) -> (r: Option<&'a BoneSegment>)
        ensures
            old(self).remaining().len() == 0 ==> r is None && final(self).remaining() == old(
                self,
            ).remaining(),
            old(self).remaining().len() > 0 ==> r is Some && *r->0 == old(self).remaining()[0]
                && final(self).remaining() == old(self).remaining().drop_first(),
    {
        let total = self.chain.segment_count();
        let seg = self.chain.segment(self.index);
        match seg {
            None => {
                proof {
                    if self.index as int <= self.chain.segments_view().len() {
                        assert(self.chain.segments_view().skip(self.index as int).len() == 0);
                    }
                }
                None
            },
            Some(segment) => {
                self.index = self.index + 1;
                proof {
                    assert(old(self).remaining()[0] == self.chain.segments_view()[old(
                        self,
                    ).index as int]);
                    assert(self.chain.segments_view().skip(old(self).index as int).drop_first()
                        =~= self.chain.segments_view().skip(old(self).index as int + 1));
                }
                Some(segment)
            },
        }
    }
}

/// Capability: the entity ends a limb chain and may spawn terminal bones.
pub trait Terminable {
    spec fn term_count(&self) -> u8;

    spec fn term_branching(&self) -> bool;

    /// Number of additional leaf bones this terminus creates.
    fn terminal_bone_count(&self) -> (r: u8)
        ensures
            r == self.term_count(),
    ;

    /// Whether this terminus branches into multiple endpoints.
    fn is_branching(&self) -> (r: bool)
        ensures
            r == self.term_branching(),
    ;
}

impl Terminable for Terminus {
    open spec fn term_count(&self) -> u8 {
        spec_terminal_bone_count(*self)
    }

    open spec fn term_branching(&self) -> bool {
        spec_is_branching(*self)
    }

    fn terminal_bone_count(&self) -> (r: u8) {
        match self {
            Terminus::Tapered => 0,
            Terminus::Hoof => 0,
            Terminus::Sucker => 0,
            Terminus::Pincer => 2,
            Terminus::Claw { digits } => digits.value(),
            Terminus::Paw { digits } => digits.value(),
        }
    }

    fn is_branching(&self) -> (r: bool) {
        match self {
            Terminus::Tapered | Terminus::Hoof | Terminus::Sucker => false,
            Terminus::Pincer | Terminus::Claw { .. } | Terminus::Paw { .. } => true,
        }
    }
}

} // verus!
