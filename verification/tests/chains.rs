use creature_rig::appendage::{DigitCount, LimbStructure, Terminus};
use creature_rig::body::Vertebra;
use creature_rig::primitives::{Length, Radians};
use creature_rig::skeletal::{ArticulationRange, Bone, BoneSegment, Joint, JointArticulation};
use creature_rig::traits::{Articulated, BoneChain, BoneChainIter, BoneSource};

fn seg(len: i64) -> BoneSegment {
    BoneSegment { bone: Bone { length: Length::new(len).unwrap() }, distal_joint: None }
}

fn full_articulation() -> JointArticulation {
    let range = ArticulationRange { min: Radians::new(-1571), max: Radians::new(1571) };
    JointArticulation { flexion: range, rotation: range, abduction: range }
}

#[test]
fn bone_sources_expose_lengths() {
    let b = Bone { length: Length::new(321).unwrap() };
    assert_eq!(b.length().value(), 321);
    let v = Vertebra { bone: Bone { length: Length::new(111).unwrap() } };
    assert_eq!(v.length().value(), 111);
    assert_eq!(v.bone().length.value(), 111);
    let s = seg(222);
    assert_eq!(s.length().value(), 222);
}

#[test]
fn articulated_segments_report_their_joint() {
    let mut s = seg(100);
    assert!(s.joint().is_none());
    assert!(s.articulation().is_none());
    s.distal_joint = Some(Joint { articulation: full_articulation() });
    assert!(s.joint().is_some());
    let art = s.articulation().unwrap();
    assert_eq!(art.flexion.max.value(), 1571);
    let v = Vertebra { bone: Bone { length: Length::new(100).unwrap() } };
    assert!(v.joint().is_none());
    assert!(v.articulation().is_none());
}

#[test]
fn limb_structure_is_a_bone_chain() {
    let limb = LimbStructure {
        segments: vec![seg(100), seg(200), seg(300)],
        branching: None,
        terminus: Terminus::Claw { digits: DigitCount::new(2).unwrap() },
    };
    assert_eq!(limb.segment_count(), 3);
    assert_eq!(limb.segment(1).unwrap().bone.length.value(), 200);
    assert!(limb.segment(3).is_none());
    assert!(limb.branch_points().is_none());
    assert!(matches!(limb.terminus(), Some(Terminus::Claw { .. })));
}

#[test]
fn bone_chain_iter_walks_in_order() {
    let limb = LimbStructure {
        segments: vec![seg(100), seg(200), seg(300)],
        branching: None,
        terminus: Terminus::Tapered,
    };
    let mut iter = BoneChainIter::new(&limb);
    let mut lengths: Vec<i64> = Vec::new();
    while let Some(s) = iter.next() {
        lengths.push(s.bone.length.value());
    }
    assert_eq!(lengths, vec![100, 200, 300]);
    assert!(iter.next().is_none());
}
