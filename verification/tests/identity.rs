use creature_rig::appendage::{AppendageClass, DigitCount, Terminus};
use creature_rig::bone_id::{BoneClass, BoneId, Side};
use creature_rig::primitives::{Count, InclusiveRange, Length, NonEmpty, Normalized, VertebraIndex};
use creature_rig::spatial::Vec3;
use creature_rig::traits::Terminable;
use creature_rig::RestTransform;

#[test]
fn root_name_is_plain() {
    assert_eq!(BoneId::root().name(), "root");
    assert_eq!(BoneId::head().name(), "head");
    assert_eq!(BoneId::mandible().name(), "mandible");
}

#[test]
fn spine_name_carries_index() {
    assert_eq!(BoneId::spine(0).name(), "spine_0");
    assert_eq!(BoneId::spine(17).name(), "spine_17");
    assert_eq!(BoneId::spine(255).name(), "spine_255");
}

#[test]
fn limb_names_carry_class_and_side() {
    assert_eq!(BoneId::limb(AppendageClass::Forelimb, Some(Side::Left), 0).name(), "forelimb_0_L");
    assert_eq!(BoneId::limb(AppendageClass::Hindlimb, Some(Side::Right), 2).name(), "hindlimb_2_R");
    assert_eq!(BoneId::limb(AppendageClass::Wing, None, 1).name(), "wing_1");
    assert_eq!(BoneId::limb(AppendageClass::Tail, None, 3).name(), "tail_3");
    assert_eq!(BoneId::limb(AppendageClass::Tentacle, Some(Side::Left), 4).name(), "tentacle_4_L");
    assert_eq!(BoneId::limb(AppendageClass::Antenna, Some(Side::Right), 5).name(), "antenna_5_R");
}

#[test]
fn branch_path_extends_the_name() {
    let id = BoneId::limb(AppendageClass::Forelimb, Some(Side::Left), 1).with_branch(2);
    assert_eq!(id.name(), "forelimb_1_L_b0_2");
    let nested = id.with_branch(0);
    assert_eq!(nested.name(), "forelimb_1_L_b0_2_b1_0");
}

#[test]
fn digit_names() {
    assert_eq!(BoneId::digit(Some(Side::Right), 1).name(), "digit_1_R");
    assert_eq!(BoneId::digit(None, 0).name(), "digit_0");
}

#[test]
fn bone_id_equality_is_structural() {
    let a = BoneId::limb(AppendageClass::Wing, Some(Side::Left), 1).with_branch(3);
    let b = BoneId::limb(AppendageClass::Wing, Some(Side::Left), 1).with_branch(3);
    let c = BoneId::limb(AppendageClass::Wing, Some(Side::Left), 1).with_branch(4);
    assert!(a == b);
    assert!(a != c);
    assert!(BoneId::root() != BoneId::head());
}

#[test]
fn side_mirror_signs() {
    assert_eq!(Side::Left.mirror_x(), 1);
    assert_eq!(Side::Right.mirror_x(), -1);
}

#[test]
fn terminus_terminal_bone_counts() {
    assert_eq!(Terminus::Tapered.terminal_bone_count(), 0);
    assert_eq!(Terminus::Hoof.terminal_bone_count(), 0);
    assert_eq!(Terminus::Sucker.terminal_bone_count(), 0);
    assert_eq!(Terminus::Pincer.terminal_bone_count(), 2);
    let claw = Terminus::Claw { digits: DigitCount::new(3).unwrap() };
    assert_eq!(claw.terminal_bone_count(), 3);
    let paw = Terminus::Paw { digits: DigitCount::new(5).unwrap() };
    assert_eq!(paw.terminal_bone_count(), 5);
}

#[test]
fn terminus_branching_flags() {
    assert!(!Terminus::Tapered.is_branching());
    assert!(!Terminus::Hoof.is_branching());
    assert!(!Terminus::Sucker.is_branching());
    assert!(Terminus::Pincer.is_branching());
    assert!(Terminus::Claw { digits: DigitCount::new(1).unwrap() }.is_branching());
    assert!(Terminus::Paw { digits: DigitCount::new(2).unwrap() }.is_branching());
}

#[test]
fn digit_count_rejects_zero() {
    assert!(DigitCount::new(0).is_none());
    assert_eq!(DigitCount::new(4).unwrap().value(), 4);
}

#[test]
fn length_bounds() {
    assert!(Length::new(0).is_none());
    assert!(Length::new(-5).is_none());
    assert!(Length::new(1_000_000_001).is_none());
    assert_eq!(Length::new(250).unwrap().value(), 250);
}

#[test]
fn normalized_bounds() {
    assert!(Normalized::new(-1).is_none());
    assert!(Normalized::new(1001).is_none());
    assert_eq!(Normalized::new(1000).unwrap().value(), 1000);
}

#[test]
fn inclusive_range_count() {
    let r = InclusiveRange::new(Count::new(2), Count::new(5));
    assert!(r.contains(Count::new(2)));
    assert!(r.contains(Count::new(5)));
    assert!(!r.contains(Count::new(6)));
    let values = r.iter();
    assert_eq!(values.len(), 4);
    assert_eq!(values[0].value(), 2);
    assert_eq!(values[3].value(), 5);
}

#[test]
fn inclusive_range_vertebra_index() {
    let r = InclusiveRange::new(VertebraIndex(1), VertebraIndex(3));
    assert!(r.contains(VertebraIndex(2)));
    assert!(!r.contains(VertebraIndex(0)));
    let values = r.iter();
    assert_eq!(values.len(), 3);
    assert_eq!(values[2].0, 3);
}

#[test]
fn non_empty_keeps_order() {
    let mut ne = NonEmpty::new(10u32);
    ne.push(20);
    ne.push(30);
    assert_eq!(ne.len(), 3);
    assert_eq!(*ne.first(), 10);
    assert_eq!(*ne.get(2), 30);
    let all: Vec<&u32> = ne.iter();
    assert_eq!(*all[1], 20);
    assert!(NonEmpty::<u32>::from_vec(vec![]).is_none());
    let from = NonEmpty::from_vec(vec![7u32, 8]).unwrap();
    assert_eq!(*from.get(1), 8);
}

#[test]
fn rest_transform_ops() {
    let t = RestTransform::from_translation(Vec3::new(100, 200, 300));
    assert_eq!(t.translation.x, 100);
    let shifted = t.with_lateral_offset(50);
    assert_eq!(shifted.translation.x, 150);
    let mirrored = shifted.mirrored_x();
    assert_eq!(mirrored.translation.x, -150);
    assert_eq!(mirrored.translation.y, 200);
    let along = RestTransform::from_offset_along_parent(400, Vec3::new(0, -1000, 0));
    assert_eq!(along.translation.y, -400);
    assert_eq!(along.translation.z, 0);
    let default = RestTransform::default();
    assert_eq!(default.translation, Vec3::zero());
}
