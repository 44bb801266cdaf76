use creature_rig::anatomical_features::MandibleStructure;
use creature_rig::appendage::{
    Appendage, AppendageClass, BranchPoint, DigitCount, LimbStructure, Terminus,
};
use creature_rig::body::{Spine, SpinalAttachment, Torso, Vertebra};
use creature_rig::bone_id::{BoneClass, BoneId, Side};
use creature_rig::head::Cranium;
use creature_rig::organism::{Organism, UnvalidatedOrganism};
use creature_rig::primitives::{
    Count, GenomeSeed, InclusiveRange, Length, NonEmpty, ValueRange, VertebraIndex,
};
use creature_rig::skeletal::{Bone, BoneSegment};
use creature_rig::sockets_symmetry::{BilateralPair, BodySymmetry, Socket, SymmetricSocket};
use creature_rig::spatial::{LocalPosition, Vec3};
use creature_rig::species::{
    BoneGenes, CraniumGenes, Species, SpineGenes, TorsoGenes, UnvalidatedSpecies,
};
use creature_rig::{SkeletonGenerator, SkeletonNode};

fn bone(len: i64) -> Bone {
    Bone { length: Length::new(len).unwrap() }
}

fn segment(len: i64) -> BoneSegment {
    BoneSegment { bone: bone(len), distal_joint: None }
}

fn simple_species() -> Species {
    let genes = BoneGenes {
        length: ValueRange { min: Length::new(100).unwrap(), max: Length::new(1000).unwrap() },
    };
    let input = UnvalidatedSpecies {
        name: String::from("testbeast"),
        symmetry: BodySymmetry::Bilateral,
        head: CraniumGenes {
            bone: genes,
            sensory_sockets: vec![],
            mandible: None,
            feature_sockets: vec![],
        },
        torso: TorsoGenes {
            spine: SpineGenes {
                vertebra_count: InclusiveRange::new(Count::new(1), Count::new(16)),
                vertebra: genes,
                appendage_sockets: vec![],
                feature_sockets: vec![],
            },
        },
    };
    Species::new(input).unwrap()
}

fn cranium(mandible: Option<MandibleStructure>) -> Cranium {
    Cranium {
        bone: bone(500),
        sensory_sockets: vec![],
        mandible_socket: mandible.map(|m| Socket {
            position: LocalPosition::new(0, 0, 0),
            normal: Vec3::new(0, -1000, 0),
            attachment: Some(m),
        }),
        feature_sockets: vec![],
    }
}

fn organism_with(
    vertebra_lengths: &[i64],
    appendages: Vec<SpinalAttachment<Appendage>>,
    mandible: Option<MandibleStructure>,
) -> Organism {
    let mut verts = NonEmpty::new(Vertebra { bone: bone(vertebra_lengths[0]) });
    for len in &vertebra_lengths[1..] {
        verts.push(Vertebra { bone: bone(*len) });
    }
    let input = UnvalidatedOrganism {
        genome_seed: GenomeSeed(7),
        symmetry: BodySymmetry::Bilateral,
        head: cranium(mandible),
        torso: Torso { spine: Spine { vertebrae: verts, appendages, features: vec![] } },
    };
    Organism::validate(input, &simple_species()).unwrap()
}

fn limb(segment_lengths: &[i64], terminus: Terminus) -> LimbStructure {
    LimbStructure {
        segments: segment_lengths.iter().map(|l| segment(*l)).collect(),
        branching: None,
        terminus,
    }
}

fn forelimb(structure: LimbStructure) -> Appendage {
    Appendage { class: AppendageClass::Forelimb, structure, patagium: None }
}

fn lateral_attachment(at: u8, left: Option<Appendage>, right: Option<Appendage>) -> SpinalAttachment<
    Appendage,
> {
    let make = |a: Option<Appendage>| Socket {
        position: LocalPosition::new(0, 0, 0),
        normal: Vec3::new(1000, 0, 0),
        attachment: a,
    };
    SpinalAttachment {
        vertebra_index: VertebraIndex(at),
        socket: SymmetricSocket::Lateral(BilateralPair { left: make(left), right: make(right) }),
    }
}

#[test]
fn bare_organism_has_two_plus_n_bones() {
    let organism = organism_with(&[200, 300, 400], vec![], None);
    let generator = SkeletonGenerator::with_default_config();
    let skeleton = generator.generate(&organism);
    assert_eq!(skeleton.bone_count(), 5);
}

#[test]
fn one_segment_mandible_adds_one_bone() {
    let mandible = MandibleStructure { segments: vec![segment(150)] };
    let organism = organism_with(&[200, 300, 400], vec![], Some(mandible));
    let generator = SkeletonGenerator::with_default_config();
    let skeleton = generator.generate(&organism);
    assert_eq!(skeleton.bone_count(), 6);
}

#[test]
fn mandible_chain_nests_and_offsets() {
    let mandible = MandibleStructure { segments: vec![segment(150), segment(100), segment(80)] };
    let organism = organism_with(&[200], vec![], Some(mandible));
    let skeleton = SkeletonGenerator::with_default_config().generate(&organism);
    let head = &skeleton.root.children[0];
    assert_eq!(head.id, BoneId::head());
    let jaw0 = &head.children[0];
    assert_eq!(jaw0.id, BoneId::mandible());
    assert_eq!(jaw0.rest.translation, Vec3::new(0, -200, 100));
    assert_eq!(jaw0.length.value(), 150);
    let jaw1 = &jaw0.children[0];
    assert_eq!(jaw1.id.index, 1);
    assert_eq!(jaw1.rest.translation, Vec3::new(0, -150, 0));
    let jaw2 = &jaw1.children[0];
    assert_eq!(jaw2.id.index, 2);
    assert_eq!(jaw2.rest.translation, Vec3::new(0, -250, 0));
    assert!(jaw2.children.is_empty());
}

#[test]
fn spine_nodes_accumulate_offsets() {
    let organism = organism_with(&[200, 300, 400], vec![], None);
    let skeleton = SkeletonGenerator::with_default_config().generate(&organism);
    let verts: Vec<&SkeletonNode> = skeleton.root.children[1..].iter().collect();
    assert_eq!(verts.len(), 3);
    assert_eq!(verts[0].rest.translation, Vec3::new(0, 0, 0));
    assert_eq!(verts[1].rest.translation, Vec3::new(0, 0, -200));
    assert_eq!(verts[2].rest.translation, Vec3::new(0, 0, -500));
    assert_eq!(verts[2].length.value(), 400);
    assert!(verts[0].articulation.is_none());
}

#[test]
fn find_returns_present_ids_only() {
    let organism = organism_with(&[200, 300], vec![], None);
    let skeleton = SkeletonGenerator::with_default_config().generate(&organism);
    assert!(skeleton.find(&BoneId::root()).is_some());
    assert!(skeleton.find(&BoneId::head()).is_some());
    assert!(skeleton.find(&BoneId::spine(1)).is_some());
    assert!(skeleton.find(&BoneId::spine(2)).is_none());
    assert!(skeleton.find(&BoneId::mandible()).is_none());
    let found = skeleton.find(&BoneId::spine(0)).unwrap();
    assert_eq!(found.length.value(), 200);
}

#[test]
fn iter_is_preorder_and_restartable() {
    let left = forelimb(limb(&[300, 250], Terminus::Tapered));
    let organism = organism_with(
        &[200, 300],
        vec![lateral_attachment(1, Some(left), None)],
        None,
    );
    let skeleton = SkeletonGenerator::with_default_config().generate(&organism);
    let mut names_a: Vec<String> = Vec::new();
    let mut iter = skeleton.iter();
    while let Some(node) = iter.next() {
        names_a.push(node.id.name());
    }
    assert_eq!(names_a[0], "root");
    assert_eq!(names_a[1], "head");
    assert_eq!(
        names_a,
        vec!["root", "head", "spine_0", "spine_1", "forelimb_0_L", "forelimb_1_L"]
    );
    let mut names_b: Vec<String> = Vec::new();
    let mut again = skeleton.iter();
    while let Some(node) = again.next() {
        names_b.push(node.id.name());
    }
    assert_eq!(names_a, names_b);
}

#[test]
fn bilateral_sockets_mirror() {
    let template = limb(&[300, 250], Terminus::Tapered);
    let left = forelimb(template);
    let right = forelimb(limb(&[300, 250], Terminus::Tapered));
    let organism = organism_with(
        &[200],
        vec![lateral_attachment(0, Some(left), Some(right))],
        None,
    );
    let skeleton = SkeletonGenerator::with_default_config().generate(&organism);
    let vert = &skeleton.root.children[1];
    assert_eq!(vert.children.len(), 2);
    let l = &vert.children[0];
    let r = &vert.children[1];
    assert_eq!(l.id.side, Some(Side::Left));
    assert_eq!(r.id.side, Some(Side::Right));
    assert_eq!(l.rest.translation.x, 500);
    assert_eq!(r.rest.translation.x, -500);
    assert_eq!(l.length, r.length);
    assert_eq!(l.children.len(), r.children.len());
    let l1 = &l.children[0];
    let r1 = &r.children[0];
    assert_eq!(l1.rest.translation, r1.rest.translation);
    assert_eq!(l1.id.side, Some(Side::Left));
    assert_eq!(r1.id.side, Some(Side::Right));
    assert_eq!(l1.id.index, r1.id.index);
}

#[test]
fn medial_socket_yields_one_unsided_limb() {
    let tail = Appendage {
        class: AppendageClass::Tail,
        structure: limb(&[400], Terminus::Tapered),
        patagium: None,
    };
    let att = SpinalAttachment {
        vertebra_index: VertebraIndex(0),
        socket: SymmetricSocket::Medial(Socket {
            position: LocalPosition::new(0, 0, 0),
            normal: Vec3::new(0, 0, -1000),
            attachment: Some(tail),
        }),
    };
    let organism = organism_with(&[200], vec![att], None);
    let skeleton = SkeletonGenerator::with_default_config().generate(&organism);
    let vert = &skeleton.root.children[1];
    assert_eq!(vert.children.len(), 1);
    let tail_root = &vert.children[0];
    assert_eq!(tail_root.id, BoneId::limb(AppendageClass::Tail, None, 0));
    assert_eq!(tail_root.rest.translation.x, 0);
}

#[test]
fn branch_point_expands_three_ways() {
    let hand = LimbStructure {
        segments: vec![segment(120)],
        branching: None,
        terminus: Terminus::Tapered,
    };
    let arm = LimbStructure {
        segments: vec![segment(300), segment(250)],
        branching: Some(BranchPoint {
            parent_segment: 1,
            branch_count: Count::new(3),
            branch: Box::new(hand),
        }),
        terminus: Terminus::Tapered,
    };
    let organism = organism_with(
        &[200],
        vec![lateral_attachment(0, Some(forelimb(arm)), None)],
        None,
    );
    let skeleton = SkeletonGenerator::with_default_config().generate(&organism);
    let seg1 = &skeleton.root.children[1].children[0].children[0];
    assert_eq!(seg1.id.index, 1);
    assert_eq!(seg1.children.len(), 3);
    for (k, branch_root) in seg1.children.iter().enumerate() {
        assert_eq!(branch_root.id.branch_path, vec![k as u8]);
        assert_eq!(branch_root.id.index, 0);
        assert_eq!(branch_root.length.value(), 120);
    }
    assert_eq!(seg1.children[0].rest.translation.x, -150);
    assert_eq!(seg1.children[1].rest.translation.x, 0);
    assert_eq!(seg1.children[2].rest.translation.x, 150);
}

#[test]
fn digits_under_a_branch_carry_its_path() {
    let clawed_finger = LimbStructure {
        segments: vec![segment(120)],
        branching: None,
        terminus: Terminus::Claw { digits: DigitCount::new(2).unwrap() },
    };
    let arm = LimbStructure {
        segments: vec![segment(300), segment(250)],
        branching: Some(BranchPoint {
            parent_segment: 1,
            branch_count: Count::new(2),
            branch: Box::new(clawed_finger),
        }),
        terminus: Terminus::Tapered,
    };
    let organism = organism_with(
        &[200],
        vec![lateral_attachment(0, Some(forelimb(arm)), None)],
        None,
    );
    let skeleton = SkeletonGenerator::with_default_config().generate(&organism);
    let seg1 = &skeleton.root.children[1].children[0].children[0];
    let finger1 = &seg1.children[1];
    assert_eq!(finger1.id.branch_path, vec![1]);
    let claw_digit = &finger1.children[0];
    assert_eq!(claw_digit.id.class, BoneClass::Digit);
    assert_eq!(claw_digit.id.branch_path, vec![1]);
    assert_eq!(claw_digit.id.name(), "digit_0_L_b0_1");
    let mut names: Vec<String> = Vec::new();
    let mut iter = skeleton.iter();
    while let Some(node) = iter.next() {
        names.push(node.id.name());
    }
    let mut sorted = names.clone();
    sorted.sort();
    sorted.dedup();
    assert_eq!(sorted.len(), names.len());
}

#[test]
fn claw_spawns_digits_tapered_spawns_none() {
    let claw = forelimb(limb(&[300, 250], Terminus::Claw {
        digits: DigitCount::new(3).unwrap(),
    }));
    let bare = forelimb(limb(&[300, 250], Terminus::Tapered));
    let organism = organism_with(
        &[200],
        vec![lateral_attachment(0, Some(claw), Some(bare))],
        None,
    );
    let skeleton = SkeletonGenerator::with_default_config().generate(&organism);
    let vert = &skeleton.root.children[1];
    let left_last = &vert.children[0].children[0];
    assert_eq!(left_last.children.len(), 3);
    for (j, digit) in left_last.children.iter().enumerate() {
        assert_eq!(digit.id.class, BoneClass::Digit);
        assert_eq!(digit.id.index, j as u8);
        assert_eq!(digit.id.side, Some(Side::Left));
        assert_eq!(digit.length.value(), 100);
    }
    assert_eq!(left_last.children[0].rest.translation.x, -150);
    assert_eq!(left_last.children[2].rest.translation.x, 150);
    let right_last = &vert.children[1].children[0];
    assert!(right_last.children.is_empty());
}

#[test]
fn empty_segment_list_substitutes_default_length() {
    let stub = forelimb(LimbStructure {
        segments: vec![],
        branching: None,
        terminus: Terminus::Tapered,
    });
    let organism = organism_with(
        &[200],
        vec![lateral_attachment(0, Some(stub), None)],
        None,
    );
    let skeleton = SkeletonGenerator::with_default_config().generate(&organism);
    let limb_root = &skeleton.root.children[1].children[0];
    assert_eq!(limb_root.length.value(), 100);
    assert!(limb_root.children.is_empty());
}

#[test]
fn regeneration_is_deterministic() {
    let make = || {
        let claw = forelimb(limb(&[300, 250], Terminus::Claw {
            digits: DigitCount::new(4).unwrap(),
        }));
        organism_with(&[200, 300], vec![lateral_attachment(1, Some(claw), None)], None)
    };
    let generator = SkeletonGenerator::with_default_config();
    let s1 = generator.generate(&make());
    let s2 = generator.generate(&make());
    assert_eq!(s1.bone_count(), s2.bone_count());
    let mut names1: Vec<String> = Vec::new();
    let mut it1 = s1.iter();
    while let Some(node) = it1.next() {
        names1.push(node.id.name());
    }
    let mut names2: Vec<String> = Vec::new();
    let mut it2 = s2.iter();
    while let Some(node) = it2.next() {
        names2.push(node.id.name());
    }
    assert_eq!(names1, names2);
}

#[test]
fn generated_names_are_unique() {
    let claw = forelimb(limb(&[300, 250], Terminus::Claw {
        digits: DigitCount::new(3).unwrap(),
    }));
    let wingish = Appendage {
        class: AppendageClass::Wing,
        structure: limb(&[400, 350, 300], Terminus::Tapered),
        patagium: None,
    };
    let mandible = MandibleStructure { segments: vec![segment(150)] };
    let organism = organism_with(
        &[200, 300, 250],
        vec![
            lateral_attachment(0, Some(claw), None),
            lateral_attachment(1, None, Some(wingish)),
        ],
        Some(mandible),
    );
    let skeleton = SkeletonGenerator::with_default_config().generate(&organism);
    let mut names: Vec<String> = Vec::new();
    let mut iter = skeleton.iter();
    while let Some(node) = iter.next() {
        names.push(node.id.name());
    }
    let mut sorted = names.clone();
    sorted.sort();
    sorted.dedup();
    assert_eq!(sorted.len(), names.len());
}

#[test]
fn head_sits_at_origin_with_cranium_length() {
    let organism = organism_with(&[200], vec![], None);
    let skeleton = SkeletonGenerator::with_default_config().generate(&organism);
    let head = &skeleton.root.children[0];
    assert_eq!(head.rest.translation, Vec3::new(0, 0, 0));
    assert_eq!(head.length.value(), 500);
    assert_eq!(skeleton.root.length.value(), 1);
}
