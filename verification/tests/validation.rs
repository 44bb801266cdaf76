use creature_rig::anatomical_features::AnatomicalFeature;
use creature_rig::appendage::{Appendage, AppendageClass, LimbStructure, Terminus};
use creature_rig::body::{Spine, SpinalAttachment, Torso, Vertebra};
use creature_rig::head::Cranium;
use creature_rig::organism::{Organism, UnvalidatedOrganism};
use creature_rig::primitives::{
    Count, GenomeSeed, InclusiveRange, Length, NonEmpty, Normalized, ValueRange, VertebraIndex,
};
use creature_rig::skeletal::Bone;
use creature_rig::sockets_symmetry::{BilateralPair, BodySymmetry, Socket, SymmetricSocket};
use creature_rig::spatial::{LocalPosition, Vec3};
use creature_rig::species::{
    AppendageGenes, AppendageSocketRule, BoneGenes, CraniumGenes, LimbGenes, Species, SpineGenes,
    SymmetricPlacement, SocketPlacement, TorsoGenes, UnvalidatedSpecies,
};
use creature_rig::validation_errors::{OrganismValidationError, SpeciesValidationError};

fn bone_genes() -> BoneGenes {
    BoneGenes {
        length: ValueRange { min: Length::new(100).unwrap(), max: Length::new(1000).unwrap() },
    }
}

fn appendage_rule(indices: Vec<u8>, required: bool) -> AppendageSocketRule {
    let mut idx = NonEmpty::new(VertebraIndex(indices[0]));
    for i in &indices[1..] {
        idx.push(VertebraIndex(*i));
    }
    AppendageSocketRule {
        vertebra_indices: idx,
        placement: SymmetricPlacement::Medial(SocketPlacement {
            position: LocalPosition::new(0, 0, 0),
            normal: Vec3::new(0, 1000, 0),
        }),
        allowed: NonEmpty::new(AppendageGenes {
            class: AppendageClass::Forelimb,
            limb: LimbGenes {
                segment_count: InclusiveRange::new(Count::new(1), Count::new(3)),
                segment: bone_genes(),
                allowed_termini: NonEmpty::new(Terminus::Tapered),
                branching_probability: Normalized::new(0).unwrap(),
            },
            patagium_probability: Normalized::new(0).unwrap(),
        }),
        required,
    }
}

fn species_with_rules(rules: Vec<AppendageSocketRule>, max_vertebrae: u8) -> Result<
    Species,
    SpeciesValidationError,
> {
    Species::new(UnvalidatedSpecies {
        name: String::from("ruled"),
        symmetry: BodySymmetry::Bilateral,
        head: CraniumGenes {
            bone: bone_genes(),
            sensory_sockets: vec![],
            mandible: None,
            feature_sockets: vec![],
        },
        torso: TorsoGenes {
            spine: SpineGenes {
                vertebra_count: InclusiveRange::new(Count::new(1), Count::new(max_vertebrae)),
                vertebra: bone_genes(),
                appendage_sockets: rules,
                feature_sockets: vec![],
            },
        },
    })
}

fn plain_cranium() -> Cranium {
    Cranium {
        bone: Bone { length: Length::new(500).unwrap() },
        sensory_sockets: vec![],
        mandible_socket: None,
        feature_sockets: vec![],
    }
}

fn unvalidated(
    vertebra_count: usize,
    appendages: Vec<SpinalAttachment<Appendage>>,
    features: Vec<SpinalAttachment<AnatomicalFeature>>,
) -> UnvalidatedOrganism {
    let mut verts = NonEmpty::new(Vertebra { bone: Bone { length: Length::new(200).unwrap() } });
    for _ in 1..vertebra_count {
        verts.push(Vertebra { bone: Bone { length: Length::new(200).unwrap() } });
    }
    UnvalidatedOrganism {
        genome_seed: GenomeSeed(1),
        symmetry: BodySymmetry::Bilateral,
        head: plain_cranium(),
        torso: Torso { spine: Spine { vertebrae: verts, appendages, features } },
    }
}

fn medial_forelimb_at(at: u8, filled: bool) -> SpinalAttachment<Appendage> {
    let appendage = Appendage {
        class: AppendageClass::Forelimb,
        structure: LimbStructure {
            segments: vec![],
            branching: None,
            terminus: Terminus::Tapered,
        },
        patagium: None,
    };
    SpinalAttachment {
        vertebra_index: VertebraIndex(at),
        socket: SymmetricSocket::Medial(Socket {
            position: LocalPosition::new(0, 0, 0),
            normal: Vec3::new(0, 1000, 0),
            attachment: if filled { Some(appendage) } else { None },
        }),
    }
}

#[test]
fn species_accepts_rules_within_bounds() {
    let species = species_with_rules(vec![appendage_rule(vec![0, 3], false)], 4);
    assert!(species.is_ok());
    let s = species.unwrap();
    assert_eq!(s.name(), "ruled");
    assert_eq!(s.min_vertebrae().value(), 1);
    assert_eq!(s.max_vertebrae().value(), 4);
}

#[test]
fn species_rejects_out_of_bounds_socket_index() {
    let species = species_with_rules(vec![appendage_rule(vec![0, 4], false)], 4);
    match species {
        Err(SpeciesValidationError::SocketIndexOutOfBounds { socket_index, max_vertebrae }) => {
            assert_eq!(socket_index, VertebraIndex(4));
            assert_eq!(max_vertebrae.value(), 4);
        },
        other => panic!("expected SocketIndexOutOfBounds, got {:?}", other),
    }
}

#[test]
fn validate_accepts_well_formed_organism() {
    let species = species_with_rules(vec![appendage_rule(vec![0], true)], 4).unwrap();
    let input = unvalidated(2, vec![medial_forelimb_at(0, true)], vec![]);
    let organism = Organism::validate(input, &species);
    assert!(organism.is_ok());
    let o = organism.unwrap();
    assert_eq!(o.genome_seed(), GenomeSeed(1));
    assert_eq!(o.symmetry(), BodySymmetry::Bilateral);
}

#[test]
fn validate_rejects_out_of_bounds_appendage() {
    let species = species_with_rules(vec![], 4).unwrap();
    let input = unvalidated(2, vec![medial_forelimb_at(5, true)], vec![]);
    match Organism::validate(input, &species) {
        Err(OrganismValidationError::VertebraIndexOutOfBounds { index, vertebra_count }) => {
            assert_eq!(index, VertebraIndex(5));
            assert_eq!(vertebra_count, 2);
        },
        other => panic!("expected VertebraIndexOutOfBounds, got {:?}", other),
    }
}

#[test]
fn validate_rejects_required_socket_left_empty() {
    let species = species_with_rules(vec![appendage_rule(vec![1], true)], 4).unwrap();
    let input = unvalidated(3, vec![medial_forelimb_at(0, true)], vec![]);
    match Organism::validate(input, &species) {
        Err(OrganismValidationError::RequiredSocketEmpty { vertebra_index }) => {
            assert_eq!(vertebra_index, VertebraIndex(1));
        },
        other => panic!("expected RequiredSocketEmpty, got {:?}", other),
    }
}

#[test]
fn validate_unfilled_socket_does_not_satisfy_requirement() {
    let species = species_with_rules(vec![appendage_rule(vec![0], true)], 4).unwrap();
    let input = unvalidated(2, vec![medial_forelimb_at(0, false)], vec![]);
    assert!(matches!(
        Organism::validate(input, &species),
        Err(OrganismValidationError::RequiredSocketEmpty { .. })
    ));
}

#[test]
fn validate_lateral_left_fill_satisfies_requirement() {
    let species = species_with_rules(vec![appendage_rule(vec![0], true)], 4).unwrap();
    let appendage = Appendage {
        class: AppendageClass::Forelimb,
        structure: LimbStructure {
            segments: vec![],
            branching: None,
            terminus: Terminus::Tapered,
        },
        patagium: None,
    };
    let make_socket = |a: Option<Appendage>| Socket {
        position: LocalPosition::new(0, 0, 0),
        normal: Vec3::new(1000, 0, 0),
        attachment: a,
    };
    let att = SpinalAttachment {
        vertebra_index: VertebraIndex(0),
        socket: SymmetricSocket::Lateral(BilateralPair {
            left: make_socket(Some(appendage)),
            right: make_socket(None),
        }),
    };
    let input = unvalidated(2, vec![att], vec![]);
    assert!(Organism::validate(input, &species).is_ok());
}
