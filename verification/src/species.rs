use vstd::prelude::*;
use crate::anatomical_features::{AnatomicalFeature, MandibleStructure, SensoryOrgan};
use crate::appendage::{AppendageClass, Terminus};
use crate::primitives::{Count, InclusiveRange, Length, NonEmpty, Normalized, ValueRange, VertebraIndex};
use crate::sockets_symmetry::BodySymmetry;
use crate::spatial::{LocalPosition, Vec3};
use crate::validation_errors::SpeciesValidationError;

verus! {

/// Heritable bounds for one bone.
#[derive(Clone, Copy, Debug)]
pub struct BoneGenes {
    pub length: ValueRange<Length>,
}

/// Heritable bounds for a limb chain.
#[derive(Clone, Debug)]
pub struct LimbGenes {
    pub segment_count: InclusiveRange<Count>,
    pub segment: BoneGenes,
    pub allowed_termini: NonEmpty<Terminus>,
    pub branching_probability: Normalized,
}

/// Heritable bounds for one appendage kind.
#[derive(Clone, Debug)]
pub struct AppendageGenes {
    pub class: AppendageClass,
    pub limb: LimbGenes,
    pub patagium_probability: Normalized,
}

/// Where a socket sits on its host bone.
#[derive(Clone, Copy, Debug)]
pub struct SocketPlacement {
    pub position: LocalPosition,
    pub normal: Vec3,
}

/// Placement of a medial socket or of a mirrored lateral pair.
#[derive(Clone, Copy, Debug)]
pub enum SymmetricPlacement {
    Medial(SocketPlacement),
    Lateral { offset: LocalPosition, normal: Vec3 },
}

/// Which appendages one spinal socket may hold, and where.
#[derive(Clone, Debug)]
pub struct AppendageSocketRule {
    pub vertebra_indices: NonEmpty<VertebraIndex>,
    pub placement: SymmetricPlacement,
    pub allowed: NonEmpty<AppendageGenes>,
    pub required: bool,
}

/// Which anatomical features one spinal socket may hold.
#[derive(Clone, Debug)]
pub struct FeatureSocketRule {
    pub vertebra_indices: NonEmpty<VertebraIndex>,
    pub placement: SymmetricPlacement,
    pub allowed: NonEmpty<AnatomicalFeature>,
    pub required: bool,
}

/// Which sense organs one cranial socket may hold.
#[derive(Clone, Debug)]
pub struct SensorySocketRule {
    pub placement: SymmetricPlacement,
    pub allowed: NonEmpty<SensoryOrgan>,
    pub required: bool,
}

/// Heritable description of the skull.
#[derive(Clone, Debug)]
pub struct CraniumGenes {
    pub bone: BoneGenes,
    pub sensory_sockets: Vec<SensorySocketRule>,
    pub mandible: Option<NonEmpty<MandibleStructure>>,
    pub feature_sockets: Vec<FeatureSocketRule>,
}

/// Heritable description of the spine.
#[derive(Clone, Debug)]
pub struct SpineGenes {
    pub vertebra_count: InclusiveRange<Count>,
    pub vertebra: BoneGenes,
    pub appendage_sockets: Vec<AppendageSocketRule>,
    pub feature_sockets: Vec<FeatureSocketRule>,
}

/// Heritable description of the trunk.
#[derive(Clone, Debug)]
pub struct TorsoGenes {
    pub spine: SpineGenes,
}

/// A species description as handed in, not yet checked.
#[derive(Clone, Debug)]
pub struct UnvalidatedSpecies {
    pub name: String,
    pub symmetry: BodySymmetry,
    pub head: CraniumGenes,
    pub torso: TorsoGenes,
}

/// A species whose socket rules all point at possible vertebrae.
#[derive(Clone, Debug)]
pub struct Species {
    name: String,
    symmetry: BodySymmetry,
    head: CraniumGenes,
    torso: TorsoGenes,
}

/// The first socket index of the list that is not below `max`, scanning in
/// order.
pub open spec fn first_oob_index(ids: Seq<VertebraIndex>, max: u8) -> Option<VertebraIndex>
    decreases ids.len(),
{
    if ids.len() == 0 {
        None
    } else if ids[0].0 >= max {
        Some(ids[0])
    } else {
        first_oob_index(ids.drop_first(), max)
    }
}

/// The first out-of-bounds index over a list of appendage socket rules.
pub open spec fn first_oob_app_rule(rules: Seq<AppendageSocketRule>, max: u8) -> Option<
    VertebraIndex,
>
    decreases rules.len(),
{
    if rules.len() == 0 {
        None
    } else if first_oob_index(rules[0].vertebra_indices@, max) is Some {
        first_oob_index(rules[0].vertebra_indices@, max)
    } else {
        first_oob_app_rule(rules.drop_first(), max)
    }
}

/// The first out-of-bounds index over a list of feature socket rules.
pub open spec fn first_oob_feat_rule(rules: Seq<FeatureSocketRule>, max: u8) -> Option<
    VertebraIndex,
>
    decreases rules.len(),
{
    if rules.len() == 0 {
        None
    } else if first_oob_index(rules[0].vertebra_indices@, max) is Some {
        first_oob_index(rules[0].vertebra_indices@, max)
    } else {
        first_oob_feat_rule(rules.drop_first(), max)
    }
}

/// Scan one index list; stops at the first out-of-bounds entry.
fn scan_indices(ids: &NonEmpty<VertebraIndex>, max: u8) -> (r: Option<VertebraIndex>)
    requires
        ids@.len() < usize::MAX,
    ensures
        r == first_oob_index(ids@, max),
{
    let n = ids.len();
    let mut k: usize = 0;
    proof {
        assert(ids@.skip(0) =~= ids@);
    }
    while k < n
        invariant
            k <= n,
            n == ids@.len(),
            first_oob_index(ids@.skip(k as int), max) == first_oob_index(ids@, max),
            forall|t: int| 0 <= t < k ==> (#[trigger] ids@[t]).0 < max,
        decreases n - k,
    {
        let idx = *ids.get(k);
        proof {
            assert(ids@.skip(k as int)[0] == ids@[k as int]);
            assert(ids@.skip(k as int).drop_first() =~= ids@.skip(k as int + 1));
        }
        if idx.0 >= max {
            return Some(idx);
        }
        k = k + 1;
    }
    proof {
        assert(ids@.skip(n as int) =~= Seq::<VertebraIndex>::empty());
    }
    None
}

impl Species {
    pub closed spec fn spec_name(&self) -> Seq<char> {
        self.name@
    }

    pub closed spec fn spec_symmetry(&self) -> BodySymmetry {
        self.symmetry
    }

    pub closed spec fn spec_head(&self) -> CraniumGenes {
        self.head
    }

    pub closed spec fn spec_torso(&self) -> TorsoGenes {
        self.torso
    }

    /// Validate and construct a `Species` from unvalidated input: every
    /// socket rule must point below the largest possible vertebra count.
    pub fn new(input: UnvalidatedSpecies) -> (r: Result<Species, SpeciesValidationError>)
        requires
            forall|j: int|
                0 <= j < input.torso.spine.appendage_sockets@.len() ==> (
                #[trigger] input.torso.spine.appendage_sockets@[j]).vertebra_indices@.len()
                    < usize::MAX,
            forall|j: int|
                0 <= j < input.torso.spine.feature_sockets@.len() ==> (
                #[trigger] input.torso.spine.feature_sockets@[j]).vertebra_indices@.len()
                    < usize::MAX,
        ensures
            ({
                let max = input.torso.spine.vertebra_count.end.spec_value();
                let bad_app = first_oob_app_rule(input.torso.spine.appendage_sockets@, max);
                let bad_feat = first_oob_feat_rule(input.torso.spine.feature_sockets@, max);
                match r {
                    Ok(s) => {
                        &&& bad_app is None
                        &&& bad_feat is None
                        &&& s.spec_name() == input.name@
                        &&& s.spec_symmetry() == input.symmetry
                        &&& s.spec_head() == input.head
                        &&& s.spec_torso() == input.torso
                    },
                    Err(e) => {
                        &&& (bad_app is Some || bad_feat is Some)
                        &&& e == (SpeciesValidationError::SocketIndexOutOfBounds {
                            socket_index: if bad_app is Some {
                                bad_app->0
                            } else {
                                bad_feat->0
                            },
                            max_vertebrae: input.torso.spine.vertebra_count.end,
                        })
                    },
                }
            }),
    {
        let max_vertebrae = input.torso.spine.vertebra_count.end();
        let max = max_vertebrae.value();
        let ghost app_rules: Seq<AppendageSocketRule> = input.torso.spine.appendage_sockets@;
        let n_app = input.torso.spine.appendage_sockets.len();
        let mut j: usize = 0;
        proof {
            assert(app_rules.skip(0) =~= app_rules);
        }
        while j < n_app
            invariant
                j <= n_app,
                n_app == app_rules.len(),
                input.torso.spine.appendage_sockets@ == app_rules,
                max == input.torso.spine.vertebra_count.end.spec_value(),
                max_vertebrae == input.torso.spine.vertebra_count.end,
                forall|t: int|
                    0 <= t < app_rules.len() ==> (#[trigger] app_rules[t]).vertebra_indices@.len()
                        < usize::MAX,
                first_oob_app_rule(app_rules.skip(j as int), max) == first_oob_app_rule(
                    app_rules,
                    max,
                ),
            decreases n_app - j,
        {
            proof {
                assert(app_rules.skip(j as int)[0] == app_rules[j as int]);
                assert(app_rules.skip(j as int).drop_first() =~= app_rules.skip(j as int + 1));
            }
            let bad = scan_indices(&input.torso.spine.appendage_sockets[j].vertebra_indices, max);
            if let Some(idx) = bad {
                return Err(
                    SpeciesValidationError::SocketIndexOutOfBounds {
                        socket_index: idx,
                        max_vertebrae,
                    },
                );
            }
            j = j + 1;
        }
        proof {
            assert(app_rules.skip(n_app as int) =~= Seq::<AppendageSocketRule>::empty());
        }
        let ghost feat_rules: Seq<FeatureSocketRule> = input.torso.spine.feature_sockets@;
        let n_feat = input.torso.spine.feature_sockets.len();
        let mut j2: usize = 0;
        proof {
            assert(feat_rules.skip(0) =~= feat_rules);
        }
        while j2 < n_feat
            invariant
                j2 <= n_feat,
                n_feat == feat_rules.len(),
                input.torso.spine.feature_sockets@ == feat_rules,
                max == input.torso.spine.vertebra_count.end.spec_value(),
                max_vertebrae == input.torso.spine.vertebra_count.end,
                first_oob_app_rule(input.torso.spine.appendage_sockets@, max) is None,
                forall|t: int|
                    0 <= t < feat_rules.len() ==> (#[trigger] feat_rules[t]).vertebra_indices@.len()
                        < usize::MAX,
                first_oob_feat_rule(feat_rules.skip(j2 as int), max) == first_oob_feat_rule(
                    feat_rules,
                    max,
                ),
            decreases n_feat - j2,
        {
            proof {
                assert(feat_rules.skip(j2 as int)[0] == feat_rules[j2 as int]);
                assert(feat_rules.skip(j2 as int).drop_first() =~= feat_rules.skip(j2 as int + 1));
            }
            let bad = scan_indices(&input.torso.spine.feature_sockets[j2].vertebra_indices, max);
            if let Some(idx) = bad {
                return Err(
                    SpeciesValidationError::SocketIndexOutOfBounds {
                        socket_index: idx,
                        max_vertebrae,
                    },
                );
            }
            j2 = j2 + 1;
        }
        proof {
            assert(feat_rules.skip(n_feat as int) =~= Seq::<FeatureSocketRule>::empty());
        }
        Ok(
            Species {
                name: input.name,
                symmetry: input.symmetry,
                head: input.head,
                torso: input.torso,
            },
        )
    }

    pub fn name(&self) -> (r: &str)
        ensures
            r@ == self.spec_name(),
    {
        self.name.as_str()
    }

    pub fn symmetry(&self) -> (r: BodySymmetry)
        ensures
            r == self.spec_symmetry(),
    {
        self.symmetry
    }

    pub fn head(&self) -> (r: &CraniumGenes)
        ensures
            *r == self.spec_head(),
    {
        &self.head
    }

    pub fn torso(&self) -> (r: &TorsoGenes)
        ensures
            *r == self.spec_torso(),
    {
        &self.torso
    }

    pub fn min_vertebrae(&self) -> (r: Count)
        ensures
            r == self.spec_torso().spine.vertebra_count.start,
    {
        self.torso.spine.vertebra_count.start()
    }

    pub fn max_vertebrae(&self) -> (r: Count)
        ensures
            r == self.spec_torso().spine.vertebra_count.end,
    {
        self.torso.spine.vertebra_count.end()
    }
}

} // verus!
