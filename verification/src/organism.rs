use vstd::prelude::*;
use crate::appendage::Appendage;
use crate::body::{SpinalAttachment, Torso};
use crate::head::Cranium;
use crate::primitives::{GenomeSeed, VertebraIndex};
use crate::sockets_symmetry::{BodySymmetry, SymmetricSocket};
use crate::species::{AppendageSocketRule, Species};
use crate::validation_errors::OrganismValidationError;

verus! {

/// A fully validated anatomical description, ready for skeleton generation.
#[derive(Debug)]
pub struct Organism {
    pub(crate) genome_seed: GenomeSeed,
    pub(crate) symmetry: BodySymmetry,
    pub(crate) head: Cranium,
    pub(crate) torso: Torso,
}

impl Organism {
    pub closed spec fn spec_genome_seed(&self) -> GenomeSeed {
        self.genome_seed
    }

    pub closed spec fn spec_symmetry(&self) -> BodySymmetry {
        self.symmetry
    }

    pub closed spec fn spec_head(&self) -> Cranium {
        self.head
    }

    pub closed spec fn spec_torso(&self) -> Torso {
        self.torso
    }

    pub fn genome_seed(&self) -> (r: GenomeSeed)
        ensures
            r == self.spec_genome_seed(),
    {
        self.genome_seed
    }

    pub fn symmetry(&self) -> (r: BodySymmetry)
        ensures
            r == self.spec_symmetry(),
    {
        self.symmetry
    }

    pub fn head(&self) -> (r: &Cranium)
        ensures
            *r == self.spec_head(),
    {
        &self.head
    }

    pub fn torso(&self) -> (r: &Torso)
        ensures
            *r == self.spec_torso(),
    {
        &self.torso
    }
}

/// A hand-built anatomical description, not yet checked against a species.
#[derive(Debug)]
pub struct UnvalidatedOrganism {
    pub genome_seed: GenomeSeed,
    pub symmetry: BodySymmetry,
    pub head: Cranium,
    pub torso: Torso,
}

/// The first attachment whose vertebra index is not below `n`, in list order.
pub open spec fn first_oob_attachment<T>(atts: Seq<SpinalAttachment<T>>, n: int) -> Option<
    VertebraIndex,
>
    decreases atts.len(),
{
    if atts.len() == 0 {
        None
    } else if atts[0].vertebra_index.0 >= n {
        Some(atts[0].vertebra_index)
    } else {
        first_oob_attachment(atts.drop_first(), n)
    }
}

/// Whether a socket counts as filled for a required-socket check: a medial
/// socket by its attachment, a lateral pair by its left one.
pub open spec fn spec_socket_filled(socket: SymmetricSocket<Appendage>) -> bool {
    match socket {
        SymmetricSocket::Medial(s) => s.attachment is Some,
        SymmetricSocket::Lateral(pair) => pair.left.attachment is Some,
    }
}

/// Whether some attachment fills the rule at one of its allowed vertebrae.
pub open spec fn spec_rule_satisfied(
    rule: AppendageSocketRule,
    atts: Seq<SpinalAttachment<Appendage>>,
) -> bool {
    exists|k: int, j: int|
        0 <= k < rule.vertebra_indices@.len() && 0 <= j < atts.len() && (#[trigger] atts[j]).vertebra_index
            == (#[trigger] rule.vertebra_indices@[k]) && spec_socket_filled(atts[j].socket)
}

/// The first required rule that no attachment fills, in rule order.
pub open spec fn first_unfilled_required(
    rules: Seq<AppendageSocketRule>,
    atts: Seq<SpinalAttachment<Appendage>>,
) -> Option<AppendageSocketRule>
    decreases rules.len(),
{
    if rules.len() == 0 {
        None
    } else if rules[0].required && !spec_rule_satisfied(rules[0], atts) {
        Some(rules[0])
    } else {
        first_unfilled_required(rules.drop_first(), atts)
    }
}

/// Whether any attachment fills this rule at an allowed vertebra.
fn rule_has_attachment(rule: &AppendageSocketRule, atts: &Vec<SpinalAttachment<Appendage>>) -> (r:
    bool)
    requires
        rule.vertebra_indices@.len() < usize::MAX,
    ensures
        r == spec_rule_satisfied(*rule, atts@),
{
    let nk = rule.vertebra_indices.len();
    let mut k: usize = 0;
    while k < nk
        invariant
            k <= nk,
            nk == rule.vertebra_indices@.len(),
            forall|kk: int, jj: int|
                0 <= kk < k && 0 <= jj < atts@.len() ==> !((#[trigger] atts@[jj]).vertebra_index
                    == (#[trigger] rule.vertebra_indices@[kk]) && spec_socket_filled(
                    atts@[jj].socket,
                )),
        decreases nk - k,
    {
        let idx = *rule.vertebra_indices.get(k);
        let mut j: usize = 0;
        while j < atts.len()
            invariant
                j <= atts@.len(),
                k < nk,
                nk == rule.vertebra_indices@.len(),
                idx == rule.vertebra_indices@[k as int],
                forall|jj: int|
                    0 <= jj < j ==> !((#[trigger] atts@[jj]).vertebra_index == idx
                        && spec_socket_filled(atts@[jj].socket)),
            decreases atts@.len() - j,
        {
            let att = &atts[j];
            if att.vertebra_index == idx {
                let filled = match &att.socket {
                    SymmetricSocket::Medial(s) => s.attachment.is_some(),
                    SymmetricSocket::Lateral(pair) => pair.left.attachment.is_some(),
                };
                if filled {
                    proof {
                        assert(atts@[j as int].vertebra_index == rule.vertebra_indices@[k as int]
                            && spec_socket_filled(atts@[j as int].socket));
                    }
                    return true;
                }
            }
            j = j + 1;
        }
        k = k + 1;
    }
    proof {
        if spec_rule_satisfied(*rule, atts@) {
            let (kk, jj): (int, int) = choose|kk: int, jj: int|
                0 <= kk < rule.vertebra_indices@.len() && 0 <= jj < atts@.len() && (
                #[trigger] atts@[jj]).vertebra_index == (#[trigger] rule.vertebra_indices@[kk])
                    && spec_socket_filled(atts@[jj].socket);
            assert(false);
        }
    }
    false
}

impl Organism {
    /// Validate a manually constructed organism against a species.
    ///
    /// Every spinal attachment must name an existing vertebra, and every
    /// required appendage socket of the species must be filled; the first
    /// violation, in that scanning order, is returned.
    pub fn validate(input: UnvalidatedOrganism, species: &Species) -> (r: Result<
        Organism,
        OrganismValidationError,
    >)
        requires
            input.torso.spine.vertebrae@.len() <= usize::MAX,
            forall|t: int|
                0 <= t < species.spec_torso().spine.appendage_sockets@.len() ==> (
                #[trigger] species.spec_torso().spine.appendage_sockets@[t]).vertebra_indices@.len()
                    < usize::MAX,
        ensures
            ({
                let n = input.torso.spine.vertebrae@.len() as int;
                let bad_app = first_oob_attachment(input.torso.spine.appendages@, n);
                let bad_feat = first_oob_attachment(input.torso.spine.features@, n);
                let unfilled = first_unfilled_required(
                    species.spec_torso().spine.appendage_sockets@,
                    input.torso.spine.appendages@,
                );
                match r {
                    Ok(o) => {
                        &&& bad_app is None
                        &&& bad_feat is None
                        &&& unfilled is None
                        &&& o.spec_genome_seed() == input.genome_seed
                        &&& o.spec_symmetry() == input.symmetry
                        &&& o.spec_head() == input.head
                        &&& o.spec_torso() == input.torso
                    },
                    Err(e) => if bad_app is Some {
                        e == (OrganismValidationError::VertebraIndexOutOfBounds {
                            index: bad_app->0,
                            vertebra_count: input.torso.spine.vertebrae@.len() as usize,
                        })
                    } else if bad_feat is Some {
                        e == (OrganismValidationError::VertebraIndexOutOfBounds {
                            index: bad_feat->0,
                            vertebra_count: input.torso.spine.vertebrae@.len() as usize,
                        })
                    } else {
                        unfilled is Some && e == (OrganismValidationError::RequiredSocketEmpty {
                            vertebra_index: unfilled->0.vertebra_indices@[0],
                        })
                    },
                }
            }),
    {
        let vertebra_count = input.torso.spine.vertebrae.len();
        let ghost apps: Seq<SpinalAttachment<Appendage>> = input.torso.spine.appendages@;
        let n_app = input.torso.spine.appendages.len();
        let mut j: usize = 0;
        proof {
            assert(apps.skip(0) =~= apps);
        }
        while j < n_app
            invariant
                j <= n_app,
                n_app == apps.len(),
                input.torso.spine.appendages@ == apps,
                vertebra_count == input.torso.spine.vertebrae@.len(),
                first_oob_attachment(apps.skip(j as int), vertebra_count as int)
                    == first_oob_attachment(apps, vertebra_count as int),
            decreases n_app - j,
        {
            proof {
                assert(apps.skip(j as int)[0] == apps[j as int]);
                assert(apps.skip(j as int).drop_first() =~= apps.skip(j as int + 1));
            }
            let attachment = &input.torso.spine.appendages[j];
            if attachment.vertebra_index.0 as usize >= vertebra_count {
                return Err(
                    OrganismValidationError::VertebraIndexOutOfBounds {
                        index: attachment.vertebra_index,
                        vertebra_count,
                    },
                );
            }
            j = j + 1;
        }
        proof {
            assert(apps.skip(n_app as int) =~= Seq::<SpinalAttachment<Appendage>>::empty());
        }
        let ghost feats: Seq<SpinalAttachment<crate::anatomical_features::AnatomicalFeature>> =
            input.torso.spine.features@;
        let n_feat = input.torso.spine.features.len();
        let mut j2: usize = 0;
        proof {
            assert(feats.skip(0) =~= feats);
        }
        while j2 < n_feat
            invariant
                j2 <= n_feat,
                n_feat == feats.len(),
                input.torso.spine.features@ == feats,
                input.torso.spine.appendages@ == apps,
                vertebra_count == input.torso.spine.vertebrae@.len(),
                first_oob_attachment(apps, vertebra_count as int) is None,
                first_oob_attachment(feats.skip(j2 as int), vertebra_count as int)
                    == first_oob_attachment(feats, vertebra_count as int),
            decreases n_feat - j2,
        {
            proof {
                assert(feats.skip(j2 as int)[0] == feats[j2 as int]);
                assert(feats.skip(j2 as int).drop_first() =~= feats.skip(j2 as int + 1));
            }
            let attachment = &input.torso.spine.features[j2];
            if attachment.vertebra_index.0 as usize >= vertebra_count {
                return Err(
                    OrganismValidationError::VertebraIndexOutOfBounds {
                        index: attachment.vertebra_index,
                        vertebra_count,
                    },
                );
            }
            j2 = j2 + 1;
        }
        proof {
            assert(feats.skip(n_feat as int) =~= Seq::<
                SpinalAttachment<crate::anatomical_features::AnatomicalFeature>,
            >::empty());
        }
        let rules = &species.torso().spine.appendage_sockets;
        let ghost rules_seq: Seq<AppendageSocketRule> = rules@;
        let n_rules = rules.len();
        let mut j3: usize = 0;
        proof {
            assert(rules_seq.skip(0) =~= rules_seq);
        }
        while j3 < n_rules
            invariant
                j3 <= n_rules,
                n_rules == rules_seq.len(),
                rules@ == rules_seq,
                rules_seq == species.spec_torso().spine.appendage_sockets@,
                input.torso.spine.appendages@ == apps,
                input.torso.spine.features@ == feats,
                vertebra_count == input.torso.spine.vertebrae@.len(),
                first_oob_attachment(apps, vertebra_count as int) is None,
                first_oob_attachment(feats, vertebra_count as int) is None,
                forall|t: int|
                    0 <= t < rules_seq.len() ==> (#[trigger] rules_seq[t]).vertebra_indices@.len()
                        < usize::MAX,
                first_unfilled_required(rules_seq.skip(j3 as int), apps)
                    == first_unfilled_required(rules_seq, apps),
            decreases n_rules - j3,
        {
            proof {
                assert(rules_seq.skip(j3 as int)[0] == rules_seq[j3 as int]);
                assert(rules_seq.skip(j3 as int).drop_first() =~= rules_seq.skip(j3 as int + 1));
            }
            let socket_rule = &rules[j3];
            if socket_rule.required {
                let has_attachment = rule_has_attachment(
                    socket_rule,
                    &input.torso.spine.appendages,
                );
                if !has_attachment {
                    return Err(
                        OrganismValidationError::RequiredSocketEmpty {
                            vertebra_index: *socket_rule.vertebra_indices.first(),
                        },
                    );
                }
            }
            j3 = j3 + 1;
        }
        proof {
            assert(rules_seq.skip(n_rules as int) =~= Seq::<AppendageSocketRule>::empty());
        }
        Ok(
            Organism {
                genome_seed: input.genome_seed,
                symmetry: input.symmetry,
                head: input.head,
                torso: input.torso,
            },
        )
    }
}

} // verus!
