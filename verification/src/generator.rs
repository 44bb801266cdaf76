use vstd::prelude::*;
use crate::appendage::{Appendage, AppendageClass, BranchPoint, LimbStructure, Terminus};
use crate::body::{SpinalAttachment, Vertebra};
use crate::bone_id::{BoneClass, BoneId, BoneIdView, Side};
use crate::node::{
    model_children, GeneratedSkeleton, NodeModel, RestTransform, SkeletonNode, spec_identity_rest,
};
use crate::organism::Organism;
use crate::primitives::{Length, MAX_LENGTH, SCALE};
use crate::skeletal::{BoneSegment, JointArticulation};
use crate::sockets_symmetry::SymmetricSocket;
use crate::spatial::{Rotation, Vec3};
use crate::traits::{spec_terminal_bone_count, Articulated, BoneSource, Terminable};

verus! {

/// Length given to the synthetic root bone, in ticks.
pub const ROOT_BONE_LENGTH: i64 = 1;

/// Length substituted for a segment that the anatomy does not provide, in ticks.
pub const DEFAULT_SEGMENT_LENGTH: i64 = 100;

/// Placeholder length for terminal digit bones, in ticks; the anatomical
/// description does not carry digit lengths yet, a known gap left explicit.
pub const DIGIT_BONE_LENGTH: i64 = 100;

/// Half the lateral fan-out factor, in ticks (the full factor is 0.3 units).
pub const SPREAD_HALF: i64 = 150;

/// Longest chain (vertebrae, mandible or limb segments) the generator takes,
/// so that chain indices fit the id's byte and offset sums stay in range.
pub const MAX_CHAIN: usize = 256;

/// Configuration for skeleton generation.
#[derive(Clone, Copy, Debug, PartialEq, Eq, Structural)]
pub struct SkeletonConfig {
    /// Primary axis along which the spine extends.
    pub bone_axis: Vec3,
    /// Axis for bilateral offsets.
    pub lateral_axis: Vec3,
    /// Lateral distance given to bilateral limb roots, in ticks.
    pub default_lateral_offset: i64,
}

impl SkeletonConfig {
    /// Axes small enough that every scaled product the generator forms fits.
    pub open spec fn wf(self) -> bool {
        &&& self.bone_axis.axis_bounded()
        &&& self.lateral_axis.axis_bounded()
        &&& -MAX_LENGTH <= self.default_lateral_offset <= MAX_LENGTH
    }
}

pub open spec fn spec_default_config() -> SkeletonConfig {
    SkeletonConfig {
        bone_axis: Vec3 { x: 0i64, y: 0i64, z: ((-SCALE) as i64) },
        lateral_axis: Vec3 { x: SCALE, y: 0i64, z: 0i64 },
        default_lateral_offset: 500i64,
    }
}

impl Default for SkeletonConfig {
    fn default() -> (r: SkeletonConfig)
        ensures
            r == spec_default_config(),
    {
        SkeletonConfig {
            bone_axis: Vec3::new(0, 0, -SCALE),
            lateral_axis: Vec3::new(SCALE, 0, 0),
            default_lateral_offset: 500,
        }
    }
}

/// Extension axis for a limb of the given class.
pub open spec fn spec_limb_axis(class: AppendageClass, c: SkeletonConfig) -> Vec3 {
    match class {
        AppendageClass::Forelimb | AppendageClass::Hindlimb => Vec3 {
            x: 0i64,
            y: ((-SCALE) as i64),
            z: 0i64,
        },
        AppendageClass::Wing => Vec3 { x: SCALE, y: 0i64, z: 0i64 },
        AppendageClass::Tail => c.bone_axis,
        AppendageClass::Tentacle => Vec3 { x: 0i64, y: ((-SCALE) as i64), z: 0i64 },
        AppendageClass::Antenna => Vec3 { x: 0i64, y: SCALE, z: 0i64 },
    }
}

/// Fixed chain axis of the mandible: straight down.
pub open spec fn spec_mandible_axis() -> Vec3 {
    Vec3 { x: 0i64, y: ((-SCALE) as i64), z: 0i64 }
}

/// Rest translation of the mandible root: below and slightly forward of the head.
pub open spec fn spec_mandible_root_translation() -> Vec3 {
    Vec3 { x: 0i64, y: -200i64, z: 100i64 }
}

/// Symmetric fan-out offset for entry `index` among `total` siblings.
pub open spec fn spec_spread_offset(index: int, total: int) -> int {
    if total <= 1 {
        0
    } else if 2 * index >= total - 1 {
        ((2 * index - (total - 1)) * SPREAD_HALF) / (total - 1)
    } else {
        -((((total - 1) - 2 * index) * SPREAD_HALF) / (total - 1))
    }
}

/// Articulation carried by a segment's distal joint, if any.
pub open spec fn spec_seg_articulation(seg: BoneSegment) -> Option<JointArticulation> {
    match seg.distal_joint {
        Some(j) => Some(j.articulation),
        None => None,
    }
}

/// Every chain of the limb structure is short enough for chain indices.
pub open spec fn limb_bounded(limb: LimbStructure) -> bool
    decreases limb,
{
    &&& limb.segments@.len() <= MAX_CHAIN
    &&& match limb.branching {
        Some(bp) => limb_bounded(*bp.branch),
        None => true,
    }
}

pub open spec fn spec_socket_bounded(socket: SymmetricSocket<Appendage>) -> bool {
    match socket {
        SymmetricSocket::Medial(s) => match s.attachment {
            Some(a) => limb_bounded(a.structure),
            None => true,
        },
        SymmetricSocket::Lateral(pair) => {
            &&& match pair.left.attachment {
                Some(a) => limb_bounded(a.structure),
                None => true,
            }
            &&& match pair.right.attachment {
                Some(a) => limb_bounded(a.structure),
                None => true,
            }
        },
    }
}

/// Chain-length bounds the generator asks of an organism; they are what the
/// id's one-byte chain index and the fixed-point offset sums can carry.
pub open spec fn organism_bounded(o: Organism) -> bool {
    &&& o.spec_torso().spine.vertebrae@.len() <= MAX_CHAIN
    &&& match o.spec_head().mandible_socket {
        Some(sock) => match sock.attachment {
            Some(m) => m.segments@.len() <= MAX_CHAIN,
            None => true,
        },
        None => true,
    }
    &&& forall|k: int|
        0 <= k < o.spec_torso().spine.appendages@.len() ==> spec_socket_bounded(
            (#[trigger] o.spec_torso().spine.appendages@[k]).socket,
        )
}

/// Lateral placement of a bilateral appendage root.
pub open spec fn spec_side_lateral(side: Option<Side>, c: SkeletonConfig) -> int {
    match side {
        Some(s) => s.spec_mirror_x() * c.default_lateral_offset,
        None => 0,
    }
}

/// Model of one terminal digit node.
pub open spec fn spec_digit_model(
    j: int,
    total: int,
    side: Option<Side>,
    path: Seq<u8>,
    c: SkeletonConfig,
) -> NodeModel {
    NodeModel {
        id: BoneIdView { class: BoneClass::Digit, side, index: j as u8, branch_path: path },
        rest: RestTransform {
            translation: c.lateral_axis.spec_scaled(spec_spread_offset(j, total)),
            rotation: Rotation::spec_identity(),
        },
        length: Length::spec_new(DIGIT_BONE_LENGTH),
        articulation: None,
        children: Seq::empty(),
    }
}

/// Models of all terminal bones a terminus spawns, in index order.
pub open spec fn spec_digit_models(
    t: Terminus,
    side: Option<Side>,
    path: Seq<u8>,
    c: SkeletonConfig,
) -> Seq<NodeModel> {
    Seq::new(
        spec_terminal_bone_count(t) as nat,
        |j: int| spec_digit_model(j, spec_terminal_bone_count(t) as int, side, path, c),
    )
}

/// Model of the chain node for segment `i` of a limb structure, with its
/// branch subtrees, the rest of the chain, and terminal digits below it.
pub open spec fn spec_chain_node(
    limb: LimbStructure,
    class: AppendageClass,
    side: Option<Side>,
    lateral_offset: int,
    path: Seq<u8>,
    c: SkeletonConfig,
    i: int,
) -> NodeModel
    decreases limb, 0int, limb.segments@.len() - i,
{
    let segs = limb.segments@;
    let branch_kids: Seq<NodeModel> = if 1 <= i && limb.branching is Some
        && limb.branching->0.parent_segment == i {
        spec_branch_models_from(limb.branching->0, class, side, path, c, 0)
    } else {
        Seq::empty()
    };
    let below: Seq<NodeModel> = if i + 1 < segs.len() {
        seq![spec_chain_node(limb, class, side, lateral_offset, path, c, i + 1)]
    } else {
        spec_digit_models(limb.terminus, side, path, c)
    };
    NodeModel {
        id: BoneIdView { class: BoneClass::Limb(class), side, index: i as u8, branch_path: path },
        rest: if i == 0 {
            RestTransform {
                translation: c.lateral_axis.spec_scaled(lateral_offset),
                rotation: Rotation::spec_identity(),
            }
        } else {
            RestTransform {
                translation: spec_limb_axis(class, c).spec_scaled(
                    segs[i - 1].bone.length.spec_value() as int,
                ),
                rotation: Rotation::spec_identity(),
            }
        },
        length: if i < segs.len() {
            segs[i].bone.length
        } else {
            Length::spec_new(DEFAULT_SEGMENT_LENGTH)
        },
        articulation: if i < segs.len() {
            spec_seg_articulation(segs[i])
        } else {
            None
        },
        children: branch_kids + below,
    }
}

/// Models of the sub-limbs a branch point spawns, from branch `k` on.
pub open spec fn spec_branch_models_from(
    bp: BranchPoint,
    class: AppendageClass,
    side: Option<Side>,
    path: Seq<u8>,
    c: SkeletonConfig,
    k: int,
) -> Seq<NodeModel>
    decreases bp, 1int, bp.branch_count.spec_value() - k,
{
    if k >= bp.branch_count.spec_value() as int {
        Seq::empty()
    } else {
        seq![
            spec_limb_model(
                *bp.branch,
                class,
                side,
                spec_spread_offset(k, bp.branch_count.spec_value() as int),
                path.push(k as u8),
                c,
            ),
        ] + spec_branch_models_from(bp, class, side, path, c, k + 1)
    }
}

/// Model of a whole limb structure, rooted at its first segment.
pub open spec fn spec_limb_model(
    limb: LimbStructure,
    class: AppendageClass,
    side: Option<Side>,
    lateral_offset: int,
    path: Seq<u8>,
    c: SkeletonConfig,
) -> NodeModel
    decreases limb, 1int, 0int,
{
    spec_chain_node(limb, class, side, lateral_offset, path, c, 0)
}

/// Model of one appendage hung on a socket.
pub open spec fn spec_appendage_model(
    a: Appendage,
    side: Option<Side>,
    c: SkeletonConfig,
) -> NodeModel {
    spec_limb_model(a.structure, a.class, side, spec_side_lateral(side, c), Seq::empty(), c)
}

/// Zero, one or two appendage subtrees a symmetric socket contributes.
pub open spec fn spec_socket_models(
    socket: SymmetricSocket<Appendage>,
    c: SkeletonConfig,
) -> Seq<NodeModel> {
    match socket {
        SymmetricSocket::Medial(s) => match s.attachment {
            Some(a) => seq![spec_appendage_model(a, None, c)],
            None => Seq::empty(),
        },
        SymmetricSocket::Lateral(pair) => (match pair.left.attachment {
            Some(a) => seq![spec_appendage_model(a, Some(Side::Left), c)],
            None => Seq::empty(),
        }) + (match pair.right.attachment {
            Some(a) => seq![spec_appendage_model(a, Some(Side::Right), c)],
            None => Seq::empty(),
        }),
    }
}

/// Appendage subtrees of vertebra `i`, contributed by the attachments in
/// list order.
pub open spec fn spec_vert_children(
    atts: Seq<SpinalAttachment<Appendage>>,
    i: int,
    c: SkeletonConfig,
) -> Seq<NodeModel>
    decreases atts.len(),
{
    if atts.len() == 0 {
        Seq::empty()
    } else {
        (if atts[0].vertebra_index.0 == i {
            spec_socket_models(atts[0].socket, c)
        } else {
            Seq::empty()
        }) + spec_vert_children(atts.drop_first(), i, c)
    }
}

/// Sum of the lengths of the vertebrae before index `i`, in ticks.
pub open spec fn spec_cum_length(verts: Seq<Vertebra>, i: int) -> int
    decreases i,
{
    if i <= 0 {
        0
    } else {
        spec_cum_length(verts, i - 1) + verts[i - 1].bone.length.spec_value()
    }
}

/// Sum of the lengths of the mandible segments before index `i`, in ticks.
pub open spec fn spec_mand_cum(segs: Seq<BoneSegment>, i: int) -> int
    decreases i,
{
    if i <= 0 {
        0
    } else {
        spec_mand_cum(segs, i - 1) + segs[i - 1].bone.length.spec_value()
    }
}

/// Model of the vertebra node at index `i`.
pub open spec fn spec_vert_model(o: Organism, c: SkeletonConfig, i: int) -> NodeModel {
    let verts = o.spec_torso().spine.vertebrae@;
    NodeModel {
        id: BoneIdView {
            class: BoneClass::Spine,
            side: None,
            index: i as u8,
            branch_path: Seq::empty(),
        },
        rest: RestTransform {
            translation: c.bone_axis.spec_scaled(spec_cum_length(verts, i)),
            rotation: Rotation::spec_identity(),
        },
        length: verts[i].bone.length,
        articulation: None,
        children: spec_vert_children(o.spec_torso().spine.appendages@, i, c),
    }
}

/// Models of all vertebra nodes from index `i` on.
pub open spec fn spec_spine_models_from(o: Organism, c: SkeletonConfig, i: int) -> Seq<NodeModel>
    decreases o.spec_torso().spine.vertebrae@.len() - i,
{
    if i < 0 || i >= o.spec_torso().spine.vertebrae@.len() {
        Seq::empty()
    } else {
        seq![spec_vert_model(o, c, i)] + spec_spine_models_from(o, c, i + 1)
    }
}

/// Model of the mandible chain node at segment `i`.
pub open spec fn spec_mand_node(m: crate::anatomical_features::MandibleStructure, i: int) -> NodeModel
    decreases m.segments@.len() - i,
{
    let segs = m.segments@;
    NodeModel {
        id: BoneIdView {
            class: BoneClass::Mandible,
            side: None,
            index: i as u8,
            branch_path: Seq::empty(),
        },
        rest: if i == 0 {
            RestTransform {
                translation: spec_mandible_root_translation(),
                rotation: Rotation::spec_identity(),
            }
        } else {
            RestTransform {
                translation: spec_mandible_axis().spec_scaled(spec_mand_cum(segs, i)),
                rotation: Rotation::spec_identity(),
            }
        },
        length: if i < segs.len() {
            segs[i].bone.length
        } else {
            Length::spec_new(DEFAULT_SEGMENT_LENGTH)
        },
        articulation: if i + 1 < segs.len() {
            spec_seg_articulation(segs[i + 1])
        } else {
            None
        },
        children: if i + 1 < segs.len() {
            seq![spec_mand_node(m, i + 1)]
        } else {
            Seq::empty()
        },
    }
}

/// Model of the whole mandible chain.
pub open spec fn spec_mandible_model(m: crate::anatomical_features::MandibleStructure) -> NodeModel {
    spec_mand_node(m, 0)
}

/// Model of the head node with its optional mandible child.
pub open spec fn spec_head_model(o: Organism, c: SkeletonConfig) -> NodeModel {
    NodeModel {
        id: BoneIdView {
            class: BoneClass::Head,
            side: None,
            index: 0u8,
            branch_path: Seq::empty(),
        },
        rest: RestTransform {
            translation: c.bone_axis.spec_scaled(0),
            rotation: Rotation::spec_identity(),
        },
        length: o.spec_head().bone.length,
        articulation: None,
        children: match o.spec_head().mandible_socket {
            Some(sock) => match sock.attachment {
                Some(m) => seq![spec_mandible_model(m)],
                None => Seq::empty(),
            },
            None => Seq::empty(),
        },
    }
}

/// Model of the complete generated skeleton.
pub open spec fn spec_generate(o: Organism, c: SkeletonConfig) -> NodeModel {
    NodeModel {
        id: BoneIdView {
            class: BoneClass::Root,
            side: None,
            index: 0u8,
            branch_path: Seq::empty(),
        },
        rest: spec_identity_rest(),
        length: Length::spec_new(ROOT_BONE_LENGTH),
        articulation: None,
        children: seq![spec_head_model(o, c)] + spec_spine_models_from(o, c, 0),
    }
}

/// A fresh copy of a branch path.
fn copy_path(path: &Vec<u8>) -> (r: Vec<u8>)
    ensures
        r@ =~= path@,
{
    let mut out: Vec<u8> = Vec::new();
    let mut i: usize = 0;
    while i < path.len()
        invariant
            i <= path@.len(),
            out@ =~= path@.take(i as int),
        decreases path@.len() - i,
    {
        out.push(path[i]);
        proof {
            assert(path@.take(i as int + 1) =~= path@.take(i as int).push(path@[i as int]));
        }
        i = i + 1;
    }
    proof {
        assert(path@.take(path@.len() as int) =~= path@);
    }
    out
}

/// Generates skeleton hierarchies from organisms.
pub struct SkeletonGenerator {
    config: SkeletonConfig,
}

impl SkeletonGenerator {
    pub closed spec fn spec_config(&self) -> SkeletonConfig {
        self.config
    }

    pub fn new(config: SkeletonConfig) -> (r: SkeletonGenerator)
        ensures
            r.spec_config() == config,
    {
        SkeletonGenerator { config }
    }

    pub fn with_default_config() -> (r: SkeletonGenerator)
        ensures
            r.spec_config() == spec_default_config(),
    {
        SkeletonGenerator::new(SkeletonConfig::default())
    }

    /// Calculate the lateral spread for one of `total` fanned-out siblings.
    fn branch_spread_offset(&self, index: u8, total: u8) -> (r: i64)
        ensures
            r == spec_spread_offset(index as int, total as int),
            -100_000 <= r <= 100_000,
    {
        if total <= 1 {
            return 0;
        }
        let t1: u64 = (total - 1) as u64;
        let n2: u64 = 2 * (index as u64);
        if n2 >= t1 {
            let diff: u64 = n2 - t1;
            proof {
                assert(diff * (SPREAD_HALF as u64) <= 76500) by (nonlinear_arith)
                    requires
                        0 <= diff <= 510,
                        SPREAD_HALF == 150,
                ;
            }
            ((diff * (SPREAD_HALF as u64)) / t1) as i64
        } else {
            let diff: u64 = t1 - n2;
            proof {
                assert(diff * (SPREAD_HALF as u64) <= 76500) by (nonlinear_arith)
                    requires
                        0 <= diff <= 510,
                        SPREAD_HALF == 150,
                ;
            }
            -(((diff * (SPREAD_HALF as u64)) / t1) as i64)
        }
    }

    /// The primary axis along which limbs of this class extend.
    fn limb_axis_for_class(&self, class: AppendageClass) -> (r: Vec3)
        requires
            self.config.wf(),
        ensures
            r == spec_limb_axis(class, self.config),
            r.axis_bounded(),
    {
        match class {
            AppendageClass::Forelimb | AppendageClass::Hindlimb => Vec3::new(0, -SCALE, 0),
            AppendageClass::Wing => Vec3::new(SCALE, 0, 0),
            AppendageClass::Tail => self.config.bone_axis,
            AppendageClass::Tentacle => Vec3::new(0, -SCALE, 0),
            AppendageClass::Antenna => Vec3::new(0, SCALE, 0),
        }
    }

    /// Terminal digit nodes spawned by a terminus, fanned out laterally.
    fn generate_terminus(&self, terminus: &Terminus, side: Option<Side>, path: &Vec<u8>) -> (r:
        Vec<SkeletonNode>)
        requires
            self.config.wf(),
        ensures
            model_children(r@) =~= spec_digit_models(*terminus, side, path@, self.config),
    {
        let bone_count = terminus.terminal_bone_count();
        let ghost target: Seq<NodeModel> = spec_digit_models(*terminus, side, path@, self.config);
        let mut out: Vec<SkeletonNode> = Vec::new();
        proof {
            assert(model_children(out@) =~= target.take(0));
        }
        let digit_length = Length::new(DIGIT_BONE_LENGTH).unwrap();
        let mut j: u8 = 0;
        while j < bone_count
            invariant
                j <= bone_count,
                self.config.wf(),
                bone_count == spec_terminal_bone_count(*terminus),
                digit_length == Length::spec_new(DIGIT_BONE_LENGTH),
                target == spec_digit_models(*terminus, side, path@, self.config),
                target.len() == bone_count,
                out@.len() == j,
                model_children(out@) =~= target.take(j as int),
            decreases bone_count - j,
        {
            let spread = self.branch_spread_offset(j, bone_count);
            let id = BoneId {
                class: BoneClass::Digit,
                side,
                index: j,
                branch_path: copy_path(path),
            };
            let node = SkeletonNode::new(id, digit_length).with_rest(
                RestTransform::from_translation(self.config.lateral_axis.scaled(spread)),
            );
            proof {
                assert(node.model() =~= spec_digit_model(
                    j as int,
                    bone_count as int,
                    side,
                    path@,
                    self.config,
                ));
                crate::node::lemma_model_children_push(out@, node);
                assert(target.take(j as int + 1) =~= target.take(j as int).push(
                    target[j as int],
                ));
            }
            out.push(node);
            j = j + 1;
        }
        proof {
            assert(target.take(target.len() as int) =~= target);
        }
        out
    }

    /// All sub-limbs spawned by one branch point, in branch order.
    fn generate_branches(
        &self,
        branch_point: &BranchPoint,
        class: AppendageClass,
        side: Option<Side>,
        parent_path: &Vec<u8>,
    ) -> (r: Vec<SkeletonNode>)
        requires
            self.config.wf(),
            limb_bounded(*branch_point.branch),
        ensures
            model_children(r@) =~= spec_branch_models_from(
                *branch_point,
                class,
                side,
                parent_path@,
                self.config,
                0,
            ),
        decreases *branch_point, 0int, 0int,
    {
        let count = branch_point.branch_count.value();
        let mut out: Vec<SkeletonNode> = Vec::new();
        let mut k: u8 = 0;
        proof {
            assert(model_children(out@) =~= Seq::<NodeModel>::empty());
        }
        while k < count
            invariant
                k <= count,
                self.config.wf(),
                limb_bounded(*branch_point.branch),
                count == branch_point.branch_count.spec_value(),
                out@.len() == k,
                model_children(out@) + spec_branch_models_from(
                    *branch_point,
                    class,
                    side,
                    parent_path@,
                    self.config,
                    k as int,
                ) =~= spec_branch_models_from(
                    *branch_point,
                    class,
                    side,
                    parent_path@,
                    self.config,
                    0,
                ),
            decreases count - k,
        {
            let mut new_path = copy_path(parent_path);
            new_path.push(k);
            let spread = self.branch_spread_offset(k, count);
            let branch_node = self.generate_limb(
                &branch_point.branch,
                class,
                side,
                spread,
                &new_path,
            );
            proof {
                assert(new_path@ =~= parent_path@.push(k));
                crate::node::lemma_model_children_push(out@, branch_node);
            }
            out.push(branch_node);
            k = k + 1;
        }
        proof {
            assert(spec_branch_models_from(
                *branch_point,
                class,
                side,
                parent_path@,
                self.config,
                count as int,
            ) =~= Seq::<NodeModel>::empty());
            assert(model_children(out@) + Seq::<NodeModel>::empty() =~= model_children(out@));
        }
        out
    }

    /// The chain node for segment `i`, with everything hanging below it.
    fn generate_chain_node(
        &self,
        limb: &LimbStructure,
        class: AppendageClass,
        side: Option<Side>,
        lateral_offset: i64,
        path: &Vec<u8>,
        i: usize,
    ) -> (r: SkeletonNode)
        requires
            self.config.wf(),
            limb_bounded(*limb),
            i == 0 || i < limb.segments@.len(),
            -MAX_LENGTH - SPREAD_HALF <= lateral_offset <= MAX_LENGTH + SPREAD_HALF,
        ensures
            r.model() =~= spec_chain_node(
                *limb,
                class,
                side,
                lateral_offset as int,
                path@,
                self.config,
                i as int,
            ),
        decreases *limb, 1int, limb.segments@.len() - i,
    {
        let segs_len = limb.segments.len();
        let length: Length = if i < segs_len {
            limb.segments[i].bone.length
        } else {
            Length::new(DEFAULT_SEGMENT_LENGTH).unwrap()
        };
        let id = BoneId {
            class: BoneClass::Limb(class),
            side,
            index: i as u8,
            branch_path: copy_path(path),
        };
        let rest = if i == 0 {
            RestTransform::from_translation(self.config.lateral_axis.scaled(lateral_offset))
        } else {
            let prev_len = limb.segments[i - 1].bone.length.value();
            RestTransform::from_offset_along_parent(prev_len, self.limb_axis_for_class(class))
        };
        let mut node = SkeletonNode::new(id, length).with_rest(rest);
        if i < segs_len {
            if let Some(art) = limb.segments[i].articulation() {
                node = node.with_articulation(*art);
            }
        }
        let ghost after_art: NodeModel = node.model();
        if i >= 1 {
            if let Some(bp) = &limb.branching {
                if bp.parent_segment == i {
                    let branch_nodes = self.generate_branches(bp, class, side, path);
                    crate::node::append_children(&mut node, branch_nodes);
                }
            }
        }
        let ghost after_branches: NodeModel = node.model();
        if i + 1 < segs_len {
            let child = self.generate_chain_node(limb, class, side, lateral_offset, path, i + 1);
            node.add_child(child);
        } else {
            let digit_nodes = self.generate_terminus(&limb.terminus, side, path);
            crate::node::append_children(&mut node, digit_nodes);
        }
        proof {
            let target = spec_chain_node(
                *limb,
                class,
                side,
                lateral_offset as int,
                path@,
                self.config,
                i as int,
            );
            assert(after_art.children =~= Seq::<NodeModel>::empty());
            if i + 1 < segs_len {
                assert(node.model().children =~= after_branches.children + seq![
                    spec_chain_node(
                        *limb,
                        class,
                        side,
                        lateral_offset as int,
                        path@,
                        self.config,
                        i as int + 1,
                    ),
                ]);
            }
            assert(node.model().children =~= target.children);
            assert(node.model() =~= target);
        }
        node
    }

    /// Build the subtree of one whole limb structure.
    fn generate_limb(
        &self,
        limb: &LimbStructure,
        class: AppendageClass,
        side: Option<Side>,
        lateral_offset: i64,
        branch_path: &Vec<u8>,
    ) -> (r: SkeletonNode)
        requires
            self.config.wf(),
            limb_bounded(*limb),
            -MAX_LENGTH - SPREAD_HALF <= lateral_offset <= MAX_LENGTH + SPREAD_HALF,
        ensures
            r.model() =~= spec_limb_model(
                *limb,
                class,
                side,
                lateral_offset as int,
                branch_path@,
                self.config,
            ),
        decreases *limb, 2int, 0int,
    {
        self.generate_chain_node(limb, class, side, lateral_offset, branch_path, 0)
    }

    /// One appendage subtree: place it laterally by side, then build its limb.
    fn generate_appendage(&self, appendage: &Appendage, side: Option<Side>) -> (r: SkeletonNode)
        requires
            self.config.wf(),
            limb_bounded(appendage.structure),
        ensures
            r.model() =~= spec_appendage_model(*appendage, side, self.config),
    {
        let lateral_offset: i64 = match side {
            Some(s) => {
                let off = self.config.default_lateral_offset;
                if s.mirror_x() >= 0 {
                    off
                } else {
                    -off
                }
            },
            None => 0,
        };
        proof {
            assert(lateral_offset == spec_side_lateral(side, self.config));
        }
        let empty_path: Vec<u8> = Vec::new();
        proof {
            assert(empty_path@ =~= Seq::<u8>::empty());
        }
        self.generate_limb(&appendage.structure, appendage.class, side, lateral_offset, &empty_path)
    }

    /// Zero, one or two appendage subtrees hanging off one symmetric socket.
    fn generate_appendage_from_socket(
        &self,
        socket: &SymmetricSocket<Appendage>,
        _vertebra_index: u8,
    ) -> (r: Vec<SkeletonNode>)
        requires
            self.config.wf(),
            spec_socket_bounded(*socket),
        ensures
            model_children(r@) =~= spec_socket_models(*socket, self.config),
    {
        let mut out: Vec<SkeletonNode> = Vec::new();
        proof {
            assert(model_children(out@) =~= Seq::<NodeModel>::empty());
        }
        match socket {
            SymmetricSocket::Medial(s) => {
                if let Some(appendage) = &s.attachment {
                    let node = self.generate_appendage(appendage, None);
                    proof {
                        crate::node::lemma_model_children_push(out@, node);
                    }
                    out.push(node);
                }
            },
            SymmetricSocket::Lateral(pair) => {
                if let Some(left_app) = &pair.left.attachment {
                    let node = self.generate_appendage(left_app, Some(Side::Left));
                    proof {
                        crate::node::lemma_model_children_push(out@, node);
                    }
                    out.push(node);
                }
                if let Some(right_app) = &pair.right.attachment {
                    let node = self.generate_appendage(right_app, Some(Side::Right));
                    proof {
                        crate::node::lemma_model_children_push(out@, node);
                    }
                    out.push(node);
                }
            },
        }
        out
    }

    /// One mandible chain node, with the rest of the chain nested below it.
    fn generate_mandible_node(
        &self,
        mandible: &crate::anatomical_features::MandibleStructure,
        i: usize,
        cum: i64,
    ) -> (r: SkeletonNode)
        requires
            mandible.segments@.len() <= MAX_CHAIN,
            i == 0 || i < mandible.segments@.len(),
            cum == spec_mand_cum(mandible.segments@, i as int),
            0 <= cum <= i * MAX_LENGTH,
        ensures
            r.model() =~= spec_mand_node(*mandible, i as int),
        decreases mandible.segments@.len() - i,
    {
        let segs_len = mandible.segments.len();
        let length: Length = if i < segs_len {
            mandible.segments[i].bone.length
        } else {
            Length::new(DEFAULT_SEGMENT_LENGTH).unwrap()
        };
        let id = BoneId { class: BoneClass::Mandible, side: None, index: i as u8, branch_path: Vec::new() };
        let rest = if i == 0 {
            RestTransform::from_translation(Vec3::new(0, -200, 100))
        } else {
            RestTransform::from_offset_along_parent(cum, Vec3::new(0, -SCALE, 0))
        };
        let mut node = SkeletonNode::new(id, length).with_rest(rest);
        if i + 1 < segs_len {
            if let Some(art) = mandible.segments[i + 1].articulation() {
                node = node.with_articulation(*art);
            }
            let next_cum = cum + mandible.segments[i].bone.length.value();
            let child = self.generate_mandible_node(mandible, i + 1, next_cum);
            node.add_child(child);
        }
        proof {
            let target = spec_mand_node(*mandible, i as int);
            assert(id@.branch_path =~= Seq::<u8>::empty());
            assert(node.model().children =~= target.children);
            assert(node.model() =~= target);
        }
        node
    }

    /// The mandible's segment chain, its first segment as the subtree root.
    fn generate_mandible(
        &self,
        mandible: &crate::anatomical_features::MandibleStructure,
    ) -> (r: SkeletonNode)
        requires
            mandible.segments@.len() <= MAX_CHAIN,
        ensures
            r.model() =~= spec_mandible_model(*mandible),
    {
        self.generate_mandible_node(mandible, 0, 0)
    }

    /// The head node, with the mandible chain below it when one is socketed.
    fn generate_head(&self, organism: &Organism) -> (r: SkeletonNode)
        requires
            self.config.wf(),
            organism_bounded(*organism),
        ensures
            r.model() =~= spec_head_model(*organism, self.config),
    {
        let cranium = organism.head();
        let head_length = cranium.length();
        let mut head_node = SkeletonNode::new(BoneId::head(), head_length).with_rest(
            RestTransform::from_offset_along_parent(0, self.config.bone_axis),
        );
        if let Some(mandible_socket) = &cranium.mandible_socket {
            if let Some(mandible) = &mandible_socket.attachment {
                let mandible_node = self.generate_mandible(mandible);
                head_node.add_child(mandible_node);
            }
        }
        proof {
            let target = spec_head_model(*organism, self.config);
            assert(head_node.model().children =~= target.children);
            assert(head_node.model() =~= target);
        }
        head_node
    }

    /// One node per vertebra, in spine order, each with its appendages.
    fn generate_spine(&self, organism: &Organism) -> (r: Vec<SkeletonNode>)
        requires
            self.config.wf(),
            organism_bounded(*organism),
        ensures
            model_children(r@) =~= spec_spine_models_from(*organism, self.config, 0),
    {
        let spine = &organism.torso().spine;
        let ghost verts: Seq<Vertebra> = spine.vertebrae@;
        let ghost atts: Seq<SpinalAttachment<Appendage>> = spine.appendages@;
        let n = spine.vertebrae.len();
        let mut spine_nodes: Vec<SkeletonNode> = Vec::new();
        let mut cumulative_offset: i64 = 0;
        let mut i: usize = 0;
        proof {
            assert(model_children(spine_nodes@) =~= Seq::<NodeModel>::empty());
        }
        while i < n
            invariant
                i <= n,
                self.config.wf(),
                organism_bounded(*organism),
                n == verts.len(),
                verts == organism.spec_torso().spine.vertebrae@,
                atts == organism.spec_torso().spine.appendages@,
                spine.vertebrae@ == verts,
                spine.appendages@ == atts,
                n <= MAX_CHAIN,
                cumulative_offset == spec_cum_length(verts, i as int),
                0 <= cumulative_offset <= i * MAX_LENGTH,
                spine_nodes@.len() == i,
                model_children(spine_nodes@) + spec_spine_models_from(
                    *organism,
                    self.config,
                    i as int,
                ) =~= spec_spine_models_from(*organism, self.config, 0),
            decreases n - i,
        {
            let vertebra = spine.vertebrae.get(i);
            let vert_length = vertebra.bone.length;
            let mut vert_node = SkeletonNode::new(BoneId::spine(i as u8), vert_length).with_rest(
                RestTransform::from_offset_along_parent(cumulative_offset, self.config.bone_axis),
            );
            let ghost base: NodeModel = vert_node.model();
            let m = spine.appendages.len();
            let mut k: usize = 0;
            proof {
                assert(spec_vert_children(atts.take(0), i as int, self.config) =~= Seq::<
                    NodeModel,
                >::empty());
                assert(vert_node.model().children =~= Seq::<NodeModel>::empty());
            }
            while k < m
                invariant
                    k <= m,
                    self.config.wf(),
                    organism_bounded(*organism),
                    m == atts.len(),
                    atts == organism.spec_torso().spine.appendages@,
                    i < n,
                    n == verts.len(),
                    spine.appendages@ == atts,
                    vert_node.model() == (NodeModel {
                        children: spec_vert_children(atts.take(k as int), i as int, self.config),
                        ..base
                    }),
                decreases m - k,
            {
                let attachment = &spine.appendages[k];
                proof {
                    lemma_vert_children_take_snoc(atts, i as int, self.config, k as int);
                }
                if attachment.vertebra_index.0 as usize == i {
                    let app_nodes = self.generate_appendage_from_socket(
                        &attachment.socket,
                        i as u8,
                    );
                    crate::node::append_children(&mut vert_node, app_nodes);
                }
                k = k + 1;
            }
            proof {
                assert(atts.take(atts.len() as int) =~= atts);
                assert(vert_node.model() =~= spec_vert_model(*organism, self.config, i as int));
                crate::node::lemma_model_children_push(spine_nodes@, vert_node);
            }
            cumulative_offset = cumulative_offset + vert_length.value();
            spine_nodes.push(vert_node);
            i = i + 1;
        }
        proof {
            assert(spec_spine_models_from(*organism, self.config, n as int) =~= Seq::<
                NodeModel,
            >::empty());
            assert(model_children(spine_nodes@) + Seq::<NodeModel>::empty() =~= model_children(
                spine_nodes@,
            ));
        }
        spine_nodes
    }

    /// Generate a complete skeleton from an organism.
    ///
    /// The result is exactly the mathematical skeleton `spec_generate`
    /// assigns to this organism and configuration: generation is a pure
    /// function of its inputs.
    pub fn generate(&self, organism: &Organism) -> (r: GeneratedSkeleton)
        requires
            self.spec_config().wf(),
            organism_bounded(*organism),
        ensures
            r.model() =~= spec_generate(*organism, self.spec_config()),
    {
        let root_length = Length::new(ROOT_BONE_LENGTH).unwrap();
        let mut root = SkeletonNode::new(BoneId::root(), root_length);
        let head_node = self.generate_head(organism);
        root.add_child(head_node);
        let spine_nodes = self.generate_spine(organism);
        crate::node::append_children(&mut root, spine_nodes);
        proof {
            let target = spec_generate(*organism, self.config);
            assert(root.model().children =~= target.children);
            assert(root.model() =~= target);
        }
        GeneratedSkeleton::new(root)
    }
}

/// Extending the scanned attachment prefix appends that socket's subtrees.
pub proof fn lemma_vert_children_take_snoc(
    atts: Seq<SpinalAttachment<Appendage>>,
    i: int,
    c: SkeletonConfig,
    k: int,
)
    requires
        0 <= k < atts.len(),
    ensures
        spec_vert_children(atts.take(k + 1), i, c) =~= spec_vert_children(atts.take(k), i, c) + (
        if atts[k].vertebra_index.0 == i {
            spec_socket_models(atts[k].socket, c)
        } else {
            Seq::<NodeModel>::empty()
        }),
    decreases k,
{
    if k == 0 {
        assert(atts.take(1) =~= seq![atts[0]]);
        assert(atts.take(1).drop_first() =~= Seq::<SpinalAttachment<Appendage>>::empty());
        assert(atts.take(0) =~= Seq::<SpinalAttachment<Appendage>>::empty());
    } else {
        assert(atts.take(k + 1).drop_first() =~= atts.drop_first().take(k));
        assert(atts.take(k).drop_first() =~= atts.drop_first().take(k - 1));
        assert(atts.take(k + 1)[0] == atts[0]);
        assert(atts.take(k)[0] == atts[0]);
        assert(atts.drop_first()[k - 1] == atts[k]);
        lemma_vert_children_take_snoc(atts.drop_first(), i, c, k - 1);
    }
}

} // verus!
