use vstd::prelude::*;
use crate::appendage::{Appendage, AppendageClass, LimbStructure, Terminus};
use crate::anatomical_features::MandibleStructure;
use crate::bone_id::{name_of, BoneIdView, Side};
use crate::generator::{
    limb_bounded, spec_chain_node, spec_digit_models, spec_generate, spec_head_model, spec_limb_model,
    spec_mand_node, spec_mandible_model, spec_socket_models, spec_spine_models_from,
    spec_spread_offset, spec_vert_model, SkeletonConfig,
};
use crate::node::{
    count_children, find_in, find_in_children, ids_of, model_count, preorder, preorder_children,
    NodeModel,
};
use crate::body::SpinalAttachment;
use crate::organism::Organism;
use crate::sockets_symmetry::SymmetricSocket;
use crate::traits::spec_terminal_bone_count;

verus! {

/// Concatenating child lists adds their node counts.
pub proof fn lemma_count_children_concat(a: Seq<NodeModel>, b: Seq<NodeModel>)
    ensures
        count_children(a + b) == count_children(a) + count_children(b),
    decreases a.len(),
{
    if a.len() == 0 {
        assert(a + b =~= b);
    } else {
        assert((a + b)[0] == a[0]);
        assert((a + b).drop_first() =~= a.drop_first() + b);
        lemma_count_children_concat(a.drop_first(), b);
    }
}

/// A singleton child list counts exactly its subtree.
pub proof fn lemma_count_children_singleton(m: NodeModel)
    ensures
        count_children(seq![m]) == model_count(m),
{
    assert(seq![m][0] == m);
    assert(seq![m].drop_first() =~= Seq::<NodeModel>::empty());
    assert(count_children(Seq::<NodeModel>::empty()) == 0);
}

/// A childless node counts one.
pub proof fn lemma_count_leaf(m: NodeModel)
    requires
        m.children.len() == 0,
    ensures
        model_count(m) == 1,
{
    assert(m.children =~= Seq::<NodeModel>::empty());
}

/// The digit list a terminus spawns has exactly its terminal bone count.
///
/// Claw and Paw termini spawn one digit node per digit, Pincer two,
/// Tapered, Hoof and Sucker none.
pub proof fn lemma_terminus_digit_count(
    t: Terminus,
    side: Option<Side>,
    path: Seq<u8>,
    c: SkeletonConfig,
)
    ensures
        spec_digit_models(t, side, path, c).len() == spec_terminal_bone_count(t),
        forall|j: int|
            0 <= j < spec_terminal_bone_count(t) ==> (#[trigger] spec_digit_models(
                t,
                side,
                path,
                c,
            )[j]).id == (BoneIdView {
                class: crate::bone_id::BoneClass::Digit,
                side,
                index: j as u8,
                branch_path: path,
            }),
        forall|j: int|
            0 <= j < spec_terminal_bone_count(t) ==> (#[trigger] spec_digit_models(
                t,
                side,
                path,
                c,
            )[j]).children.len() == 0,
{
}

/// Every digit node is a leaf, so the digits contribute exactly
/// `terminal_bone_count` nodes to the tree.
pub proof fn lemma_digit_models_count(
    t: Terminus,
    side: Option<Side>,
    path: Seq<u8>,
    c: SkeletonConfig,
)
    ensures
        count_children(spec_digit_models(t, side, path, c)) == spec_terminal_bone_count(t),
{
    lemma_digits_count_from(spec_digit_models(t, side, path, c));
}

proof fn lemma_digits_count_from(s: Seq<NodeModel>)
    requires
        forall|j: int| 0 <= j < s.len() ==> (#[trigger] s[j]).children.len() == 0,
    ensures
        count_children(s) == s.len(),
    decreases s.len(),
{
    if s.len() > 0 {
        lemma_count_leaf(s[0]);
        lemma_digits_count_from(s.drop_first());
    }
}

/// The mandible chain for a segment list of length `n` holds `n` nodes
/// (one node even when the list is empty: the chain root with its
/// substitute length).
pub proof fn lemma_mandible_chain_count(m: MandibleStructure, i: int)
    requires
        0 <= i,
        i == 0 || i < m.segments@.len(),
    ensures
        model_count(spec_mand_node(m, i)) == if m.segments@.len() == 0 {
            1int
        } else {
            m.segments@.len() - i
        },
    decreases m.segments@.len() - i,
{
    let node = spec_mand_node(m, i);
    if i + 1 < m.segments@.len() {
        lemma_mandible_chain_count(m, i + 1);
        lemma_count_children_singleton(spec_mand_node(m, i + 1));
    } else {
        lemma_count_leaf(node);
    }
}

/// The head subtree holds one node, plus the mandible chain
/// when a mandible is socketed.
pub proof fn lemma_head_count(o: Organism, c: SkeletonConfig)
    ensures
        model_count(spec_head_model(o, c)) == 1 + (match o.spec_head().mandible_socket {
            Some(sock) => match sock.attachment {
                Some(m) => if m.segments@.len() == 0 {
                    1int
                } else {
                    m.segments@.len() as int
                },
                None => 0int,
            },
            None => 0int,
        }),
{
    let head = spec_head_model(o, c);
    match o.spec_head().mandible_socket {
        Some(sock) => match sock.attachment {
            Some(m) => {
                lemma_mandible_chain_count(m, 0);
                lemma_count_children_singleton(spec_mandible_model(m));
            },
            None => {
                lemma_count_leaf(head);
            },
        },
        None => {
            lemma_count_leaf(head);
        },
    }
}

/// With no appendage attachments, every vertebra node is a leaf, and the
/// spine subtrees from index `i` on hold one node per vertebra.
pub proof fn lemma_bare_spine_count(o: Organism, c: SkeletonConfig, i: int)
    requires
        0 <= i <= o.spec_torso().spine.vertebrae@.len(),
        o.spec_torso().spine.appendages@.len() == 0,
    ensures
        count_children(spec_spine_models_from(o, c, i)) == o.spec_torso().spine.vertebrae@.len()
            - i,
    decreases o.spec_torso().spine.vertebrae@.len() - i,
{
    let n = o.spec_torso().spine.vertebrae@.len() as int;
    if i < n {
        assert(o.spec_torso().spine.appendages@ =~= Seq::<
            crate::body::SpinalAttachment<Appendage>,
        >::empty());
        lemma_count_leaf(spec_vert_model(o, c, i));
        lemma_bare_spine_count(o, c, i + 1);
        lemma_count_children_concat(seq![spec_vert_model(o, c, i)], spec_spine_models_from(o, c, i + 1));
        lemma_count_children_singleton(spec_vert_model(o, c, i));
    }
}

/// An organism with `N` vertebrae and no appendages generates a tree of
/// exactly `2 + N` nodes (root, head, one per vertebra); a socketed mandible
/// with one segment adds exactly one more.
pub proof fn lemma_simple_organism_count(o: Organism, c: SkeletonConfig)
    requires
        o.spec_torso().spine.appendages@.len() == 0,
    ensures
        (o.spec_head().mandible_socket is None || o.spec_head().mandible_socket->0.attachment
            is None) ==> model_count(spec_generate(o, c)) == 2
            + o.spec_torso().spine.vertebrae@.len(),
        (o.spec_head().mandible_socket is Some && o.spec_head().mandible_socket->0.attachment
            is Some && o.spec_head().mandible_socket->0.attachment->0.segments@.len() == 1)
            ==> model_count(spec_generate(o, c)) == 3 + o.spec_torso().spine.vertebrae@.len(),
{
    let tree = spec_generate(o, c);
    lemma_head_count(o, c);
    lemma_bare_spine_count(o, c, 0);
    lemma_count_children_concat(seq![spec_head_model(o, c)], spec_spine_models_from(o, c, 0));
    lemma_count_children_singleton(spec_head_model(o, c));
}

/// `find_in` succeeds exactly on the ids the tree holds, and what it
/// returns carries the id it was asked for.
pub proof fn lemma_find_iff_present(m: NodeModel, id: BoneIdView)
    ensures
        find_in(m, id) is Some <==> ids_of(m).contains(id),
        find_in(m, id) is Some ==> find_in(m, id)->0.id == id,
    decreases m,
{
    lemma_find_children_iff(m.children, id);
    if m.id == id {
        assert(ids_of(m)[0] == id);
        assert(ids_of(m).contains(id));
    } else {
        if find_in(m, id) is Some {
            let k = choose|k: int|
                0 <= k < m.children.len() && ids_of(#[trigger] m.children[k]).contains(id);
            lemma_preorder_children_to_member(m.children, k, id);
            let j = choose|j: int|
                0 <= j < preorder_children(m.children).len() && preorder_children(m.children)[j].id
                    == id;
            assert(preorder(m)[j + 1] == preorder_children(m.children)[j]);
            assert(ids_of(m)[j + 1] == id);
            assert(ids_of(m).contains(id));
        }
        if ids_of(m).contains(id) {
            let j = choose|j: int| 0 <= j < ids_of(m).len() && ids_of(m)[j] == id;
            assert(preorder(m)[j].id == id);
            if j == 0 {
            } else {
                assert(preorder_children(m.children)[j - 1].id == id);
                lemma_preorder_children_from_member(m.children, j - 1, id);
            }
        }
    }
}

/// A hit among the children is a hit in some child's subtree, and conversely.
proof fn lemma_find_children_iff(s: Seq<NodeModel>, id: BoneIdView)
    ensures
        find_in_children(s, id) is Some <==> exists|k: int|
            0 <= k < s.len() && ids_of(#[trigger] s[k]).contains(id),
        find_in_children(s, id) is Some ==> find_in_children(s, id)->0.id == id,
    decreases s,
{
    if s.len() == 0 {
    } else {
        lemma_find_iff_present(s[0], id);
        lemma_find_children_iff(s.drop_first(), id);
        if find_in_children(s, id) is Some {
            if find_in(s[0], id) is Some {
                assert(ids_of(s[0]).contains(id));
            } else {
                let k = choose|k: int|
                    0 <= k < s.drop_first().len() && ids_of(
                        #[trigger] s.drop_first()[k],
                    ).contains(id);
                assert(s[k + 1] == s.drop_first()[k]);
                assert(ids_of(s[k + 1]).contains(id));
            }
        }
        if exists|k: int| 0 <= k < s.len() && ids_of(#[trigger] s[k]).contains(id) {
            let k = choose|k: int| 0 <= k < s.len() && ids_of(#[trigger] s[k]).contains(id);
            if find_in(s[0], id) is None {
                if k == 0 {
                    assert(false);
                } else {
                    assert(s.drop_first()[k - 1] == s[k]);
                    assert(find_in_children(s.drop_first(), id) is Some);
                }
            }
        }
    }
}

/// An id inside child `k`'s subtree occurs in the concatenated child walk.
proof fn lemma_preorder_children_to_member(s: Seq<NodeModel>, k: int, id: BoneIdView)
    requires
        0 <= k < s.len(),
        ids_of(s[k]).contains(id),
    ensures
        exists|j: int|
            0 <= j < preorder_children(s).len() && (#[trigger] preorder_children(s)[j]).id == id,
    decreases s.len(),
{
    if k == 0 {
        let j = choose|j: int| 0 <= j < ids_of(s[0]).len() && ids_of(s[0])[j] == id;
        assert(preorder(s[0])[j].id == id);
        assert(preorder_children(s)[j] == preorder(s[0])[j]);
    } else {
        assert(s.drop_first()[k - 1] == s[k]);
        lemma_preorder_children_to_member(s.drop_first(), k - 1, id);
        let j = choose|j: int|
            0 <= j < preorder_children(s.drop_first()).len() && (#[trigger] preorder_children(
                s.drop_first(),
            )[j]).id == id;
        assert(preorder_children(s)[preorder(s[0]).len() + j] == preorder_children(
            s.drop_first(),
        )[j]);
    }
}

/// An id in the concatenated child walk lies inside some child's subtree.
proof fn lemma_preorder_children_from_member(s: Seq<NodeModel>, j: int, id: BoneIdView)
    requires
        0 <= j < preorder_children(s).len(),
        preorder_children(s)[j].id == id,
    ensures
        exists|k: int| 0 <= k < s.len() && ids_of(#[trigger] s[k]).contains(id),
    decreases s.len(),
{
    if s.len() == 0 {
    } else {
        let head_len = preorder(s[0]).len() as int;
        if j < head_len {
            assert(preorder(s[0])[j] == preorder_children(s)[j]);
            assert(ids_of(s[0])[j] == id);
            assert(ids_of(s[0]).contains(id));
        } else {
            assert(preorder_children(s.drop_first())[j - head_len] == preorder_children(s)[j]);
            lemma_preorder_children_from_member(s.drop_first(), j - head_len, id);
            let k = choose|k: int|
                0 <= k < s.drop_first().len() && ids_of(#[trigger] s.drop_first()[k]).contains(id);
            assert(s[k + 1] == s.drop_first()[k]);
        }
    }
}

/// A preorder walk yields the root first, and each child's
/// whole subtree before any later sibling's subtree.
pub proof fn lemma_preorder_root_first(m: NodeModel)
    ensures
        preorder(m).len() == model_count(m),
        preorder(m).len() >= 1,
        preorder(m)[0] == m,
{
    crate::node::lemma_preorder_len(m);
}

/// Generation is a pure function of the organism and the configuration:
/// two skeletons generated from the same pair agree as whole trees, and so
/// in their id sequences and name sets.
pub proof fn lemma_generation_deterministic(
    o: Organism,
    c: SkeletonConfig,
    m1: NodeModel,
    m2: NodeModel,
)
    requires
        m1 == spec_generate(o, c),
        m2 == spec_generate(o, c),
    ensures
        m1 == m2,
        ids_of(m1) == ids_of(m2),
        ids_of(m1).map_values(|v: BoneIdView| name_of(v)) == ids_of(m2).map_values(
            |v: BoneIdView| name_of(v),
        ),
        preorder(m1) == preorder(m2),
{
}

/// The fan-out offsets for three siblings are -150, 0 and +150
/// ticks (-0.15, 0 and +0.15 units of the lateral axis).
pub proof fn lemma_spread_three()
    ensures
        spec_spread_offset(0, 3) == -150,
        spec_spread_offset(1, 3) == 0,
        spec_spread_offset(2, 3) == 150,
{
}

/// A branch point with three branches at segment index 1 expands into
/// exactly three sibling subtrees at the front of that segment's children,
/// carrying branch paths `path + [0]`, `path + [1]`, `path + [2]` and the
/// spread offsets of `lemma_spread_three`.
pub proof fn lemma_branch_expansion(
    limb: LimbStructure,
    class: AppendageClass,
    side: Option<Side>,
    lateral_offset: int,
    path: Seq<u8>,
    c: SkeletonConfig,
)
    requires
        limb.branching is Some,
        limb.branching->0.parent_segment == 1,
        limb.branching->0.branch_count.spec_value() == 3,
        2 <= limb.segments@.len(),
    ensures
        ({
            let bp = limb.branching->0;
            let n1 = spec_chain_node(limb, class, side, lateral_offset, path, c, 1);
            &&& n1.children.len() >= 3
            &&& forall|k: int|
                0 <= k < 3 ==> n1.children[k] == spec_limb_model(
                    *bp.branch,
                    class,
                    side,
                    spec_spread_offset(k, 3),
                    path.push(k as u8),
                    c,
                )
        }),
{
    let bp = limb.branching->0;
    let b0 = crate::generator::spec_branch_models_from(bp, class, side, path, c, 0);
    let b1 = crate::generator::spec_branch_models_from(bp, class, side, path, c, 1);
    let b2 = crate::generator::spec_branch_models_from(bp, class, side, path, c, 2);
    let b3 = crate::generator::spec_branch_models_from(bp, class, side, path, c, 3);
    assert(b3 =~= Seq::<NodeModel>::empty());
    assert(b0[0] == spec_limb_model(*bp.branch, class, side, spec_spread_offset(0, 3), path.push(0u8), c));
    assert(b0[1] == b1[0]);
    assert(b1[0] == spec_limb_model(*bp.branch, class, side, spec_spread_offset(1, 3), path.push(1u8), c));
    assert(b0[2] == b1[1]);
    assert(b1[1] == b2[0]);
    assert(b2[0] == spec_limb_model(*bp.branch, class, side, spec_spread_offset(2, 3), path.push(2u8), c));
}

/// In an unbranched limb chain with at least one segment, the children
/// of the last segment's node are exactly the terminus digits: three for
/// `Claw { digits: 3 }`, none for `Tapered`.
pub proof fn lemma_terminus_expansion(
    limb: LimbStructure,
    class: AppendageClass,
    side: Option<Side>,
    lateral_offset: int,
    path: Seq<u8>,
    c: SkeletonConfig,
)
    requires
        limb.branching is None,
        limb.segments@.len() >= 1,
    ensures
        spec_chain_node(
            limb,
            class,
            side,
            lateral_offset,
            path,
            c,
            limb.segments@.len() - 1,
        ).children =~= spec_digit_models(limb.terminus, side, path, c),
        spec_digit_models(limb.terminus, side, path, c).len() == spec_terminal_bone_count(
            limb.terminus,
        ),
{
    let last = limb.segments@.len() - 1;
    let node = spec_chain_node(limb, class, side, lateral_offset, path, c, last);
    assert(node.children =~= Seq::<NodeModel>::empty() + spec_digit_models(
        limb.terminus,
        side,
        path,
        c,
    ));
}

/// Splitting a child list splits its preorder walk.
pub proof fn lemma_preorder_children_concat(a: Seq<NodeModel>, b: Seq<NodeModel>)
    ensures
        preorder_children(a + b) =~= preorder_children(a) + preorder_children(b),
    decreases a.len(),
{
    if a.len() == 0 {
        assert(a + b =~= b);
        assert(preorder_children(a) =~= Seq::<NodeModel>::empty());
    } else {
        assert((a + b)[0] == a[0]);
        assert((a + b).drop_first() =~= a.drop_first() + b);
        lemma_preorder_children_concat(a.drop_first(), b);
    }
}

/// The walk of a single subtree in a child list is that subtree's walk.
pub proof fn lemma_preorder_children_singleton(m: NodeModel)
    ensures
        preorder_children(seq![m]) =~= preorder(m),
{
    assert(seq![m][0] == m);
    assert(seq![m].drop_first() =~= Seq::<NodeModel>::empty());
    assert(preorder_children(Seq::<NodeModel>::empty()) =~= Seq::<NodeModel>::empty());
}

/// A childless node walks as itself alone.
pub proof fn lemma_preorder_leaf(m: NodeModel)
    requires
        m.children.len() == 0,
    ensures
        preorder(m) =~= seq![m],
{
    assert(m.children =~= Seq::<NodeModel>::empty());
    assert(preorder_children(Seq::<NodeModel>::empty()) =~= Seq::<NodeModel>::empty());
}

/// The walk of the mandible chain from segment `i`: one node per remaining
/// segment (one node in all for an empty segment list), indices in order.
proof fn lemma_mand_chain_walk(m: MandibleStructure, i: int)
    requires
        0 <= i,
        i == 0 || i < m.segments@.len(),
        m.segments@.len() <= 256,
    ensures
        ({
            let cnt = if m.segments@.len() == 0 {
                1int
            } else {
                m.segments@.len() - i
            };
            let walk = preorder(spec_mand_node(m, i));
            &&& walk.len() == cnt
            &&& forall|t: int|
                0 <= t < cnt ==> (#[trigger] walk[t]).id == (BoneIdView {
                    class: crate::bone_id::BoneClass::Mandible,
                    side: None,
                    index: (i + t) as u8,
                    branch_path: Seq::empty(),
                })
        }),
    decreases m.segments@.len() - i,
{
    let node = spec_mand_node(m, i);
    if i + 1 < m.segments@.len() {
        lemma_mand_chain_walk(m, i + 1);
        lemma_preorder_children_singleton(spec_mand_node(m, i + 1));
        assert(preorder(node) =~= seq![node] + preorder(spec_mand_node(m, i + 1)));
    } else {
        lemma_preorder_leaf(node);
    }
}

/// With no appendages, the spine walk from vertebra `i` is one leaf node
/// per vertebra, indices in order.
proof fn lemma_bare_spine_walk(o: Organism, c: SkeletonConfig, i: int)
    requires
        0 <= i <= o.spec_torso().spine.vertebrae@.len(),
        o.spec_torso().spine.appendages@.len() == 0,
        o.spec_torso().spine.vertebrae@.len() <= 256,
    ensures
        ({
            let n = o.spec_torso().spine.vertebrae@.len() as int;
            let walk = preorder_children(spec_spine_models_from(o, c, i));
            &&& walk.len() == n - i
            &&& forall|t: int|
                0 <= t < n - i ==> (#[trigger] walk[t]).id == (BoneIdView {
                    class: crate::bone_id::BoneClass::Spine,
                    side: None,
                    index: (i + t) as u8,
                    branch_path: Seq::empty(),
                })
        }),
    decreases o.spec_torso().spine.vertebrae@.len() - i,
{
    let n = o.spec_torso().spine.vertebrae@.len() as int;
    if i < n {
        assert(o.spec_torso().spine.appendages@ =~= Seq::<
            crate::body::SpinalAttachment<Appendage>,
        >::empty());
        let vert = spec_vert_model(o, c, i);
        lemma_preorder_leaf(vert);
        lemma_bare_spine_walk(o, c, i + 1);
        lemma_preorder_children_concat(seq![vert], spec_spine_models_from(o, c, i + 1));
        lemma_preorder_children_singleton(vert);
        assert(seq![vert] + spec_spine_models_from(o, c, i + 1) =~= spec_spine_models_from(
            o,
            c,
            i,
        ));
    } else {
        assert(spec_spine_models_from(o, c, i) =~= Seq::<NodeModel>::empty());
        assert(preorder_children(Seq::<NodeModel>::empty()) =~= Seq::<NodeModel>::empty());
    }
}

/// How many mandible nodes an organism's head contributes.
pub open spec fn spec_mand_count(o: Organism) -> int {
    match o.spec_head().mandible_socket {
        Some(sock) => match sock.attachment {
            Some(m) => if m.segments@.len() == 0 {
                1int
            } else {
                m.segments@.len() as int
            },
            None => 0int,
        },
        None => 0int,
    }
}

/// With no appendages, the id sequence of the generated tree is fully laid
/// out: the root, the head, the mandible chain in segment order, then one
/// spine id per vertebra in order.
proof fn lemma_bare_id_layout(o: Organism, c: SkeletonConfig)
    requires
        o.spec_torso().spine.appendages@.len() == 0,
        o.spec_torso().spine.vertebrae@.len() <= 256,
        spec_mand_count(o) <= 256,
    ensures
        ({
            let ids = ids_of(spec_generate(o, c));
            let mand_cnt = spec_mand_count(o);
            let n = o.spec_torso().spine.vertebrae@.len() as int;
            &&& ids.len() == 2 + mand_cnt + n
            &&& ids[0].class is Root && ids[0].side is None && ids[0].branch_path.len() == 0
            &&& ids[1].class is Head && ids[1].side is None && ids[1].branch_path.len() == 0
            &&& forall|j: int|
                2 <= j < 2 + mand_cnt ==> (#[trigger] ids[j]).class is Mandible && ids[j].index
                    == (j - 2) as u8 && ids[j].side is None && ids[j].branch_path.len() == 0
            &&& forall|j: int|
                2 + mand_cnt <= j < 2 + mand_cnt + n ==> (#[trigger] ids[j]).class is Spine
                    && ids[j].index == (j - 2 - mand_cnt) as u8 && ids[j].side is None
                    && ids[j].branch_path.len() == 0
        }),
{
    let tree = spec_generate(o, c);
    let head = spec_head_model(o, c);
    let spines = spec_spine_models_from(o, c, 0);
    let mand_cnt = spec_mand_count(o);
    let n = o.spec_torso().spine.vertebrae@.len() as int;
    lemma_preorder_children_concat(seq![head], spines);
    lemma_preorder_children_singleton(head);
    assert(preorder(tree) =~= seq![tree] + (preorder(head) + preorder_children(spines)));
    let head_walk: Seq<NodeModel> = match o.spec_head().mandible_socket {
        Some(sock) => match sock.attachment {
            Some(m) => {
                lemma_mand_chain_walk(m, 0);
                lemma_preorder_children_singleton(spec_mandible_model(m));
                assert(preorder(head) =~= seq![head] + preorder(spec_mandible_model(m)));
                seq![head] + preorder(spec_mandible_model(m))
            },
            None => {
                lemma_preorder_leaf(head);
                seq![head]
            },
        },
        None => {
            lemma_preorder_leaf(head);
            seq![head]
        },
    };
    assert(preorder(head) =~= head_walk);
    assert(head_walk.len() == 1 + mand_cnt);
    lemma_bare_spine_walk(o, c, 0);
    assert(preorder(tree).len() == 2 + mand_cnt + n);
    assert(ids_of(tree).len() == 2 + mand_cnt + n);
    assert forall|j: int| 0 <= j < ids_of(tree).len() implies ids_of(tree)[j] == (#[trigger] preorder(
        tree,
    )[j]).id by {}
    assert(preorder(tree)[0] == tree);
    assert forall|j: int| 2 <= j < 2 + mand_cnt implies (#[trigger] preorder(tree)[j]).id.class
        is Mandible && preorder(tree)[j].id.index == (j - 2) as u8 && preorder(tree)[j].id.side
        is None && preorder(tree)[j].id.branch_path.len() == 0 by {
        assert(preorder(tree)[j] == head_walk[j - 1]);
        assert(head_walk[j - 1] == preorder(spec_mandible_model(
            o.spec_head().mandible_socket->0.attachment->0,
        ))[j - 2]);
    }
    assert forall|j: int| 2 + mand_cnt <= j < 2 + mand_cnt + n implies (#[trigger] preorder(
        tree,
    )[j]).id.class is Spine && preorder(tree)[j].id.index == (j - 2 - mand_cnt) as u8 && preorder(
        tree,
    )[j].id.side is None && preorder(tree)[j].id.branch_path.len() == 0 by {
        assert(preorder(tree)[j] == preorder_children(spines)[j - 2 - mand_cnt]);
    }
}

/// For appendage-free organisms whose mandible chain has at
/// most one segment: the deterministic names of the generated bones are
/// pairwise distinct.
pub proof fn lemma_bare_organism_names_unique(o: Organism, c: SkeletonConfig)
    requires
        o.spec_torso().spine.appendages@.len() == 0,
        o.spec_torso().spine.vertebrae@.len() <= 256,
        spec_mand_count(o) <= 1,
    ensures
        ids_of(spec_generate(o, c)).map_values(|v: BoneIdView| name_of(v)).no_duplicates(),
{
    lemma_bare_id_layout(o, c);
    let ids = ids_of(spec_generate(o, c));
    let names = ids.map_values(|v: BoneIdView| name_of(v));
    let mand_cnt = spec_mand_count(o);
    let n = o.spec_torso().spine.vertebrae@.len() as int;
    assert forall|j1: int, j2: int| 0 <= j1 < j2 < names.len() implies names[j1] != names[j2] by {
        assert(names[j1] == name_of(ids[j1]));
        assert(names[j2] == name_of(ids[j2]));
        lemma_bare_name_shape(ids[j1]);
        lemma_bare_name_shape(ids[j2]);
        if 2 + mand_cnt <= j1 && 2 + mand_cnt <= j2 {
            if name_of(ids[j1]) == name_of(ids[j2]) {
                lemma_spine_name_determines_index(ids[j1].index, ids[j2].index);
            }
        }
    }
}

/// The names of root, head, mandible and spine bones without side markers
/// or branch paths, spelled out.
proof fn lemma_bare_name_shape(v: BoneIdView)
    requires
        v.side is None,
        v.branch_path.len() == 0,
    ensures
        v.class is Root ==> name_of(v) =~= seq!['r', 'o', 'o', 't'],
        v.class is Head ==> name_of(v) =~= seq!['h', 'e', 'a', 'd'],
        v.class is Mandible ==> name_of(v) =~= seq!['m', 'a', 'n', 'd', 'i', 'b', 'l', 'e'],
        v.class is Spine ==> name_of(v) =~= seq!['s', 'p', 'i', 'n', 'e', '_'] + crate::bone_id::dec_rep(
            v.index as nat,
        ),
        v.class is Spine ==> name_of(v)[0] == 's' && name_of(v).len() >= 7,
{
    assert(v.branch_path =~= Seq::<u8>::empty());
    assert(crate::bone_id::branch_suffix(v.branch_path, 0) =~= Seq::<char>::empty());
    assert(crate::bone_id::side_suffix(None) =~= Seq::<char>::empty());
    if v.class is Spine {
        crate::bone_id::lemma_dec_rep_len(v.index as nat);
    }
}

/// Two spine bones with the same name have the same index.
proof fn lemma_spine_name_determines_index(i1: u8, i2: u8)
    requires
        seq!['s', 'p', 'i', 'n', 'e', '_'] + crate::bone_id::dec_rep(i1 as nat) == seq![
            's',
            'p',
            'i',
            'n',
            'e',
            '_',
        ] + crate::bone_id::dec_rep(i2 as nat),
    ensures
        i1 == i2,
{
    let prefix = seq!['s', 'p', 'i', 'n', 'e', '_'];
    let d1 = crate::bone_id::dec_rep(i1 as nat);
    let d2 = crate::bone_id::dec_rep(i2 as nat);
    assert((prefix + d1).len() == 6 + d1.len());
    assert((prefix + d2).len() == 6 + d2.len());
    assert(d1.len() == d2.len());
    assert forall|t: int| 0 <= t < d1.len() implies d1[t] == d2[t] by {
        assert((prefix + d1)[6 + t] == d1[t]);
        assert((prefix + d2)[6 + t] == d2[t]);
    }
    assert(d1 =~= d2);
    crate::bone_id::lemma_dec_rep_inj(i1 as nat, i2 as nat);
}

/// A list of leaves walks as itself.
proof fn lemma_preorder_children_of_leaves(s: Seq<NodeModel>)
    requires
        forall|j: int| 0 <= j < s.len() ==> (#[trigger] s[j]).children.len() == 0,
    ensures
        preorder_children(s) =~= s,
    decreases s.len(),
{
    if s.len() > 0 {
        lemma_preorder_leaf(s[0]);
        lemma_preorder_children_of_leaves(s.drop_first());
    }
}

/// Two duplicate-free id lists with no id in common concatenate to a
/// duplicate-free list.
proof fn lemma_no_dup_concat(a: Seq<BoneIdView>, b: Seq<BoneIdView>)
    requires
        a.no_duplicates(),
        b.no_duplicates(),
        forall|i: int, j: int| 0 <= i < a.len() && 0 <= j < b.len() ==> (#[trigger] a[i]) != (#[trigger] b[j]),
    ensures
        (a + b).no_duplicates(),
{
    assert forall|i: int, j: int| 0 <= i < (a + b).len() && 0 <= j < (a + b).len() && i != j
        implies (a + b)[i] != (a + b)[j] by {
        if i < a.len() && j < a.len() {
        } else if i >= a.len() && j >= a.len() {
            assert((a + b)[i] == b[i - a.len()]);
            assert((a + b)[j] == b[j - a.len()]);
        } else if i < a.len() {
            assert((a + b)[j] == b[j - a.len()]);
        } else {
            assert((a + b)[i] == b[i - a.len()]);
        }
    }
}

/// The ids of the preorder walk of a list of subtrees.
pub open spec fn idsc(s: Seq<NodeModel>) -> Seq<BoneIdView> {
    preorder_children(s).map_values(|n: NodeModel| n.id)
}

proof fn lemma_idsc_concat(a: Seq<NodeModel>, b: Seq<NodeModel>)
    ensures
        idsc(a + b) =~= idsc(a) + idsc(b),
{
    lemma_preorder_children_concat(a, b);
}

proof fn lemma_idsc_singleton(m: NodeModel)
    ensures
        idsc(seq![m]) =~= ids_of(m),
{
    lemma_preorder_children_singleton(m);
}

proof fn lemma_idsc_empty()
    ensures
        idsc(Seq::<NodeModel>::empty()) =~= Seq::<BoneIdView>::empty(),
{
    assert(preorder_children(Seq::<NodeModel>::empty()) =~= Seq::<NodeModel>::empty());
}

/// Whether `v` could be an id of the appendage instance `(side, a)`:
/// a chain bone of its class and side, or — when the instance grows
/// terminal digits — a digit bone on its side.
pub open spec fn inst_covers(v: BoneIdView, side: Option<Side>, a: Appendage) -> bool {
    v.side == side && (v.class == crate::bone_id::BoneClass::Limb(a.class) || (v.class
        is Digit && limb_grows_digits(a.structure)))
}

/// Whether `v` could be an id of some instance hung on this socket.
pub open spec fn socket_covers(v: BoneIdView, socket: SymmetricSocket<Appendage>) -> bool {
    match socket {
        SymmetricSocket::Medial(s) => s.attachment is Some && inst_covers(
            v,
            None,
            s.attachment->0,
        ),
        SymmetricSocket::Lateral(pair) => (pair.left.attachment is Some && inst_covers(
            v,
            Some(Side::Left),
            pair.left.attachment->0,
        )) || (pair.right.attachment is Some && inst_covers(
            v,
            Some(Side::Right),
            pair.right.attachment->0,
        )),
    }
}

/// The ids of one socket's subtrees: unique, and all covered by the socket.
proof fn lemma_socket_ids_shape(socket: SymmetricSocket<Appendage>, c: SkeletonConfig)
    requires
        crate::generator::spec_socket_bounded(socket),
    ensures
        ({
            let ids = idsc(spec_socket_models(socket, c));
            &&& ids.no_duplicates()
            &&& forall|k: int| 0 <= k < ids.len() ==> socket_covers(#[trigger] ids[k], socket)
        }),
{
    match socket {
        SymmetricSocket::Medial(s) => {
            match s.attachment {
                Some(a) => {
                    lemma_appendage_ids_unique(a, None, c);
                    lemma_idsc_singleton(crate::generator::spec_appendage_model(a, None, c));
                },
                None => {
                    lemma_idsc_empty();
                },
            }
        },
        SymmetricSocket::Lateral(pair) => {
            let left_part: Seq<NodeModel> = match pair.left.attachment {
                Some(a) => seq![crate::generator::spec_appendage_model(a, Some(Side::Left), c)],
                None => Seq::empty(),
            };
            let right_part: Seq<NodeModel> = match pair.right.attachment {
                Some(a) => seq![crate::generator::spec_appendage_model(a, Some(Side::Right), c)],
                None => Seq::empty(),
            };
            lemma_idsc_concat(left_part, right_part);
            match pair.left.attachment {
                Some(a) => {
                    lemma_appendage_ids_unique(a, Some(Side::Left), c);
                    lemma_idsc_singleton(
                        crate::generator::spec_appendage_model(a, Some(Side::Left), c),
                    );
                },
                None => {
                    lemma_idsc_empty();
                },
            }
            match pair.right.attachment {
                Some(a) => {
                    lemma_appendage_ids_unique(a, Some(Side::Right), c);
                    lemma_idsc_singleton(
                        crate::generator::spec_appendage_model(a, Some(Side::Right), c),
                    );
                },
                None => {
                    lemma_idsc_empty();
                },
            }
            lemma_no_dup_concat(idsc(left_part), idsc(right_part));
        },
    }
}

/// Whether any terminus reachable in the limb structure grows digit bones.
pub open spec fn limb_grows_digits(limb: LimbStructure) -> bool
    decreases limb,
{
    spec_terminal_bone_count(limb.terminus) > 0 || (match limb.branching {
        Some(bp) => limb_grows_digits(*bp.branch),
        None => false,
    })
}

/// Whether the branch point of the limb can still fire at segment `i` or
/// later (it fires at its parent segment, and never at the chain root).
pub open spec fn branch_can_fire(limb: LimbStructure, i: int) -> bool {
    match limb.branching {
        Some(bp) => 1 <= bp.parent_segment && i <= bp.parent_segment && bp.parent_segment
            < limb.segments@.len(),
        None => false,
    }
}

/// The ids of the chain subtree from segment `i`: pairwise distinct; all on
/// the given side; chain bones of the limb's class or digit bones; every
/// branch path extends `path`; the first id is segment `i`'s own; ids at
/// `path` itself past the first are later chain bones or digits; deeper
/// paths occur only where the branch point can still fire.
proof fn lemma_chain_ids(
    limb: LimbStructure,
    class: AppendageClass,
    side: Option<Side>,
    lateral_offset: int,
    path: Seq<u8>,
    c: SkeletonConfig,
    i: int,
)
    requires
        limb_bounded(limb),
        0 <= i,
        i == 0 || i < limb.segments@.len(),
    ensures
        ({
            let ids = ids_of(spec_chain_node(limb, class, side, lateral_offset, path, c, i));
            &&& ids.no_duplicates()
            &&& ids.len() >= 1
            &&& ids[0] == (BoneIdView {
                class: crate::bone_id::BoneClass::Limb(class),
                side,
                index: i as u8,
                branch_path: path,
            })
            &&& forall|k: int| 0 <= k < ids.len() ==> (#[trigger] ids[k]).side == side
            &&& forall|k: int|
                0 <= k < ids.len() ==> (#[trigger] ids[k]).class == crate::bone_id::BoneClass::Limb(
                    class,
                ) || ids[k].class is Digit
            &&& forall|k: int|
                0 <= k < ids.len() ==> path.is_prefix_of((#[trigger] ids[k]).branch_path)
            &&& forall|k: int|
                1 <= k < ids.len() && (#[trigger] ids[k]).branch_path == path ==> ((ids[k].class
                    == crate::bone_id::BoneClass::Limb(class) && i + 1 <= ids[k].index)
                    || ids[k].class is Digit)
            &&& forall|k: int|
                0 <= k < ids.len() && (#[trigger] ids[k]).branch_path.len() > path.len()
                    ==> branch_can_fire(limb, if i >= 1 {
                    i
                } else {
                    1
                })
            &&& forall|k: int|
                0 <= k < ids.len() && (#[trigger] ids[k]).class is Digit ==> limb_grows_digits(
                    limb,
                )
        }),
    decreases limb, 0int, limb.segments@.len() - i,
{
    let node = spec_chain_node(limb, class, side, lateral_offset, path, c, i);
    let ids = ids_of(node);
    lemma_ids_of_unfold(node);
    assert(path.is_prefix_of(path)) by {
        assert(path.subrange(0, path.len() as int) =~= path);
    }
    let fired = 1 <= i && limb.branching is Some && limb.branching->0.parent_segment == i;
    let branch_part: Seq<NodeModel> = if fired {
        crate::generator::spec_branch_models_from(limb.branching->0, class, side, path, c, 0)
    } else {
        Seq::empty()
    };
    let below: Seq<NodeModel> = if i + 1 < limb.segments@.len() {
        seq![spec_chain_node(limb, class, side, lateral_offset, path, c, i + 1)]
    } else {
        spec_digit_models(limb.terminus, side, path, c)
    };
    assert(node.children == branch_part + below);
    lemma_idsc_concat(branch_part, below);
    let b_ids = idsc(branch_part);
    let c_ids = idsc(below);
    if fired {
        lemma_branch_ids(limb.branching->0, class, side, path, c, 0);
    } else {
        lemma_idsc_empty();
        assert(b_ids.len() == 0);
    }
    if i + 1 < limb.segments@.len() {
        lemma_chain_ids(limb, class, side, lateral_offset, path, c, i + 1);
        lemma_idsc_singleton(spec_chain_node(limb, class, side, lateral_offset, path, c, i + 1));
    } else {
        lemma_terminus_digit_count(limb.terminus, side, path, c);
        lemma_preorder_children_of_leaves(below);
        assert forall|t: int| 0 <= t < c_ids.len() implies (#[trigger] c_ids[t]) == below[t].id by {
        }
        assert forall|t1: int, t2: int|
            0 <= t1 < c_ids.len() && 0 <= t2 < c_ids.len() && t1 != t2 implies c_ids[t1]
            != c_ids[t2] by {
            assert(below[t1].id.index == t1 as u8);
            assert(below[t2].id.index == t2 as u8);
        }
    }
    assert(ids =~= seq![node.id] + (b_ids + c_ids));
    assert forall|p: int, q: int| 0 <= p < b_ids.len() && 0 <= q < c_ids.len() implies (
    #[trigger] b_ids[p]) != (#[trigger] c_ids[q]) by {
        if b_ids[p] == c_ids[q] {
            assert(b_ids[p].branch_path.len() > path.len());
            if i + 1 < limb.segments@.len() {
                assert(branch_can_fire(limb, i + 1));
                assert(limb.branching->0.parent_segment == i);
                assert(false);
            } else {
                assert(c_ids[q].branch_path == path);
                assert(false);
            }
        }
    }
    assert forall|q: int| 0 <= q < (b_ids + c_ids).len() implies (#[trigger] (b_ids + c_ids)[q])
        != node.id by {
        if q < b_ids.len() {
            assert((b_ids + c_ids)[q] == b_ids[q]);
            assert(b_ids[q].branch_path.len() > path.len());
        } else {
            assert((b_ids + c_ids)[q] == c_ids[q - b_ids.len()]);
            if c_ids[q - b_ids.len()].branch_path == path {
                if i + 1 < limb.segments@.len() {
                } else {
                    assert(c_ids[q - b_ids.len()].class is Digit);
                }
            }
        }
    }
    lemma_no_dup_concat(b_ids, c_ids);
    lemma_no_dup_concat(seq![node.id], b_ids + c_ids);
}

/// The ids of the branch fan from branch `k` on: pairwise distinct, each
/// extending `path` with a branch choice in `[k, count)`.
proof fn lemma_branch_ids(
    bp: crate::appendage::BranchPoint,
    class: AppendageClass,
    side: Option<Side>,
    path: Seq<u8>,
    c: SkeletonConfig,
    k: int,
)
    requires
        limb_bounded(*bp.branch),
        0 <= k,
    ensures
        ({
            let ids = idsc(crate::generator::spec_branch_models_from(bp, class, side, path, c, k));
            &&& ids.no_duplicates()
            &&& forall|t: int| 0 <= t < ids.len() ==> (#[trigger] ids[t]).side == side
            &&& forall|t: int|
                0 <= t < ids.len() ==> (#[trigger] ids[t]).class == crate::bone_id::BoneClass::Limb(
                    class,
                ) || ids[t].class is Digit
            &&& forall|t: int|
                0 <= t < ids.len() ==> (#[trigger] ids[t]).branch_path.len() > path.len()
                    && path.is_prefix_of(ids[t].branch_path) && k <= ids[t].branch_path[path.len() as int]
                    < bp.branch_count.spec_value()
            &&& forall|t: int|
                0 <= t < ids.len() && (#[trigger] ids[t]).class is Digit ==> limb_grows_digits(
                    *bp.branch,
                )
        }),
    decreases bp, 1int, bp.branch_count.spec_value() - k,
{
    let models = crate::generator::spec_branch_models_from(bp, class, side, path, c, k);
    let ids = idsc(models);
    if k >= bp.branch_count.spec_value() as int {
        assert(models =~= Seq::<NodeModel>::empty());
        lemma_idsc_empty();
    } else {
        let sub = spec_limb_model(
            *bp.branch,
            class,
            side,
            spec_spread_offset(k, bp.branch_count.spec_value() as int),
            path.push(k as u8),
            c,
        );
        let rest = crate::generator::spec_branch_models_from(bp, class, side, path, c, k + 1);
        assert(models == seq![sub] + rest);
        lemma_idsc_concat(seq![sub], rest);
        lemma_idsc_singleton(sub);
        lemma_chain_ids(
            *bp.branch,
            class,
            side,
            spec_spread_offset(k, bp.branch_count.spec_value() as int),
            path.push(k as u8),
            c,
            0,
        );
        lemma_branch_ids(bp, class, side, path, c, k + 1);
        let a_ids = ids_of(sub);
        let r_ids = idsc(rest);
        assert forall|t: int| 0 <= t < a_ids.len() implies (#[trigger] a_ids[t]).branch_path.len()
            > path.len() && path.is_prefix_of(a_ids[t].branch_path)
            && a_ids[t].branch_path[path.len() as int] == k by {
            assert(path.push(k as u8).is_prefix_of(a_ids[t].branch_path));
            assert(a_ids[t].branch_path.subrange(0, path.len() as int + 1) =~= path.push(k as u8));
            assert(a_ids[t].branch_path[path.len() as int] == path.push(k as u8)[path.len() as int]);
            assert(path.is_prefix_of(path.push(k as u8))) by {
                assert(path.push(k as u8).subrange(0, path.len() as int) =~= path);
            }
            assert(a_ids[t].branch_path.subrange(0, path.len() as int) =~= path);
        }
        assert forall|p: int, q: int| 0 <= p < a_ids.len() && 0 <= q < r_ids.len() implies (
        #[trigger] a_ids[p]) != (#[trigger] r_ids[q]) by {
            if a_ids[p] == r_ids[q] {
                assert(a_ids[p].branch_path[path.len() as int] == k);
                assert(r_ids[q].branch_path[path.len() as int] >= k + 1);
            }
        }
        lemma_no_dup_concat(a_ids, r_ids);
        assert(ids =~= a_ids + r_ids);
    }
}

/// Within one appendage subtree — branched or not — every bone id is
/// unique, and every id is a chain bone of the appendage's class or a
/// digit bone, on the appendage's side.
pub proof fn lemma_appendage_ids_unique(a: Appendage, side: Option<Side>, c: SkeletonConfig)
    requires
        limb_bounded(a.structure),
    ensures
        ({
            let ids = ids_of(crate::generator::spec_appendage_model(a, side, c));
            &&& ids.no_duplicates()
            &&& forall|k: int| 0 <= k < ids.len() ==> inst_covers(#[trigger] ids[k], side, a)
        }),
{
    lemma_chain_ids(
        a.structure,
        a.class,
        side,
        crate::generator::spec_side_lateral(side, c),
        Seq::empty(),
        c,
        0,
    );
}

/// A subtree's ids are its root's id, then the ids below.
proof fn lemma_ids_of_unfold(m: NodeModel)
    ensures
        ids_of(m) =~= seq![m.id] + idsc(m.children),
{
}

/// No bone id could belong to two different spinal attachments. This is the
/// condition under which the generator's flat id scheme (class, side, chain
/// index, branch path) cannot collide across appendages: no two attachments
/// may hang same-class appendages on the same side, nor digit-growing
/// appendages on the same side.
pub open spec fn attachments_exclusive(atts: Seq<SpinalAttachment<Appendage>>) -> bool {
    forall|j1: int, j2: int, v: BoneIdView|
        #![trigger socket_covers(v, atts[j1].socket), socket_covers(v, atts[j2].socket)]
        0 <= j1 < j2 < atts.len() ==> !(socket_covers(v, atts[j1].socket) && socket_covers(
            v,
            atts[j2].socket,
        ))
}

/// Whether some attachment at vertebra `i` could own the id `v`.
pub open spec fn covered_at(
    v: BoneIdView,
    atts: Seq<SpinalAttachment<Appendage>>,
    i: int,
) -> bool {
    exists|j: int|
        0 <= j < atts.len() && (#[trigger] atts[j]).vertebra_index.0 == i && socket_covers(
            v,
            atts[j].socket,
        )
}

/// Whether some attachment at vertebra `lo` or later could own the id `v`.
pub open spec fn covered_above(
    v: BoneIdView,
    atts: Seq<SpinalAttachment<Appendage>>,
    lo: int,
) -> bool {
    exists|j: int|
        0 <= j < atts.len() && (#[trigger] atts[j]).vertebra_index.0 >= lo && socket_covers(
            v,
            atts[j].socket,
        )
}

/// The appendage ids under one vertebra: unique, and each owned by some
/// attachment sitting at that vertebra.
proof fn lemma_vert_children_ids(
    atts: Seq<SpinalAttachment<Appendage>>,
    i: int,
    c: SkeletonConfig,
)
    requires
        forall|j: int| 0 <= j < atts.len() ==> crate::generator::spec_socket_bounded((#[trigger] atts[j]).socket),
        attachments_exclusive(atts),
    ensures
        ({
            let ids = idsc(crate::generator::spec_vert_children(atts, i, c));
            &&& ids.no_duplicates()
            &&& forall|k: int| 0 <= k < ids.len() ==> covered_at(#[trigger] ids[k], atts, i)
        }),
    decreases atts.len(),
{
    if atts.len() == 0 {
        lemma_idsc_empty();
        assert(crate::generator::spec_vert_children(atts, i, c) =~= Seq::<NodeModel>::empty());
    } else {
        let head_part: Seq<NodeModel> = if atts[0].vertebra_index.0 == i {
            spec_socket_models(atts[0].socket, c)
        } else {
            Seq::empty()
        };
        let rest = atts.drop_first();
        let rest_models = crate::generator::spec_vert_children(rest, i, c);
        assert(crate::generator::spec_vert_children(atts, i, c) == head_part + rest_models);
        lemma_idsc_concat(head_part, rest_models);
        if atts[0].vertebra_index.0 == i {
            lemma_socket_ids_shape(atts[0].socket, c);
        } else {
            lemma_idsc_empty();
        }
        assert(forall|j: int| 0 <= j < rest.len() ==> rest[j] == atts[j + 1]);
        assert forall|j1: int, j2: int, v: BoneIdView|
            #![trigger socket_covers(v, rest[j1].socket), socket_covers(v, rest[j2].socket)]
            0 <= j1 < j2 < rest.len() implies !(socket_covers(v, rest[j1].socket)
            && socket_covers(v, rest[j2].socket)) by {
            assert(rest[j1] == atts[j1 + 1]);
            assert(rest[j2] == atts[j2 + 1]);
        }
        lemma_vert_children_ids(rest, i, c);
        let a_ids = idsc(head_part);
        let b_ids = idsc(rest_models);
        assert forall|p: int, q: int| 0 <= p < a_ids.len() && 0 <= q < b_ids.len() implies (
        #[trigger] a_ids[p]) != (#[trigger] b_ids[q]) by {
            if a_ids[p] == b_ids[q] {
                assert(socket_covers(a_ids[p], atts[0].socket));
                let j = choose|j: int|
                    0 <= j < rest.len() && (#[trigger] rest[j]).vertebra_index.0 == i
                        && socket_covers(b_ids[q], rest[j].socket);
                assert(rest[j] == atts[j + 1]);
                assert(socket_covers(a_ids[p], atts[j + 1].socket));
                assert(false);
            }
        }
        lemma_no_dup_concat(a_ids, b_ids);
        let ids = idsc(crate::generator::spec_vert_children(atts, i, c));
        assert(ids =~= a_ids + b_ids);
        assert forall|k: int| 0 <= k < ids.len() implies covered_at(#[trigger] ids[k], atts, i) by {
            if k < a_ids.len() {
                assert(ids[k] == a_ids[k]);
                assert(atts[0].vertebra_index.0 == i && socket_covers(ids[k], atts[0].socket));
            } else {
                assert(ids[k] == b_ids[k - a_ids.len()]);
                let j = choose|j: int|
                    0 <= j < rest.len() && (#[trigger] rest[j]).vertebra_index.0 == i
                        && socket_covers(b_ids[k - a_ids.len()], rest[j].socket);
                assert(rest[j] == atts[j + 1]);
                assert(atts[j + 1].vertebra_index.0 == i && socket_covers(
                    ids[k],
                    atts[j + 1].socket,
                ));
            }
        }
    }
}

/// Whether an id has the shape of a spine bone in the index window `[lo, n)`.
pub open spec fn spine_shaped(v: BoneIdView, lo: int, n: int) -> bool {
    &&& v.class is Spine
    &&& v.side is None
    &&& v.branch_path.len() == 0
    &&& lo <= v.index < n
}

/// The ids of the spine subtrees from vertebra `i` on: unique, each either
/// a spine bone at index `i` or later, or owned by an attachment at
/// vertebra `i` or later.
proof fn lemma_spine_ids_unique(o: Organism, c: SkeletonConfig, i: int)
    requires
        0 <= i <= o.spec_torso().spine.vertebrae@.len(),
        o.spec_torso().spine.vertebrae@.len() <= 256,
        forall|j: int|
            0 <= j < o.spec_torso().spine.appendages@.len() ==> crate::generator::spec_socket_bounded((
            #[trigger] o.spec_torso().spine.appendages@[j]).socket),
        attachments_exclusive(o.spec_torso().spine.appendages@),
    ensures
        ({
            let n = o.spec_torso().spine.vertebrae@.len() as int;
            let atts = o.spec_torso().spine.appendages@;
            let ids = idsc(spec_spine_models_from(o, c, i));
            &&& ids.no_duplicates()
            &&& forall|k: int|
                0 <= k < ids.len() ==> spine_shaped(#[trigger] ids[k], i, n) || covered_above(
                    ids[k],
                    atts,
                    i,
                )
        }),
    decreases o.spec_torso().spine.vertebrae@.len() - i,
{
    let n = o.spec_torso().spine.vertebrae@.len() as int;
    let atts = o.spec_torso().spine.appendages@;
    if i >= n {
        assert(spec_spine_models_from(o, c, i) =~= Seq::<NodeModel>::empty());
        lemma_idsc_empty();
    } else {
        let vert = spec_vert_model(o, c, i);
        let rest_models = spec_spine_models_from(o, c, i + 1);
        assert(spec_spine_models_from(o, c, i) == seq![vert] + rest_models);
        lemma_idsc_concat(seq![vert], rest_models);
        lemma_idsc_singleton(vert);
        lemma_ids_of_unfold(vert);
        lemma_vert_children_ids(atts, i, c);
        lemma_spine_ids_unique(o, c, i + 1);
        let under = idsc(crate::generator::spec_vert_children(atts, i, c));
        let vert_ids = ids_of(vert);
        assert(vert_ids =~= seq![vert.id] + under);
        assert(vert.id.class is Spine && vert.id.index == i as u8);
        assert forall|p: int, q: int| 0 <= p < 1 && 0 <= q < under.len() implies (#[trigger] seq![
            vert.id,
        ][p]) != (#[trigger] under[q]) by {
            let j = choose|j: int|
                0 <= j < atts.len() && (#[trigger] atts[j]).vertebra_index.0 == i && socket_covers(
                    under[q],
                    atts[j].socket,
                );
            assert(!(under[q].class is Spine));
        }
        lemma_no_dup_concat(seq![vert.id], under);
        let rest_ids = idsc(rest_models);
        assert forall|p: int, q: int| 0 <= p < vert_ids.len() && 0 <= q < rest_ids.len() implies (
        #[trigger] vert_ids[p]) != (#[trigger] rest_ids[q]) by {
            if vert_ids[p] == rest_ids[q] {
                if spine_shaped(rest_ids[q], i + 1, n) {
                    if p == 0 {
                        assert(vert_ids[0] == vert.id);
                    } else {
                        assert(vert_ids[p] == under[p - 1]);
                        let j = choose|j: int|
                            0 <= j < atts.len() && (#[trigger] atts[j]).vertebra_index.0 == i
                                && socket_covers(under[p - 1], atts[j].socket);
                        assert(!(under[p - 1].class is Spine));
                    }
                } else {
                    let j2 = choose|j2: int|
                        0 <= j2 < atts.len() && (#[trigger] atts[j2]).vertebra_index.0 >= i + 1
                            && socket_covers(rest_ids[q], atts[j2].socket);
                    if p == 0 {
                        assert(socket_covers(vert.id, atts[j2].socket));
                        assert(!(vert.id.class is Spine));
                    } else {
                        assert(vert_ids[p] == under[p - 1]);
                        let j1 = choose|j1: int|
                            0 <= j1 < atts.len() && (#[trigger] atts[j1]).vertebra_index.0 == i
                                && socket_covers(under[p - 1], atts[j1].socket);
                        assert(j1 != j2);
                        assert(socket_covers(rest_ids[q], atts[j1].socket));
                        assert(false);
                    }
                }
            }
        }
        lemma_no_dup_concat(vert_ids, rest_ids);
        let ids = idsc(spec_spine_models_from(o, c, i));
        assert(ids =~= vert_ids + rest_ids);
        assert forall|k: int| 0 <= k < ids.len() implies spine_shaped(#[trigger] ids[k], i, n)
            || covered_above(ids[k], atts, i) by {
            if k < vert_ids.len() {
                assert(ids[k] == vert_ids[k]);
                if k == 0 {
                    assert(vert_ids[0] == vert.id);
                } else {
                    assert(vert_ids[k] == under[k - 1]);
                    let j = choose|j: int|
                        0 <= j < atts.len() && (#[trigger] atts[j]).vertebra_index.0 == i
                            && socket_covers(under[k - 1], atts[j].socket);
                    assert(atts[j].vertebra_index.0 >= i);
                }
            } else {
                assert(ids[k] == rest_ids[k - vert_ids.len()]);
                if covered_above(rest_ids[k - vert_ids.len()], atts, i + 1) {
                    let j = choose|j: int|
                        0 <= j < atts.len() && (#[trigger] atts[j]).vertebra_index.0 >= i + 1
                            && socket_covers(rest_ids[k - vert_ids.len()], atts[j].socket);
                    assert(atts[j].vertebra_index.0 >= i);
                }
            }
        }
    }
}

/// The ids of the head subtree: unique, one head bone and then the
/// mandible chain.
proof fn lemma_head_ids(o: Organism, c: SkeletonConfig)
    requires
        spec_mand_count(o) <= 256,
    ensures
        ({
            let ids = ids_of(spec_head_model(o, c));
            &&& ids.no_duplicates()
            &&& forall|k: int|
                0 <= k < ids.len() ==> ((#[trigger] ids[k]).class is Head || ids[k].class
                    is Mandible) && ids[k].side is None && ids[k].branch_path.len() == 0
        }),
{
    let head = spec_head_model(o, c);
    let ids = ids_of(head);
    match o.spec_head().mandible_socket {
        Some(sock) => match sock.attachment {
            Some(m) => {
                lemma_mand_chain_walk(m, 0);
                lemma_preorder_children_singleton(spec_mandible_model(m));
                assert(preorder(head) =~= seq![head] + preorder(spec_mandible_model(m)));
                let mand_walk = preorder(spec_mandible_model(m));
                assert forall|k: int| 0 <= k < ids.len() implies ((#[trigger] ids[k]).class
                    is Head || ids[k].class is Mandible) && ids[k].side is None
                    && ids[k].branch_path.len() == 0 by {
                    assert(ids[k] == preorder(head)[k].id);
                    if k > 0 {
                        assert(preorder(head)[k] == mand_walk[k - 1]);
                    }
                }
                assert forall|j1: int, j2: int|
                    0 <= j1 < ids.len() && 0 <= j2 < ids.len() && j1 != j2 implies ids[j1]
                    != ids[j2] by {
                    if j1 > 0 && j2 > 0 {
                        assert(preorder(head)[j1] == mand_walk[j1 - 1]);
                        assert(preorder(head)[j2] == mand_walk[j2 - 1]);
                        assert(ids[j1].index == (j1 - 1) as u8);
                        assert(ids[j2].index == (j2 - 1) as u8);
                    } else {
                        assert(preorder(head)[0] == head);
                    }
                }
            },
            None => {
                lemma_preorder_leaf(head);
            },
        },
        None => {
            lemma_preorder_leaf(head);
        },
    }
}

/// Every bone id assigned in one generation run is unique, for any bounded
/// organism whose attachments are pairwise exclusive: no two attachments
/// hang same-class appendages on the same side, nor digit-growing
/// appendages on the same side. (Without that exclusivity the id scheme
/// genuinely collides: two left forelimbs both produce `forelimb_0_L`.)
pub proof fn lemma_generated_ids_unique(o: Organism, c: SkeletonConfig)
    requires
        o.spec_torso().spine.vertebrae@.len() <= 256,
        spec_mand_count(o) <= 256,
        forall|j: int|
            0 <= j < o.spec_torso().spine.appendages@.len() ==> crate::generator::spec_socket_bounded((
            #[trigger] o.spec_torso().spine.appendages@[j]).socket),
        attachments_exclusive(o.spec_torso().spine.appendages@),
    ensures
        ids_of(spec_generate(o, c)).no_duplicates(),
{
    let tree = spec_generate(o, c);
    let head = spec_head_model(o, c);
    let spines = spec_spine_models_from(o, c, 0);
    let n = o.spec_torso().spine.vertebrae@.len() as int;
    let atts = o.spec_torso().spine.appendages@;
    lemma_ids_of_unfold(tree);
    lemma_idsc_concat(seq![head], spines);
    lemma_idsc_singleton(head);
    lemma_head_ids(o, c);
    lemma_spine_ids_unique(o, c, 0);
    let head_ids = ids_of(head);
    let spine_ids = idsc(spines);
    assert forall|p: int, q: int| 0 <= p < head_ids.len() && 0 <= q < spine_ids.len() implies (
    #[trigger] head_ids[p]) != (#[trigger] spine_ids[q]) by {
        if head_ids[p] == spine_ids[q] {
            if covered_above(spine_ids[q], atts, 0) {
                let j = choose|j: int|
                    0 <= j < atts.len() && (#[trigger] atts[j]).vertebra_index.0 >= 0
                        && socket_covers(spine_ids[q], atts[j].socket);
                assert(false);
            }
        }
    }
    lemma_no_dup_concat(head_ids, spine_ids);
    let below = head_ids + spine_ids;
    assert forall|p: int, q: int| 0 <= p < 1 && 0 <= q < below.len() implies (#[trigger] seq![
        tree.id,
    ][p]) != (#[trigger] below[q]) by {
        if q < head_ids.len() {
            assert(below[q] == head_ids[q]);
        } else {
            assert(below[q] == spine_ids[q - head_ids.len()]);
            if covered_above(spine_ids[q - head_ids.len()], atts, 0) {
                let j = choose|j: int|
                    0 <= j < atts.len() && (#[trigger] atts[j]).vertebra_index.0 >= 0
                        && socket_covers(spine_ids[q - head_ids.len()], atts[j].socket);
                assert(!(spine_ids[q - head_ids.len()].class is Root));
            }
        }
    }
    lemma_no_dup_concat(seq![tree.id], below);
    assert(ids_of(tree) =~= seq![tree.id] + below);
}

/// The opposite bilateral side.
pub open spec fn flip_side(side: Option<Side>) -> Option<Side> {
    match side {
        Some(Side::Left) => Some(Side::Right),
        Some(Side::Right) => Some(Side::Left),
        None => None,
    }
}

/// The same subtree with every bone's side marker flipped; nothing else
/// changes.
pub open spec fn flip_sides(m: NodeModel) -> NodeModel
    decreases m,
{
    NodeModel {
        id: BoneIdView { side: flip_side(m.id.side), ..m.id },
        children: flip_children(m.children),
        ..m
    }
}

pub open spec fn flip_children(s: Seq<NodeModel>) -> Seq<NodeModel>
    decreases s,
{
    if s.len() == 0 {
        Seq::empty()
    } else {
        seq![flip_sides(s[0])] + flip_children(s.drop_first())
    }
}

/// Flipping acts pointwise on a child list.
pub proof fn lemma_flip_children_pointwise(s: Seq<NodeModel>)
    ensures
        flip_children(s).len() == s.len(),
        forall|j: int| 0 <= j < s.len() ==> flip_children(s)[j] == flip_sides(#[trigger] s[j]),
    decreases s.len(),
{
    if s.len() > 0 {
        lemma_flip_children_pointwise(s.drop_first());
        assert forall|j: int| 0 <= j < s.len() implies flip_children(s)[j] == flip_sides(
            #[trigger] s[j],
        ) by {
            if j == 0 {
                assert(flip_children(s)[0] == flip_sides(s[0]));
            } else {
                assert(s.drop_first()[j - 1] == s[j]);
                assert(flip_children(s)[j] == flip_children(s.drop_first())[j - 1]);
            }
        }
    }
}

/// Chain nodes past the root ignore the lateral offset: it only places the
/// first segment.
proof fn lemma_chain_offset_irrelevant(
    limb: LimbStructure,
    class: AppendageClass,
    side: Option<Side>,
    off1: int,
    off2: int,
    path: Seq<u8>,
    c: SkeletonConfig,
    i: int,
)
    requires
        1 <= i,
    ensures
        spec_chain_node(limb, class, side, off1, path, c, i) == spec_chain_node(
            limb,
            class,
            side,
            off2,
            path,
            c,
            i,
        ),
    decreases limb, 0int, limb.segments@.len() - i,
{
    let a = spec_chain_node(limb, class, side, off1, path, c, i);
    let b = spec_chain_node(limb, class, side, off2, path, c, i);
    if i + 1 < limb.segments@.len() {
        lemma_chain_offset_irrelevant(limb, class, side, off1, off2, path, c, i + 1);
    }
    assert(a =~= b);
}

/// Mirroring a whole limb subtree: building it for the right side gives the
/// left-side build with every side marker flipped, node for node.
proof fn lemma_chain_mirror(
    limb: LimbStructure,
    class: AppendageClass,
    lateral_offset: int,
    path: Seq<u8>,
    c: SkeletonConfig,
    i: int,
)
    requires
        0 <= i,
    ensures
        spec_chain_node(limb, class, Some(Side::Right), lateral_offset, path, c, i) == flip_sides(
            spec_chain_node(limb, class, Some(Side::Left), lateral_offset, path, c, i),
        ),
    decreases limb, 0int, limb.segments@.len() - i,
{
    let r = spec_chain_node(limb, class, Some(Side::Right), lateral_offset, path, c, i);
    let l = spec_chain_node(limb, class, Some(Side::Left), lateral_offset, path, c, i);
    let branch_l: Seq<NodeModel> = if 1 <= i && limb.branching is Some
        && limb.branching->0.parent_segment == i {
        crate::generator::spec_branch_models_from(limb.branching->0, class, Some(Side::Left), path, c, 0)
    } else {
        Seq::empty()
    };
    let below_l: Seq<NodeModel> = if i + 1 < limb.segments@.len() {
        seq![spec_chain_node(limb, class, Some(Side::Left), lateral_offset, path, c, i + 1)]
    } else {
        spec_digit_models(limb.terminus, Some(Side::Left), path, c)
    };
    let branch_r: Seq<NodeModel> = if 1 <= i && limb.branching is Some
        && limb.branching->0.parent_segment == i {
        crate::generator::spec_branch_models_from(limb.branching->0, class, Some(Side::Right), path, c, 0)
    } else {
        Seq::empty()
    };
    let below_r: Seq<NodeModel> = if i + 1 < limb.segments@.len() {
        seq![spec_chain_node(limb, class, Some(Side::Right), lateral_offset, path, c, i + 1)]
    } else {
        spec_digit_models(limb.terminus, Some(Side::Right), path, c)
    };
    if 1 <= i && limb.branching is Some && limb.branching->0.parent_segment == i {
        lemma_branches_mirror(limb.branching->0, class, path, c, 0);
    } else {
        assert(flip_children(Seq::<NodeModel>::empty()) =~= Seq::<NodeModel>::empty());
    }
    assert(branch_r =~= flip_children(branch_l));
    if i + 1 < limb.segments@.len() {
        lemma_chain_mirror(limb, class, lateral_offset, path, c, i + 1);
        assert(flip_children(below_l) =~= seq![flip_sides(below_l[0])] + flip_children(
            below_l.drop_first(),
        ));
        assert(below_l.drop_first() =~= Seq::<NodeModel>::empty());
        assert(flip_children(Seq::<NodeModel>::empty()) =~= Seq::<NodeModel>::empty());
    } else {
        lemma_digits_mirror(limb.terminus, path, c);
    }
    assert(below_r =~= flip_children(below_l));
    lemma_flip_children_pointwise(l.children);
    lemma_flip_children_pointwise(branch_l);
    lemma_flip_children_pointwise(below_l);
    assert(l.children == branch_l + below_l);
    assert(r.children == branch_r + below_r);
    assert(branch_r.len() == branch_l.len());
    assert(below_r.len() == below_l.len());
    assert forall|j: int| 0 <= j < l.children.len() implies r.children[j] == flip_sides(
        #[trigger] l.children[j],
    ) by {
        if j < branch_l.len() {
            assert(l.children[j] == branch_l[j]);
            assert(r.children[j] == branch_r[j]);
            assert(branch_r[j] == flip_children(branch_l)[j]);
            assert(flip_children(branch_l)[j] == flip_sides(branch_l[j]));
        } else {
            assert(l.children[j] == below_l[j - branch_l.len()]);
            assert(r.children[j] == below_r[j - branch_l.len()]);
            assert(below_r[j - branch_l.len()] == flip_children(below_l)[j - branch_l.len()]);
            assert(flip_children(below_l)[j - branch_l.len()] == flip_sides(
                below_l[j - branch_l.len()],
            ));
        }
    }
    assert(r.children.len() == l.children.len());
    assert(flip_children(l.children).len() == l.children.len());
    assert forall|j: int| 0 <= j < r.children.len() implies r.children[j] == flip_children(
        l.children,
    )[j] by {
        assert(flip_children(l.children)[j] == flip_sides(l.children[j]));
        assert(r.children[j] == flip_sides(l.children[j]));
    }
    assert(r.children =~= flip_children(l.children));
    assert(r =~= flip_sides(l));
}

/// Digit fans mirror pointwise: same spread, flipped side marker.
proof fn lemma_digits_mirror(t: Terminus, path: Seq<u8>, c: SkeletonConfig)
    ensures
        spec_digit_models(t, Some(Side::Right), path, c) =~= flip_children(
            spec_digit_models(t, Some(Side::Left), path, c),
        ),
{
    let l = spec_digit_models(t, Some(Side::Left), path, c);
    let r = spec_digit_models(t, Some(Side::Right), path, c);
    lemma_flip_children_pointwise(l);
    assert forall|j: int| 0 <= j < l.len() implies flip_sides(l[j]) == r[j] by {
        assert(flip_sides(l[j]).children =~= Seq::<NodeModel>::empty());
        assert(flip_sides(l[j]) =~= r[j]);
    }
}

/// Branch fans mirror pointwise.
proof fn lemma_branches_mirror(
    bp: crate::appendage::BranchPoint,
    class: AppendageClass,
    path: Seq<u8>,
    c: SkeletonConfig,
    k: int,
)
    ensures
        crate::generator::spec_branch_models_from(bp, class, Some(Side::Right), path, c, k)
            =~= flip_children(
            crate::generator::spec_branch_models_from(bp, class, Some(Side::Left), path, c, k),
        ),
    decreases bp, 1int, bp.branch_count.spec_value() - k,
{
    let r = crate::generator::spec_branch_models_from(bp, class, Some(Side::Right), path, c, k);
    let l = crate::generator::spec_branch_models_from(bp, class, Some(Side::Left), path, c, k);
    if k >= bp.branch_count.spec_value() as int {
        assert(l =~= Seq::<NodeModel>::empty());
        assert(flip_children(l) =~= Seq::<NodeModel>::empty());
    } else {
        lemma_chain_mirror(
            *bp.branch,
            class,
            spec_spread_offset(k, bp.branch_count.spec_value() as int),
            path.push(k as u8),
            c,
            0,
        );
        lemma_branches_mirror(bp, class, path, c, k + 1);
        assert(l[0] == spec_limb_model(
            *bp.branch,
            class,
            Some(Side::Left),
            spec_spread_offset(k, bp.branch_count.spec_value() as int),
            path.push(k as u8),
            c,
        ));
        assert(l.drop_first() =~= crate::generator::spec_branch_models_from(
            bp,
            class,
            Some(Side::Left),
            path,
            c,
            k + 1,
        ));
        assert(r[0] == spec_limb_model(
            *bp.branch,
            class,
            Some(Side::Right),
            spec_spread_offset(k, bp.branch_count.spec_value() as int),
            path.push(k as u8),
            c,
        ));
        assert(r.drop_first() =~= crate::generator::spec_branch_models_from(
            bp,
            class,
            Some(Side::Right),
            path,
            c,
            k + 1,
        ));
        assert(r[0] == flip_sides(l[0]));
        assert(flip_children(l) =~= seq![flip_sides(l[0])] + flip_children(l.drop_first()));
        assert(r =~= seq![r[0]] + r.drop_first());
    }
}

/// For a bilateral socket filled with the same appendage on both sides,
/// the right subtree is the left subtree with every side marker flipped and
/// the root's lateral placement negated; everything else (lengths, chain
/// rests, articulation, shape) agrees.
pub proof fn lemma_bilateral_mirroring(a: Appendage, c: SkeletonConfig)
    requires
        c.wf(),
    ensures
        ({
            let l = crate::generator::spec_appendage_model(a, Some(Side::Left), c);
            let r = crate::generator::spec_appendage_model(a, Some(Side::Right), c);
            r == (NodeModel {
                rest: crate::node::RestTransform {
                    translation: crate::spatial::Vec3 {
                        x: (-l.rest.translation.x) as i64,
                        y: (-l.rest.translation.y) as i64,
                        z: (-l.rest.translation.z) as i64,
                    },
                    rotation: l.rest.rotation,
                },
                ..flip_sides(l)
            })
        }),
{
    let d = c.default_lateral_offset as int;
    let l = crate::generator::spec_appendage_model(a, Some(Side::Left), c);
    let r = crate::generator::spec_appendage_model(a, Some(Side::Right), c);
    assert(Side::Left.spec_mirror_x() == 1i64);
    assert(Side::Right.spec_mirror_x() == -1i64);
    assert((1int) * d == d) by (nonlinear_arith);
    assert((-1int) * d == -d) by (nonlinear_arith);
    assert(crate::generator::spec_side_lateral(Some(Side::Left), c) == d);
    assert(crate::generator::spec_side_lateral(Some(Side::Right), c) == -d);
    let l_neg = spec_chain_node(a.structure, a.class, Some(Side::Left), -d, Seq::empty(), c, 0);
    lemma_chain_mirror(a.structure, a.class, -d, Seq::empty(), c, 0);
    assert(r == flip_sides(l_neg));
    if 1 < a.structure.segments@.len() {
        lemma_chain_offset_irrelevant(
            a.structure,
            a.class,
            Some(Side::Left),
            -d,
            d,
            Seq::empty(),
            c,
            1,
        );
    }
    assert(l_neg.children =~= l.children);
    c.lateral_axis.lemma_scaled_neg(d);
    assert(l_neg == (NodeModel {
        rest: crate::node::RestTransform {
            translation: crate::spatial::Vec3 {
                x: (-l.rest.translation.x) as i64,
                y: (-l.rest.translation.y) as i64,
                z: (-l.rest.translation.z) as i64,
            },
            rotation: l.rest.rotation,
        },
        ..l
    }));
    lemma_flip_children_pointwise(l.children);
    assert(r =~= (NodeModel {
        rest: crate::node::RestTransform {
            translation: crate::spatial::Vec3 {
                x: (-l.rest.translation.x) as i64,
                y: (-l.rest.translation.y) as i64,
                z: (-l.rest.translation.z) as i64,
            },
            rotation: l.rest.rotation,
        },
        ..flip_sides(l)
    }));
}

} // verus!
