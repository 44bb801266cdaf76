use vstd::prelude::*;
use crate::bone_id::{BoneId, BoneIdView};
use crate::primitives::Length;
use crate::skeletal::JointArticulation;
use crate::spatial::{Rotation, Vec3, MAX_OFFSET};

verus! {

/// Rest pose transform of a bone relative to its parent bone.
#[derive(Clone, Copy, Debug, PartialEq, Eq, Structural)]
pub struct RestTransform {
    pub translation: Vec3,
    pub rotation: Rotation,
}

pub open spec fn spec_identity_rest() -> RestTransform {
    RestTransform { translation: Vec3 { x: 0i64, y: 0i64, z: 0i64 }, rotation: Rotation::spec_identity() }
}

impl Default for RestTransform {
    fn default() -> (r: RestTransform)
        ensures
            r == spec_identity_rest(),
    {
        RestTransform { translation: Vec3::zero(), rotation: Rotation::identity() }
    }
}

impl RestTransform {
    pub fn from_translation(translation: Vec3) -> (r: RestTransform)
        ensures
            r == (RestTransform { translation, rotation: Rotation::spec_identity() }),
    {
        RestTransform { translation, rotation: Rotation::identity() }
    }

    /// Place a child `length` ticks along `axis` in the parent's frame.
    pub fn from_offset_along_parent(length: i64, axis: Vec3) -> (r: RestTransform)
        requires
            axis.axis_bounded(),
            -MAX_OFFSET <= length <= MAX_OFFSET,
        ensures
            r == (RestTransform {
                translation: axis.spec_scaled(length as int),
                rotation: Rotation::spec_identity(),
            }),
    {
        RestTransform { translation: axis.scaled(length), rotation: Rotation::identity() }
    }

    /// Shift the transform sideways, for bilateral placement.
    pub fn with_lateral_offset(self, offset: i64) -> (r: RestTransform)
        requires
            i64::MIN <= self.translation.x + offset <= i64::MAX,
        ensures
            r == (RestTransform {
                translation: Vec3 {
                    x: (self.translation.x + offset) as i64,
                    ..self.translation
                },
                ..self
            }),
    {
        let mut this = self;
        this.translation.x = this.translation.x + offset;
        this
    }

    /// Mirror across the plane of symmetry: negate the lateral component.
    pub fn mirrored_x(self) -> (r: RestTransform)
        requires
            self.translation.x > i64::MIN,
        ensures
            r == (RestTransform {
                translation: Vec3 { x: (-self.translation.x) as i64, ..self.translation },
                ..self
            }),
    {
        let mut this = self;
        this.translation.x = -this.translation.x;
        this
    }
}

/// The mathematical content of one skeleton node and its whole subtree.
#[verifier::ext_equal]
pub ghost struct NodeModel {
    pub id: BoneIdView,
    pub rest: RestTransform,
    pub length: Length,
    pub articulation: Option<JointArticulation>,
    pub children: Seq<NodeModel>,
}

/// Total number of nodes in the subtree rooted at `m`.
pub open spec fn model_count(m: NodeModel) -> nat
    decreases m,
{
    1 + count_children(m.children)
}

pub open spec fn count_children(s: Seq<NodeModel>) -> nat
    decreases s,
{
    if s.len() == 0 {
        0
    } else {
        model_count(s[0]) + count_children(s.drop_first())
    }
}

/// Depth-first, children left to right: the node itself, then each child's subtree.
pub open spec fn preorder(m: NodeModel) -> Seq<NodeModel>
    decreases m,
{
    seq![m] + preorder_children(m.children)
}

pub open spec fn preorder_children(s: Seq<NodeModel>) -> Seq<NodeModel>
    decreases s,
{
    if s.len() == 0 {
        Seq::empty()
    } else {
        preorder(s[0]) + preorder_children(s.drop_first())
    }
}

/// The first node in preorder whose id equals `id`, if any.
pub open spec fn find_in(m: NodeModel, id: BoneIdView) -> Option<NodeModel>
    decreases m,
{
    if m.id == id {
        Some(m)
    } else {
        find_in_children(m.children, id)
    }
}

pub open spec fn find_in_children(s: Seq<NodeModel>, id: BoneIdView) -> Option<NodeModel>
    decreases s,
{
    if s.len() == 0 {
        None
    } else if find_in(s[0], id) is Some {
        find_in(s[0], id)
    } else {
        find_in_children(s.drop_first(), id)
    }
}

/// Every bone id in the subtree, in preorder.
pub open spec fn ids_of(m: NodeModel) -> Seq<BoneIdView> {
    preorder(m).map_values(|n: NodeModel| n.id)
}

/// A node in the skeleton hierarchy, owning its subtree.
#[derive(Debug)]
pub struct SkeletonNode {
    pub id: BoneId,
    pub rest: RestTransform,
    pub length: Length,
    pub articulation: Option<JointArticulation>,
    pub children: Vec<SkeletonNode>,
}

pub open spec fn model_children(s: Seq<SkeletonNode>) -> Seq<NodeModel>
    decreases s,
{
    if s.len() == 0 {
        Seq::empty()
    } else {
        seq![s[0].model()] + model_children(s.drop_first())
    }
}

impl SkeletonNode {
    /// The subtree this node roots, as a mathematical tree.
    pub open spec fn model(self) -> NodeModel
        decreases self,
    {
        NodeModel {
            id: self.id@,
            rest: self.rest,
            length: self.length,
            articulation: self.articulation,
            children: model_children(self.children@),
        }
    }
}

/// Appending a node appends its model.
pub proof fn lemma_model_children_push(s: Seq<SkeletonNode>, x: SkeletonNode)
    ensures
        model_children(s.push(x)) =~= model_children(s).push(x.model()),
    decreases s.len(),
{
    if s.len() == 0 {
        assert(s.push(x)[0] == x);
        assert(s.push(x).drop_first() =~= Seq::<SkeletonNode>::empty());
        assert(model_children(Seq::<SkeletonNode>::empty()) =~= Seq::<NodeModel>::empty());
        assert(model_children(s.push(x)) =~= seq![x.model()]);
        assert(model_children(s) =~= Seq::<NodeModel>::empty());
    } else {
        assert(s.push(x)[0] == s[0]);
        assert(s.push(x).drop_first() =~= s.drop_first().push(x));
        lemma_model_children_push(s.drop_first(), x);
    }
}

/// The model sequence is the element-wise model of the node sequence.
pub proof fn lemma_model_children_len(s: Seq<SkeletonNode>)
    ensures
        model_children(s).len() == s.len(),
        forall|i: int| 0 <= i < s.len() ==> model_children(s)[i] == s[i].model(),
    decreases s.len(),
{
    if s.len() > 0 {
        lemma_model_children_len(s.drop_first());
    }
}

impl SkeletonNode {
    pub fn new(id: BoneId, length: Length) -> (r: SkeletonNode)
        ensures
            r.model() == (NodeModel {
                id: id@,
                rest: spec_identity_rest(),
                length: length,
                articulation: None,
                children: Seq::empty(),
            }),
    {
        let r = SkeletonNode {
            id,
            rest: RestTransform::default(),
            length,
            articulation: None,
            children: Vec::new(),
        };
        proof {
            assert(model_children(r.children@) =~= Seq::<NodeModel>::empty());
            assert(r.model() =~= (NodeModel {
                id: r.id@,
                rest: spec_identity_rest(),
                length: length,
                articulation: None,
                children: Seq::empty(),
            }));
        }
        r
    }

    pub fn with_rest(self, rest: RestTransform) -> (r: SkeletonNode)
        ensures
            r.model() == (NodeModel { rest, ..self.model() }),
    {
        let mut this = self;
        this.rest = rest;
        this
    }

    pub fn with_articulation(self, articulation: JointArticulation) -> (r: SkeletonNode)
        ensures
            r.model() == (NodeModel { articulation: Some(articulation), ..self.model() }),
    {
        let mut this = self;
        this.articulation = Some(articulation);
        this
    }

    pub fn with_child(self, child: SkeletonNode) -> (r: SkeletonNode)
        ensures
            r.model() == (NodeModel {
                children: self.model().children.push(child.model()),
                ..self.model()
            }),
    {
        let mut this = self;
        proof {
            lemma_model_children_push(this.children@, child);
        }
        this.children.push(child);
        this
    }

    /// Append `child` as the last child of this node.
    pub fn add_child(&mut self, child: SkeletonNode)
        ensures
            final(self).model() == (NodeModel {
                children: old(self).model().children.push(child.model()),
                ..old(self).model()
            }),
    {
        proof {
            lemma_model_children_push(self.children@, child);
        }
        self.children.push(child);
    }
}

/// Extending a node-list prefix by one extends its model list by one.
pub proof fn lemma_model_children_take_snoc(s: Seq<SkeletonNode>, i: int)
    requires
        0 <= i < s.len(),
    ensures
        model_children(s.take(i + 1)) =~= model_children(s.take(i)).push(s[i].model()),
    decreases i,
{
    if i == 0 {
        assert(s.take(1) =~= seq![s[0]]);
        assert(s.take(1).drop_first() =~= Seq::<SkeletonNode>::empty());
        assert(s.take(0) =~= Seq::<SkeletonNode>::empty());
    } else {
        assert(s.take(i + 1).drop_first() =~= s.drop_first().take(i));
        assert(s.take(i).drop_first() =~= s.drop_first().take(i - 1));
        assert(s.take(i + 1)[0] == s[0]);
        assert(s.take(i)[0] == s[0]);
        assert(s.drop_first()[i - 1] == s[i]);
        lemma_model_children_take_snoc(s.drop_first(), i - 1);
    }
}

/// Append every node of `children`, in order, as a child of `parent`.
pub fn append_children(parent: &mut SkeletonNode, children: Vec<SkeletonNode>)
    ensures
        final(parent).model() == (NodeModel {
            children: old(parent).model().children + model_children(children@),
            ..old(parent).model()
        }),
{
    let ghost all: Seq<SkeletonNode> = children@;
    let ghost base: NodeModel = parent.model();
    let mut rest = children;
    while rest.len() > 0
        invariant
            rest@.len() <= all.len(),
            rest@ =~= all.skip(all.len() - rest@.len()),
            parent.model() == (NodeModel {
                children: base.children + model_children(all.take(all.len() - rest@.len())),
                ..base
            }),
        decreases rest@.len(),
    {
        let ghost i: int = all.len() - rest@.len();
        proof {
            lemma_model_children_take_snoc(all, i);
            assert(rest@[0] == all[i]);
        }
        let node = rest.remove(0);
        parent.add_child(node);
        proof {
            assert(rest@ =~= all.skip(i + 1));
            assert(base.children + model_children(all.take(i + 1)) =~= (base.children
                + model_children(all.take(i))).push(all[i].model()));
        }
    }
    proof {
        assert(all.take(all.len() as int) =~= all);
        assert(parent.model() =~= (NodeModel {
            children: base.children + model_children(all),
            ..base
        }));
    }
}

/// Splitting a child list splits its node count.
pub proof fn lemma_count_children_split(s: Seq<NodeModel>, i: int)
    requires
        0 <= i <= s.len(),
    ensures
        count_children(s) == count_children(s.take(i)) + count_children(s.skip(i)),
    decreases i,
{
    if i == 0 {
        assert(s.take(0) =~= Seq::<NodeModel>::empty());
        assert(s.skip(0) =~= s);
    } else {
        assert(s.take(i).drop_first() =~= s.drop_first().take(i - 1));
        assert(s.skip(i) =~= s.drop_first().skip(i - 1));
        assert(s.take(i)[0] == s[0]);
        lemma_count_children_split(s.drop_first(), i - 1);
    }
}

/// Dropping the first element of a non-empty child list drops its count.
pub proof fn lemma_count_children_first(s: Seq<NodeModel>)
    requires
        s.len() > 0,
    ensures
        count_children(s) == model_count(s[0]) + count_children(s.drop_first()),
{
}

impl SkeletonNode {
    /// Recursively count all bones in this subtree, including this node.
    pub fn bone_count(&self) -> (r: usize)
        requires
            model_count(self.model()) <= usize::MAX,
        ensures
            r == model_count(self.model()),
        decreases *self,
    {
        let ghost kids: Seq<NodeModel> = self.model().children;
        proof {
            lemma_model_children_len(self.children@);
        }
        let mut total: usize = 1;
        let mut i: usize = 0;
        while i < self.children.len()
            invariant
                i <= self.children@.len(),
                kids == model_children(self.children@),
                kids.len() == self.children@.len(),
                forall|k: int| 0 <= k < kids.len() ==> kids[k] == self.children@[k].model(),
                total == 1 + count_children(kids.take(i as int)),
                model_count(self.model()) <= usize::MAX,
                model_count(self.model()) == 1 + count_children(kids),
            decreases self.children@.len() - i,
        {
            proof {
                lemma_count_children_split(kids, i as int);
                lemma_count_children_first(kids.skip(i as int));
                assert(kids.skip(i as int)[0] == kids[i as int]);
                assert(kids.skip(i as int).drop_first() =~= kids.skip(i as int + 1));
                assert(kids.take(i as int + 1).drop_last() =~= kids.take(i as int));
                assert(kids.take(i as int + 1).last() == kids[i as int]);
                lemma_count_children_take_snoc(kids, i as int);
            }
            let c = self.children[i].bone_count();
            total = total + c;
            i = i + 1;
        }
        proof {
            assert(kids.take(kids.len() as int) =~= kids);
        }
        total
    }
}

/// Extending a prefix by one element adds that subtree's count.
pub proof fn lemma_count_children_take_snoc(s: Seq<NodeModel>, i: int)
    requires
        0 <= i < s.len(),
    ensures
        count_children(s.take(i + 1)) == count_children(s.take(i)) + model_count(s[i]),
    decreases i,
{
    if i == 0 {
        assert(s.take(1) =~= seq![s[0]]);
        assert(s.take(1).drop_first() =~= Seq::<NodeModel>::empty());
        assert(s.take(0) =~= Seq::<NodeModel>::empty());
    } else {
        assert(s.take(i + 1).drop_first() =~= s.drop_first().take(i));
        assert(s.take(i).drop_first() =~= s.drop_first().take(i - 1));
        assert(s.take(i + 1)[0] == s[0]);
        assert(s.take(i)[0] == s[0]);
        lemma_count_children_take_snoc(s.drop_first(), i - 1);
    }
}

/// A found node is returned over the untouched part of the search.
pub proof fn lemma_find_children_take_snoc(s: Seq<NodeModel>, id: BoneIdView, i: int)
    requires
        0 <= i < s.len(),
        find_in_children(s.take(i), id) is None,
    ensures
        find_in_children(s.take(i + 1), id) == find_in(s[i], id),
    decreases i,
{
    if i == 0 {
        assert(s.take(1) =~= seq![s[0]]);
        assert(s.take(1).drop_first() =~= Seq::<NodeModel>::empty());
    } else {
        assert(s.take(i + 1).drop_first() =~= s.drop_first().take(i));
        assert(s.take(i).drop_first() =~= s.drop_first().take(i - 1));
        assert(s.take(i + 1)[0] == s[0]);
        assert(s.take(i)[0] == s[0]);
        assert(s.drop_first()[i - 1] == s[i]);
        lemma_find_children_take_snoc(s.drop_first(), id, i - 1);
    }
}

impl SkeletonNode {
    /// Find the first node in preorder carrying `id`.
    pub fn find(&self, id: &BoneId) -> (r: Option<&SkeletonNode>)
        ensures
            match find_in(self.model(), id@) {
                Some(m) => r is Some && r->0.model() == m,
                None => r is None,
            },
        decreases *self,
    {
        if &self.id == id {
            return Some(self);
        }
        let ghost kids: Seq<NodeModel> = self.model().children;
        proof {
            lemma_model_children_len(self.children@);
        }
        let mut i: usize = 0;
        while i < self.children.len()
            invariant
                i <= self.children@.len(),
                kids == model_children(self.children@),
                kids.len() == self.children@.len(),
                forall|k: int| 0 <= k < kids.len() ==> kids[k] == self.children@[k].model(),
                find_in_children(kids.take(i as int), id@) is None,
                self.id@ != id@,
            decreases self.children@.len() - i,
        {
            proof {
                lemma_find_children_take_snoc(kids, id@, i as int);
            }
            let found = self.children[i].find(id);
            if found.is_some() {
                proof {
                    assert(find_in(kids[i as int], id@) is Some);
                    assert(find_in_children(kids.take(i as int + 1), id@) == find_in(
                        kids[i as int],
                        id@,
                    ));
                    lemma_find_children_is_some(kids, id@, i as int + 1);
                    assert(find_in_children(kids, id@) == find_in(kids[i as int], id@));
                    assert(self.model().id == self.id@);
                    assert(find_in(self.model(), id@) == find_in_children(kids, id@));
                }
                return found;
            }
            i = i + 1;
        }
        proof {
            assert(kids.take(kids.len() as int) =~= kids);
        }
        None
    }
}

/// A hit inside a prefix is a hit in the whole list.
pub proof fn lemma_find_children_is_some(s: Seq<NodeModel>, id: BoneIdView, i: int)
    requires
        0 <= i <= s.len(),
        find_in_children(s.take(i), id) is Some,
    ensures
        find_in_children(s, id) == find_in_children(s.take(i), id),
    decreases i,
{
    if i == 0 {
        assert(s.take(0) =~= Seq::<NodeModel>::empty());
    } else if s.len() == 0 {
    } else {
        assert(s.take(i)[0] == s[0]);
        if find_in(s[0], id) is Some {
        } else {
            assert(s.take(i).drop_first() =~= s.drop_first().take(i - 1));
            lemma_find_children_is_some(s.drop_first(), id, i - 1);
        }
    }
}

/// Lazy preorder traversal over a borrowed skeleton.
pub struct DepthFirstIter<'a> {
    stack: Vec<&'a SkeletonNode>,
}

/// Nodes still to be yielded: the top of the stack first, whole subtrees.
pub open spec fn stack_remaining(s: Seq<&SkeletonNode>) -> Seq<NodeModel>
    decreases s.len(),
{
    if s.len() == 0 {
        Seq::empty()
    } else {
        preorder(s.last().model()) + stack_remaining(s.drop_last())
    }
}

impl<'a> DepthFirstIter<'a> {
    pub closed spec fn remaining(self) -> Seq<NodeModel> {
        stack_remaining(self.stack@)
    }

    /// Yield the next node in preorder, or nothing when the walk is done.
    pub fn next(&mut self) -> (r: Option<&'a SkeletonNode>)
        ensures
            old(self).remaining().len() == 0 ==> r is None && final(self).remaining()
                == old(self).remaining(),
            old(self).remaining().len() > 0 ==> r is Some && r->0.model()
                == old(self).remaining()[0] && final(self).remaining() == old(
                self,
            ).remaining().drop_first(),
    {
        let popped = self.stack.pop();
        match popped {
            None => {
                proof {
                    assert(old(self).remaining().len() == 0);
                }
                None
            },
            Some(node) => {
                proof {
                    assert(old(self).stack@.drop_last() =~= self.stack@);
                    assert(old(self).remaining() == preorder(node.model()) + stack_remaining(
                        self.stack@,
                    ));
                    lemma_preorder_len(node.model());
                }
                let ghost rest: Seq<NodeModel> = stack_remaining(self.stack@);
                let ghost kids: Seq<NodeModel> = node.model().children;
                proof {
                    lemma_model_children_len(node.children@);
                }
                let mut j: usize = node.children.len();
                while j > 0
                    invariant
                        j <= node.children@.len(),
                        kids == model_children(node.children@),
                        kids.len() == node.children@.len(),
                        forall|k: int| 0 <= k < kids.len() ==> kids[k] == node.children@[k].model(),
                        stack_remaining(self.stack@) == preorder_children(kids.skip(j as int))
                            + rest,
                    decreases j,
                {
                    j = j - 1;
                    let ghost prev: Seq<&SkeletonNode> = self.stack@;
                    self.stack.push(&node.children[j]);
                    proof {
                        assert(self.stack@.drop_last() =~= prev);
                        assert(self.stack@.last() == self.stack@[self.stack@.len() - 1]);
                        assert(self.stack@.last().model() == kids[j as int]);
                        lemma_preorder_children_skip(kids, j as int);
                    }
                }
                proof {
                    assert(kids.skip(0) =~= kids);
                    assert(final(self).remaining() =~= preorder_children(kids) + rest);
                    assert(old(self).remaining().drop_first() =~= preorder_children(kids) + rest);
                }
                Some(node)
            },
        }
    }
}

/// Peeling one subtree off the remaining child list.
pub proof fn lemma_preorder_children_skip(s: Seq<NodeModel>, j: int)
    requires
        0 <= j < s.len(),
    ensures
        preorder_children(s.skip(j)) == preorder(s[j]) + preorder_children(s.skip(j + 1)),
{
    assert(s.skip(j)[0] == s[j]);
    assert(s.skip(j).drop_first() =~= s.skip(j + 1));
}

/// A preorder walk yields exactly as many nodes as the subtree holds.
pub proof fn lemma_preorder_len(m: NodeModel)
    ensures
        preorder(m).len() == model_count(m),
    decreases m,
{
    lemma_preorder_children_len(m.children);
}

pub proof fn lemma_preorder_children_len(s: Seq<NodeModel>)
    ensures
        preorder_children(s).len() == count_children(s),
    decreases s,
{
    if s.len() > 0 {
        lemma_preorder_len(s[0]);
        lemma_preorder_children_len(s.drop_first());
    }
}

impl SkeletonNode {
    /// Start a lazy preorder walk of this subtree.
    pub fn iter_depth_first(&self) -> (r: DepthFirstIter<'_>)
        ensures
            r.remaining() == preorder(self.model()),
    {
        let mut stack: Vec<&SkeletonNode> = Vec::new();
        stack.push(self);
        proof {
            assert(stack@.drop_last() =~= Seq::<&SkeletonNode>::empty());
            assert(stack@.last() == self);
            assert(stack_remaining(stack@.drop_last()) =~= Seq::<NodeModel>::empty());
            assert(stack_remaining(stack@) =~= preorder(self.model()));
        }
        DepthFirstIter { stack }
    }
}

/// The complete generated skeleton.
#[derive(Debug)]
pub struct GeneratedSkeleton {
    pub root: SkeletonNode,
}

impl GeneratedSkeleton {
    /// The whole skeleton as a mathematical tree.
    pub open spec fn model(self) -> NodeModel {
        self.root.model()
    }

    pub fn new(root: SkeletonNode) -> (r: GeneratedSkeleton)
        ensures
            r.model() == root.model(),
    {
        GeneratedSkeleton { root }
    }

    pub fn bone_count(&self) -> (r: usize)
        requires
            model_count(self.model()) <= usize::MAX,
        ensures
            r == model_count(self.model()),
    {
        self.root.bone_count()
    }

    pub fn find(&self, id: &BoneId) -> (r: Option<&SkeletonNode>)
        ensures
            match find_in(self.model(), id@) {
                Some(m) => r is Some && r->0.model() == m,
                None => r is None,
            },
    {
        self.root.find(id)
    }

    pub fn iter(&self) -> (r: DepthFirstIter<'_>)
        ensures
            r.remaining() == preorder(self.model()),
    {
        self.root.iter_depth_first()
    }
}

} // verus!
