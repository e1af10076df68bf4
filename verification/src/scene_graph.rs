//! Parent-transform chains of a composite scene graph.
//!
//! A group or CSG node owns its children and carries one transform; a leaf
//! converts between world and local space by applying the inverses of all
//! its ancestors' transforms in turn. Rather than composing one matrix, the
//! scene graph hands every node the ordered list of ancestor inverses — its
//! chain — at the moment the node is attached: attaching a subtree appends
//! the new parent's inverse to the chain of every node in it, so chains
//! stay right even when a populated group is attached to another. The
//! transforms themselves are numeric and opaque here; each is named by an
//! integer token, and the chains of tokens are what is kept consistent.

use vstd::prelude::*;

verus! {

/// A node of the scene graph, holding its chain of ancestor-inverse tokens.
///
/// `inverse` names the node's own inverse transform; `chain` lists the
/// ancestors' tokens, nearest parent first.
pub enum SceneNode {
    Primitive { chain: Vec<u64> },
    Group { inverse: u64, chain: Vec<u64>, children: Vec<SceneNode> },
    Csg { inverse: u64, chain: Vec<u64>, left: Box<SceneNode>, right: Box<SceneNode> },
}

impl SceneNode {
    /// Whether `new` is `old` with `token` appended to the chain of every
    /// node of the subtree, and nothing else changed.
    pub open spec fn chains_extended(old_node: SceneNode, new_node: SceneNode, token: u64) -> bool
        decreases old_node,
    {
        match (old_node, new_node) {
            (SceneNode::Primitive { chain: oc }, SceneNode::Primitive { chain: nc }) => nc@ == oc@.push(
                token,
            ),
            (
                SceneNode::Group { inverse: oi, chain: oc, children: och },
                SceneNode::Group { inverse: ni, chain: nc, children: nch },
            ) => {
                &&& ni == oi
                &&& nc@ == oc@.push(token)
                &&& nch.len() == och.len()
                &&& forall|i: int|
                    0 <= i < och.len() ==> Self::chains_extended(
                        #[trigger] och[i],
                        nch[i],
                        token,
                    )
            },
            (
                SceneNode::Csg { inverse: oi, chain: oc, left: ol, right: or },
                SceneNode::Csg { inverse: ni, chain: nc, left: nl, right: nr },
            ) => {
                &&& ni == oi
                &&& nc@ == oc@.push(token)
                &&& Self::chains_extended(*ol, *nl, token)
                &&& Self::chains_extended(*or, *nr, token)
            },
            _ => false,
        }
    }

    /// Whether every chain in the subtree is right under the given list of
    /// ancestor tokens: the node's own chain equals `above`, and each child
    /// sits under the node's token followed by `above`.
    pub open spec fn chains_consistent(self, above: Seq<u64>) -> bool
        decreases self,
    {
        match self {
            SceneNode::Primitive { chain } => chain@ == above,
            SceneNode::Group { inverse, chain, children } => {
                &&& chain@ == above
                &&& forall|i: int|
                    0 <= i < children.len() ==> (#[trigger] children[i]).chains_consistent(
                        seq![inverse] + above,
                    )
            },
            SceneNode::Csg { inverse, chain, left, right } => {
                &&& chain@ == above
                &&& left.chains_consistent(seq![inverse] + above)
                &&& right.chains_consistent(seq![inverse] + above)
            },
        }
    }

    /// Appends a new ancestor's inverse token to the chain of every node of
    /// the subtree.
    #[verifier::loop_isolation(false)]
    pub fn push_parent_inverse(self, token: u64) -> (r: SceneNode)
        ensures
            SceneNode::chains_extended(self, r, token),
        decreases self,
    {
        let ghost orig = self;
        match self {
            SceneNode::Primitive { mut chain } => {
                chain.push(token);
                SceneNode::Primitive { chain }
            },
            SceneNode::Group { inverse, mut chain, mut children } => {
                proof {
                    assert(orig->Group_children == children);
                    assert(decreases_to!(orig => orig->Group_children));
                }
                chain.push(token);
                let ghost old_children = children@;
                let mut extended: Vec<SceneNode> = Vec::new();
                while children.len() > 0
                    invariant
                        orig is Group,
                        orig->Group_children@ == old_children,
                        extended.len() + children.len() == old_children.len(),
                        children@ =~= old_children.subrange(
                            extended.len() as int,
                            old_children.len() as int,
                        ),
                        forall|i: int|
                            0 <= i < extended.len() ==> Self::chains_extended(
                                #[trigger] old_children[i],
                                extended[i],
                                token,
                            ),
                    decreases children.len(),
                {
                    let child = children.remove(0);
                    proof {
                        let k = extended.len() as int;
                        assert(child == orig->Group_children@[k]);
                        assert(decreases_to!(orig => orig->Group_children));
                        assert(decreases_to!(orig->Group_children => orig->Group_children@));
                        assert(decreases_to!(orig->Group_children@ => orig->Group_children@[k]));
                        assert(decreases_to!(orig => child));
                    }
                    let new_child = child.push_parent_inverse(token);
                    extended.push(new_child);
                }
                SceneNode::Group { inverse, chain, children: extended }
            },
            SceneNode::Csg { inverse, mut chain, left, right } => {
                chain.push(token);
                let new_left = (*left).push_parent_inverse(token);
                let new_right = (*right).push_parent_inverse(token);
                SceneNode::Csg {
                    inverse,
                    chain,
                    left: Box::new(new_left),
                    right: Box::new(new_right),
                }
            },
        }
    }

    /// Attaches a node to a group: the group's inverse token is appended to
    /// the chain of every node of the attached subtree, transitively, so
    /// the chains stay consistent even when the attached node is a group
    /// that was populated beforehand. The group itself must not have been
    /// attached anywhere yet; attach bottom-up.
    pub fn add_to_group(group: SceneNode, child: SceneNode) -> (r: SceneNode)
        requires
            group is Group,
        ensures
            r is Group,
            r->Group_inverse == group->Group_inverse,
            r->Group_chain@ == group->Group_chain@,
            r->Group_children@.len() == group->Group_children@.len() + 1,
            forall|i: int|
                0 <= i < group->Group_children@.len() ==> r->Group_children@[i]
                    == group->Group_children@[i],
            SceneNode::chains_extended(
                child,
                r->Group_children@.last(),
                group->Group_inverse,
            ),
            group.chains_consistent(Seq::empty()) && child.chains_consistent(Seq::empty())
                ==> r.chains_consistent(Seq::empty()),
    {
        let ghost orig_group = group;
        match group {
            SceneNode::Group { inverse, chain, mut children } => {
                let new_child = child.push_parent_inverse(inverse);
                children.push(new_child);
                let r = SceneNode::Group { inverse, chain, children };
                proof {
                    if orig_group.chains_consistent(Seq::empty())
                        && child.chains_consistent(Seq::empty()) {
                        lemma_extended_consistent(child, new_child, inverse, Seq::empty());
                        assert(Seq::empty().push(inverse) =~= seq![inverse] + Seq::<
                            u64,
                        >::empty());
                        assert forall|i: int| 0 <= i < r->Group_children@.len() implies (
                        #[trigger] r->Group_children@[i]).chains_consistent(
                            seq![inverse] + Seq::empty(),
                        ) by {
                            if i < orig_group->Group_children@.len() {
                                assert(orig_group->Group_children@[i].chains_consistent(
                                    seq![inverse] + Seq::empty(),
                                ));
                            }
                        }
                    }
                }
                r
            },
            _ => vstd::pervasive::unreached(),
        }
    }

    /// Builds a CSG node over two operand subtrees: as with a group, the
    /// node's inverse token is appended to every chain of both subtrees.
    /// The node starts unattached, with an empty chain of its own.
    pub fn new_csg(inverse: u64, left: SceneNode, right: SceneNode) -> (r: SceneNode)
        ensures
            r is Csg,
            r->Csg_inverse == inverse,
            r->Csg_chain@ == Seq::<u64>::empty(),
            SceneNode::chains_extended(left, *r->Csg_left, inverse),
            SceneNode::chains_extended(right, *r->Csg_right, inverse),
            left.chains_consistent(Seq::empty()) && right.chains_consistent(Seq::empty())
                ==> r.chains_consistent(Seq::empty()),
    {
        let new_left = left.push_parent_inverse(inverse);
        let new_right = right.push_parent_inverse(inverse);
        let r = SceneNode::Csg {
            inverse,
            chain: Vec::new(),
            left: Box::new(new_left),
            right: Box::new(new_right),
        };
        proof {
            if left.chains_consistent(Seq::empty()) && right.chains_consistent(Seq::empty()) {
                lemma_extended_consistent(left, new_left, inverse, Seq::empty());
                lemma_extended_consistent(right, new_right, inverse, Seq::empty());
                assert(Seq::empty().push(inverse) =~= seq![inverse] + Seq::<u64>::empty());
            }
        }
        r
    }
}

/// Chain propagation keeps a subtree consistent: if every chain of a
/// subtree is right under the ancestor list `above`, then after appending
/// `token` throughout, every chain is right under `above` with `token`
/// appended — the subtree sits correctly one level deeper.
pub proof fn lemma_extended_consistent(
    old_node: SceneNode,
    new_node: SceneNode,
    token: u64,
    above: Seq<u64>,
)
    requires
        SceneNode::chains_extended(old_node, new_node, token),
        old_node.chains_consistent(above),
    ensures
        new_node.chains_consistent(above.push(token)),
    decreases old_node,
{
    match (old_node, new_node) {
        (SceneNode::Primitive { chain: oc }, SceneNode::Primitive { chain: nc }) => {},
        (
            SceneNode::Group { inverse: oi, chain: oc, children: och },
            SceneNode::Group { inverse: ni, chain: nc, children: nch },
        ) => {
            assert forall|i: int| 0 <= i < nch.len() implies (#[trigger] nch[i]).chains_consistent(
                seq![ni] + above.push(token),
            ) by {
                assert(SceneNode::chains_extended(och[i], nch[i], token));
                assert(och[i].chains_consistent(seq![oi] + above));
                lemma_extended_consistent(och[i], nch[i], token, seq![oi] + above);
                assert((seq![oi] + above).push(token) =~= seq![ni] + above.push(token));
            }
        },
        (
            SceneNode::Csg { inverse: oi, chain: oc, left: ol, right: or },
            SceneNode::Csg { inverse: ni, chain: nc, left: nl, right: nr },
        ) => {
            lemma_extended_consistent(*ol, *nl, token, seq![oi] + above);
            lemma_extended_consistent(*or, *nr, token, seq![oi] + above);
            assert((seq![oi] + above).push(token) =~= seq![ni] + above.push(token));
        },
        _ => {},
    }
}

} // verus!
