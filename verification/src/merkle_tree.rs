//! The commitment tree: an ordered list of transaction texts folded pairwise
//! into one digest.

use crate::digest::{digest_of_pair, digest_of_text, hex_encode, hex_text, pair_digest, text_digest};
use crate::text::texts_of;
use vstd::prelude::*;
use vstd::slice::slice_to_vec;

verus! {

/// Mathematical shape of a tree node: its digest and, for an inner node, the
/// two subtrees it was computed from.
pub enum NodeShape {
    Leaf { digest: Seq<u8> },
    Pair { digest: Seq<u8>, left: Box<NodeShape>, right: Box<NodeShape> },
}

impl NodeShape {
    /// The digest stored at the top of this shape.
    pub open spec fn digest(self) -> Seq<u8> {
        match self {
            NodeShape::Leaf { digest } => digest,
            NodeShape::Pair { digest, .. } => digest,
        }
    }

    /// Every inner node carries the digest of its two children's digests.
    pub open spec fn consistent(self) -> bool
        decreases self,
    {
        match self {
            NodeShape::Leaf { .. } => true,
            NodeShape::Pair { digest, left, right } => {
                &&& digest == pair_digest(left.digest(), right.digest())
                &&& left.consistent()
                &&& right.consistent()
            },
        }
    }
}

/// The parent of two subtrees.
pub open spec fn join(left: NodeShape, right: NodeShape) -> NodeShape {
    NodeShape::Pair {
        digest: pair_digest(left.digest(), right.digest()),
        left: Box::new(left),
        right: Box::new(right),
    }
}

/// The partner of position `2 * i` in a level: its right neighbour, or the
/// node itself where the level ends there.
pub open spec fn partner_index(len: nat, i: int) -> int {
    if 2 * i + 1 < len {
        2 * i + 1
    } else {
        2 * i
    }
}

/// One leaf per text, in order.
pub open spec fn leaf_shapes(texts: Seq<Seq<char>>) -> Seq<NodeShape> {
    Seq::new(texts.len(), |i: int| NodeShape::Leaf { digest: text_digest(texts[i]) })
}

/// The level above `level`: adjacent nodes joined left to right, an odd last
/// node joined with itself.
pub open spec fn parent_shapes(level: Seq<NodeShape>) -> Seq<NodeShape> {
    Seq::new(
        ((level.len() + 1) / 2) as nat,
        |i: int| join(level[2 * i], level[partner_index(level.len(), i)]),
    )
}

/// The single node that remains after joining levels until one node is left.
pub open spec fn fold_shapes(level: Seq<NodeShape>) -> NodeShape
    decreases level.len(),
{
    if level.len() == 0 {
        NodeShape::Leaf { digest: Seq::empty() }
    } else if level.len() == 1 {
        level[0]
    } else {
        fold_shapes(parent_shapes(level))
    }
}

/// The text whose digest stands for an empty transaction list.
pub open spec fn empty_marker() -> Seq<char> {
    "empty"@
}

/// The tree that commits to `texts`.
pub open spec fn commitment_tree(texts: Seq<Seq<char>>) -> NodeShape {
    if texts.len() == 0 {
        NodeShape::Leaf { digest: text_digest(empty_marker()) }
    } else {
        fold_shapes(leaf_shapes(texts))
    }
}

/// One digest per text, in order.
pub open spec fn leaf_digests(texts: Seq<Seq<char>>) -> Seq<Seq<u8>> {
    Seq::new(texts.len(), |i: int| text_digest(texts[i]))
}

/// The digests of the level above `level`.
pub open spec fn parent_digests(level: Seq<Seq<u8>>) -> Seq<Seq<u8>> {
    Seq::new(
        ((level.len() + 1) / 2) as nat,
        |i: int| pair_digest(level[2 * i], level[partner_index(level.len(), i)]),
    )
}

/// The digest that remains after hashing levels pairwise until one is left.
pub open spec fn fold_digests(level: Seq<Seq<u8>>) -> Seq<u8>
    decreases level.len(),
{
    if level.len() == 0 {
        Seq::empty()
    } else if level.len() == 1 {
        level[0]
    } else {
        fold_digests(parent_digests(level))
    }
}

/// The commitment root of an ordered list of texts.
pub open spec fn commitment_root(texts: Seq<Seq<char>>) -> Seq<u8> {
    if texts.len() == 0 {
        text_digest(empty_marker())
    } else {
        fold_digests(leaf_digests(texts))
    }
}

/// The digests at the top of each shape of a level.
pub open spec fn digests_of(level: Seq<NodeShape>) -> Seq<Seq<u8>> {
    Seq::new(level.len(), |i: int| level[i].digest())
}

proof fn fold_shapes_digest(level: Seq<NodeShape>)
    ensures
        fold_shapes(level).digest() == fold_digests(digests_of(level)),
    decreases level.len(),
{
    if level.len() >= 2 {
        let above = parent_shapes(level);
        assert(digests_of(above) =~= parent_digests(digests_of(level)));
        fold_shapes_digest(above);
    }
}

proof fn fold_shapes_consistent(level: Seq<NodeShape>)
    requires
        forall|i: int| 0 <= i < level.len() ==> (#[trigger] level[i]).consistent(),
    ensures
        fold_shapes(level).consistent(),
    decreases level.len(),
{
    if level.len() >= 2 {
        let above = parent_shapes(level);
        assert forall|i: int| 0 <= i < above.len() implies (#[trigger] above[i]).consistent() by {
            assert(level[2 * i].consistent());
            assert(level[partner_index(level.len(), i)].consistent());
        }
        fold_shapes_consistent(above);
    }
}

/// The top digest of the tree that commits to `texts` is their commitment
/// root.
pub proof fn commitment_tree_digest(texts: Seq<Seq<char>>)
    ensures
        commitment_tree(texts).digest() == commitment_root(texts),
{
    if texts.len() > 0 {
        fold_shapes_digest(leaf_shapes(texts));
        assert(digests_of(leaf_shapes(texts)) =~= leaf_digests(texts));
    }
}

/// In the tree that commits to `texts`, every inner node carries the digest of
/// its children's digests.
pub proof fn commitment_tree_consistent(texts: Seq<Seq<char>>)
    ensures
        commitment_tree(texts).consistent(),
{
    if texts.len() > 0 {
        fold_shapes_consistent(leaf_shapes(texts));
    }
}

/// Equal ordered lists of texts have equal commitment trees and roots.
pub proof fn commitment_is_deterministic(first: Seq<Seq<char>>, second: Seq<Seq<char>>)
    requires
        first.len() == second.len(),
        forall|i: int| 0 <= i < first.len() ==> first[i] == second[i],
    ensures
        commitment_tree(first) == commitment_tree(second),
        commitment_root(first) == commitment_root(second),
{
    assert(first =~= second);
}

/// A node of the tree. A parent owns its two children.
#[derive(Debug)]
pub struct MerkleNode {
    hash: Vec<u8>,
    left: Option<Box<MerkleNode>>,
    right: Option<Box<MerkleNode>>,
}

impl MerkleNode {
    /// The shape of the subtree below this node. A node counts as an inner
    /// node where it has both children.
    pub closed spec fn shape(&self) -> NodeShape
        decreases self,
    {
        match (self.left, self.right) {
            (Some(left), Some(right)) => NodeShape::Pair {
                digest: self.hash@,
                left: Box::new(left.shape()),
                right: Box::new(right.shape()),
            },
            _ => NodeShape::Leaf { digest: self.hash@ },
        }
    }

    proof fn shape_digest(&self)
        ensures
            self.shape().digest() == self.hash@,
    {
    }

    fn leaf(hash: Vec<u8>) -> (node: MerkleNode)
        ensures
            node.shape() == (NodeShape::Leaf { digest: hash@ }),
    {
        MerkleNode { hash, left: None, right: None }
    }

    fn duplicate(&self) -> (copy: MerkleNode)
        ensures
            copy.shape() == self.shape(),
        decreases self,
    {
        let hash = slice_to_vec(self.hash.as_slice());
        match (&self.left, &self.right) {
            (Some(left), Some(right)) => {
                let left_copy = left.duplicate();
                let right_copy = right.duplicate();
                MerkleNode {
                    hash,
                    left: Some(Box::new(left_copy)),
                    right: Some(Box::new(right_copy)),
                }
            },
            _ => MerkleNode { hash, left: None, right: None },
        }
    }

    fn parent(left: &MerkleNode, right: &MerkleNode) -> (node: MerkleNode)
        ensures
            node.shape() == join(left.shape(), right.shape()),
    {
        proof {
            left.shape_digest();
            right.shape_digest();
        }
        let hash = MerkleTree::hash_nodes(left.hash.as_slice(), right.hash.as_slice());
        let left_copy = left.duplicate();
        let right_copy = right.duplicate();
        MerkleNode { hash, left: Some(Box::new(left_copy)), right: Some(Box::new(right_copy)) }
    }
}

/// The shapes of a level of nodes.
spec fn shapes_of(nodes: Seq<MerkleNode>) -> Seq<NodeShape> {
    Seq::new(nodes.len(), |i: int| nodes[i].shape())
}

/// A commitment tree over an ordered list of transaction texts.
#[derive(Debug)]
pub struct MerkleTree {
    root: Option<MerkleNode>,
}

impl View for MerkleTree {
    type V = Option<NodeShape>;

    closed spec fn view(&self) -> Option<NodeShape> {
        match self.root {
            Some(node) => Some(node.shape()),
            None => None,
        }
    }
}

impl MerkleTree {
    /// Builds the tree that commits to `transactions`, in their order.
    pub fn new(transactions: Vec<String>) -> (tree: MerkleTree)
        ensures
            tree@ == Some(commitment_tree(texts_of(transactions@))),
    {
        let ghost texts = texts_of(transactions@);
        if transactions.len() == 0 {
            let hash = digest_of_text("empty");
            return MerkleTree { root: Some(MerkleNode::leaf(hash)) };
        }
        let mut nodes: Vec<MerkleNode> = Vec::new();
        let mut t: usize = 0;
        while t < transactions.len()
            invariant
                t <= transactions@.len(),
                texts == texts_of(transactions@),
                nodes@.len() == t,
                shapes_of(nodes@) == leaf_shapes(texts).take(t as int),
            decreases transactions@.len() - t,
        {
            let hash = Self::hash_leaf(transactions[t].as_str());
            assert(hash@ == text_digest(texts[t as int]));
            let ghost before = shapes_of(nodes@);
            nodes.push(MerkleNode::leaf(hash));
            t += 1;
            assert(shapes_of(nodes@) =~= leaf_shapes(texts).take(t as int)) by {
                assert forall|k: int| 0 <= k < t implies shapes_of(nodes@)[k] == leaf_shapes(
                    texts,
                )[k] by {
                    if k < t - 1 {
                        assert(shapes_of(nodes@)[k] == before[k]);
                    }
                }
            }
        }
        assert(shapes_of(nodes@) =~= leaf_shapes(texts));
        while nodes.len() > 1
            invariant
                nodes@.len() >= 1,
                fold_shapes(shapes_of(nodes@)) == commitment_tree(texts),
            decreases nodes@.len(),
        {
            let ghost level = shapes_of(nodes@);
            let mut above: Vec<MerkleNode> = Vec::new();
            let count = nodes.len();
            let pairs = count / 2 + count % 2;
            let mut k: usize = 0;
            while k < pairs
                invariant
                    level == shapes_of(nodes@),
                    count == nodes@.len(),
                    pairs == (count + 1) / 2,
                    k <= pairs,
                    above@.len() == k,
                    shapes_of(above@) == parent_shapes(level).take(k as int),
                decreases pairs - k,
            {
                let left = &nodes[2 * k];
                let right = if 2 * k + 1 < count {
                    &nodes[2 * k + 1]
                } else {
                    &nodes[2 * k]
                };
                assert(left.shape() == level[2 * k]);
                assert(right.shape() == level[partner_index(level.len(), k as int)]);
                let ghost before = shapes_of(above@);
                above.push(MerkleNode::parent(left, right));
                k += 1;
                assert(shapes_of(above@) =~= parent_shapes(level).take(k as int)) by {
                    assert forall|j: int| 0 <= j < k implies shapes_of(above@)[j] == parent_shapes(
                        level,
                    )[j] by {
                        if j < k - 1 {
                            assert(shapes_of(above@)[j] == before[j]);
                        }
                    }
                }
            }
            assert(shapes_of(above@) =~= parent_shapes(level));
            nodes = above;
        }
        assert(shapes_of(nodes@)[0] == nodes@[0].shape());
        let root = nodes.remove(0);
        MerkleTree { root: Some(root) }
    }

    /// The digest at the root, if the tree has one.
    pub fn root_hash(&self) -> (hash: Option<Vec<u8>>)
        ensures
            match hash {
                Some(bytes) => self@.is_some() && bytes@ == self@.unwrap().digest(),
                None => self@.is_none(),
            },
    {
        match &self.root {
            Some(node) => {
                proof {
                    node.shape_digest();
                }
                Some(slice_to_vec(node.hash.as_slice()))
            },
            None => None,
        }
    }

    /// The digest of a leaf: that of the transaction text.
    pub fn hash_leaf(data: &str) -> (hash: Vec<u8>)
        ensures
            hash@ == text_digest(data@),
    {
        digest_of_text(data)
    }

    /// The digest of an inner node: that of its children's digests, left
    /// before right.
    pub fn hash_nodes(left: &[u8], right: &[u8]) -> (hash: Vec<u8>)
        ensures
            hash@ == pair_digest(left@, right@),
    {
        digest_of_pair(left, right)
    }

    /// The display text of a tree with the given shape.
    pub open spec fn display_text(shape: Option<NodeShape>) -> Seq<char> {
        match shape {
            Some(node) => "MerkleTree { root: "@ + hex_encode(node.digest()) + " }"@,
            None => "MerkleTree { root: None }"@,
        }
    }

    /// The tree as text: its root digest in lowercase hexadecimal.
    pub fn to_string(&self) -> (text: String)
        ensures
            text@ == Self::display_text(self@),
    {
        match &self.root {
            Some(node) => {
                proof {
                    node.shape_digest();
                }
                let mut text = String::from_str("MerkleTree { root: ");
                let digits = hex_text(node.hash.as_slice());
                text.append(digits.as_str());
                text.append(" }");
                text
            },
            None => String::from_str("MerkleTree { root: None }"),
        }
    }
}

} // verus!
