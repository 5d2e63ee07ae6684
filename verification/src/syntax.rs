//! Concrete syntax trees as plain values.
//!
//! A [`SyntaxNode`] holds what the extraction reads of a node of the parsed
//! source: its grammar category, the byte range it spans, whether the grammar
//! names it, and its children in source order.

use vstd::prelude::*;
use crate::grammar::{label_of, reads_children};
use crate::text::{can_slice, resolves};

verus! {

/// One node of a concrete syntax tree.
#[derive(Debug, PartialEq, Eq)]
pub struct SyntaxNode {
    /// Grammar category label, such as `class_declaration`.
    pub kind: String,
    /// Offset of the first byte of the node in the source text.
    pub start_byte: usize,
    /// Offset just past the last byte of the node in the source text.
    pub end_byte: usize,
    /// Whether the node stands for a named rule of the grammar, as opposed to
    /// a literal token such as `;`.
    pub named: bool,
    /// The children of the node, in source order.
    pub children: Vec<SyntaxNode>,
}

/// The mathematical tree that a [`SyntaxNode`] stands for.
pub struct Syntax {
    pub kind: Seq<char>,
    pub start: int,
    pub end: int,
    pub named: bool,
    pub children: Seq<Syntax>,
}

impl Syntax {
    /// Every node of the tree spans a whole number of characters of `text`.
    pub open spec fn fits(self, text: Seq<char>) -> bool
        decreases self,
    {
        &&& resolves(text, self.start, self.end)
        &&& forall|i: int|
            0 <= i < self.children.len() ==> (#[trigger] self.children[i]).fits(text)
    }
}

/// The skeletons of a run of trees, in the same order.
pub open spec fn skeletons(trees: Seq<Syntax>) -> Seq<Syntax>
    decreases trees, 0int,
{
    if trees.len() == 0 {
        Seq::empty()
    } else {
        skeletons(trees.drop_last()).push(skeleton(trees.last()))
    }
}

/// The skeleton of a tree: the tree without what lies below the nodes whose
/// children the extraction never reads. Every node that is left keeps its
/// category, its byte range and its place.
pub open spec fn skeleton(tree: Syntax) -> Syntax
    decreases tree, 1int,
{
    Syntax {
        children: if reads_children(label_of(tree.kind)) {
            skeletons(tree.children)
        } else {
            Seq::empty()
        },
        ..tree
    }
}

/// `skeletons` works tree by tree.
pub proof fn lemma_skeletons(trees: Seq<Syntax>)
    ensures
        skeletons(trees).len() == trees.len(),
        forall|i: int| 0 <= i < trees.len() ==> (#[trigger] skeletons(trees)[i]) == skeleton(trees[i]),
    decreases trees.len(),
{
    if trees.len() > 0 {
        lemma_skeletons(trees.drop_last());
    }
}

/// The mathematical trees that a run of nodes stands for, in the same order.
pub open spec fn views(nodes: Seq<SyntaxNode>) -> Seq<Syntax>
    decreases nodes, 0int,
{
    if nodes.len() == 0 {
        Seq::empty()
    } else {
        views(nodes.drop_last()).push(tree_of(nodes.last()))
    }
}

/// The mathematical tree that `node` stands for.
pub open spec fn tree_of(node: SyntaxNode) -> Syntax
    decreases node, 1int,
{
    Syntax {
        kind: node.kind@,
        start: node.start_byte as int,
        end: node.end_byte as int,
        named: node.named,
        children: views(node.children@),
    }
}

impl View for SyntaxNode {
    type V = Syntax;

    open spec fn view(&self) -> Syntax {
        tree_of(*self)
    }
}

/// `views` works node by node.
pub proof fn lemma_views(nodes: Seq<SyntaxNode>)
    ensures
        views(nodes).len() == nodes.len(),
        forall|i: int| 0 <= i < nodes.len() ==> (#[trigger] views(nodes)[i]) == nodes[i]@,
    decreases nodes.len(),
{
    if nodes.len() > 0 {
        lemma_views(nodes.drop_last());
    }
}

impl SyntaxNode {
    /// The children of the view are the views of the children, in order.
    pub open spec fn children_agree(&self) -> bool {
        &&& self@.children.len() == self.children@.len()
        &&& forall|k: int|
            0 <= k < self.children@.len() ==> (#[trigger] self@.children[k])
                == self.children@[k]@
    }

    /// The children of the view are the views of the children.
    pub proof fn lemma_children_agree(&self)
        ensures
            self.children_agree(),
    {
        lemma_views(self.children@);
    }

    /// Whether every node of this tree spans a whole number of characters of
    /// `text`.
    pub fn fits(&self, text: &str) -> (r: bool)
        ensures
            r == self@.fits(text@),
        decreases self,
    {
        if !can_slice(text, self.start_byte, self.end_byte) {
            return false;
        }
        proof {
            self.lemma_children_agree();
        }
        let mut i: usize = 0;
        while i < self.children.len()
            invariant
                i <= self.children@.len(),
                self.children_agree(),
                forall|k: int| 0 <= k < i ==> (#[trigger] self@.children[k]).fits(text@),
            decreases self.children@.len() - i,
        {
            if !self.children[i].fits(text) {
                assert(!self@.children[i as int].fits(text@));
                return false;
            }
            i += 1;
        }
        true
    }
}

} // verus!
