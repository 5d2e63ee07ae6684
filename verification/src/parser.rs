//! Syntax trees from source text, by the tree-sitter grammar of Java.
//!
//! The parser and its trees are not verified. This module states what is
//! taken on trust of them, and lowers a parsed tree, with proof, into a
//! [`SyntaxNode`] that holds its skeleton: the nodes that the extraction
//! reads. What lies deeper, such as the bodies of methods, stays behind, so
//! the depth of the lowered tree is that of the nesting of classes.

use vstd::prelude::*;
use vstd::string::*;
use vstd::utf8::encode_utf8;
use crate::grammar::{classify, looks_below};
use crate::syntax::{skeleton, skeletons, views, Syntax, SyntaxNode};

verus! {

/// `tree_sitter::Tree`, a parsed tree, as an opaque value.
#[verifier::external_type_specification]
#[verifier::external_body]
pub struct ExTree(tree_sitter::Tree);

/// `tree_sitter::Node`, one node of a parsed tree, as an opaque value.
#[verifier::external_type_specification]
#[verifier::external_body]
pub struct ExNode<'tree>(tree_sitter::Node<'tree>);

/// The tree that the Java grammar makes of a source text, or `None` where
/// the parser gives no tree.
pub uninterp spec fn java_syntax(text: Seq<char>) -> Option<Syntax>;

/// The nodes that a parsed tree holds, from its root down.
pub uninterp spec fn tree_syntax(tree: tree_sitter::Tree) -> Syntax;

/// The nodes that lie at and below a node of a parsed tree.
pub uninterp spec fn node_syntax(node: tree_sitter::Node) -> Syntax;

/// `Parser::new`, `Parser::set_language` with the grammar of
/// `tree_sitter_java::language`, and `Parser::parse` without an earlier
/// tree: a fresh parser for Java, run once over `text`. The tree depends on
/// the text alone; no tree comes back where the grammar does not suit the
/// parser. The parser counts bytes in 32 bits, so longer texts are left out.
#[verifier::external_body]
fn parse_java(text: &str) -> (tree: Option<tree_sitter::Tree>)
    requires
        text.spec_bytes().len() <= u32::MAX,
    ensures
        match tree {
            Some(t) => java_syntax(text@) == Some(tree_syntax(t)),
            None => java_syntax(text@) is None,
        },
{
    let mut parser = tree_sitter::Parser::new();
    match parser.set_language(tree_sitter_java::language()) {
        Ok(()) => parser.parse(text, None),
        Err(_) => None,
    }
}

/// `Tree::root_node`: the node that stands for the whole tree.
pub assume_specification<'tree>[ tree_sitter::Tree::root_node ](
    tree: &'tree tree_sitter::Tree,
) -> (root: tree_sitter::Node<'tree>)
    ensures
        node_syntax(root) == tree_syntax(*tree),
;

/// `Node::kind`: the grammar category label of the node.
pub assume_specification<'tree>[ tree_sitter::Node::<'tree>::kind ](
    node: &tree_sitter::Node<'tree>,
) -> (kind: &'static str)
    ensures
        kind@ == node_syntax(*node).kind,
;

/// `Node::is_named`: whether the node stands for a named rule.
pub assume_specification<'tree>[ tree_sitter::Node::<'tree>::is_named ](
    node: &tree_sitter::Node<'tree>,
) -> (named: bool)
    ensures
        named == node_syntax(*node).named,
;

/// `Node::start_byte`: where the node starts in the source.
pub assume_specification<'tree>[ tree_sitter::Node::<'tree>::start_byte ](
    node: &tree_sitter::Node<'tree>,
) -> (offset: usize)
    ensures
        offset == node_syntax(*node).start,
;

/// `Node::end_byte`: where the node ends in the source.
pub assume_specification<'tree>[ tree_sitter::Node::<'tree>::end_byte ](
    node: &tree_sitter::Node<'tree>,
) -> (offset: usize)
    ensures
        offset == node_syntax(*node).end,
;

/// `Node::children` over a cursor of `Node::walk`: the children of the
/// node, all of them, in source order.
#[verifier::external_body]
fn children_of<'tree>(node: &tree_sitter::Node<'tree>) -> (children: Vec<tree_sitter::Node<'tree>>)
    ensures
        children@.len() == node_syntax(*node).children.len(),
        forall|i: int|
            0 <= i < children@.len() ==> node_syntax(#[trigger] children@[i]) == node_syntax(
                *node,
            ).children[i],
{
    node.children(&mut node.walk()).collect()
}

/// The skeleton of the tree at `node`, as plain values.
fn lower(node: &tree_sitter::Node) -> (tree: SyntaxNode)
    ensures
        tree@ == skeleton(node_syntax(*node)),
    decreases node_syntax(*node),
{
    let kind = node.kind();
    let mut children: Vec<SyntaxNode> = Vec::new();
    if looks_below(classify(kind)) {
        let parsed = children_of(node);
        let ghost below = node_syntax(*node).children;
        let mut i: usize = 0;
        while i < parsed.len()
            invariant
                i <= parsed@.len(),
                below == node_syntax(*node).children,
                parsed@.len() == below.len(),
                forall|k: int|
                    0 <= k < parsed@.len() ==> node_syntax(#[trigger] parsed@[k]) == below[k],
                views(children@) == skeletons(below.take(i as int)),
            decreases parsed@.len() - i,
        {
            let lowered = lower(&parsed[i]);
            proof {
                assert(children@.push(lowered).drop_last() == children@);
                assert(below.take(i + 1).drop_last() == below.take(i as int));
            }
            children.push(lowered);
            i += 1;
        }
        proof {
            assert(below.take(parsed@.len() as int) == below);
        }
    }
    SyntaxNode {
        kind: kind.to_owned(),
        start_byte: node.start_byte(),
        end_byte: node.end_byte(),
        named: node.is_named(),
        children,
    }
}

/// Why a source text has no syntax tree to extract from.
#[derive(Debug, Clone, Copy, PartialEq, Eq)]
pub enum SourceError {
    /// The text is longer than the parser can address.
    TooLong,
    /// The parser gave no tree.
    NoTree,
    /// A node of the tree spans bytes that are no run of characters of the
    /// text.
    OutOfText,
}

/// What [`syntax_tree`] returns for a source text: the skeleton of the tree
/// that the Java grammar makes of it, if the skeleton fits the text.
pub open spec fn syntax_tree_of(text: Seq<char>) -> Result<Syntax, SourceError> {
    if encode_utf8(text).len() > u32::MAX {
        Err(SourceError::TooLong)
    } else {
        match java_syntax(text) {
            None => Err(SourceError::NoTree),
            Some(tree) => if skeleton(tree).fits(text) {
                Ok(skeleton(tree))
            } else {
                Err(SourceError::OutOfText)
            },
        }
    }
}

/// The syntax tree of a Java source text, as far as the extraction reads
/// it.
///
/// A tree that comes back fits the text: every byte range in it can be
/// resolved to a substring.
pub fn syntax_tree(text: &str) -> (result: Result<SyntaxNode, SourceError>)
    ensures
        match result {
            Ok(tree) => syntax_tree_of(text@) == Ok::<Syntax, SourceError>(tree@),
            Err(error) => syntax_tree_of(text@) == Err::<Syntax, SourceError>(error),
        },
        result matches Ok(tree) ==> tree@.fits(text@),
{
    if text.as_bytes().len() > u32::MAX as usize {
        return Err(SourceError::TooLong);
    }
    match parse_java(text) {
        None => Err(SourceError::NoTree),
        Some(parsed) => {
            let root = parsed.root_node();
            let tree = lower(&root);
            if tree.fits(text) {
                Ok(tree)
            } else {
                Err(SourceError::OutOfText)
            }
        },
    }
}

} // verus!
