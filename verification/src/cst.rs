//! The boundary to tree-sitter: the types and calls that the library
//! takes on trust.
//!
//! What a tree holds is not stated here: it is given a name, `tree_shape`
//! for a tree and `node_shape` for a node, and the calls are said to agree
//! with that name. The verified code that formats a tree checks what it
//! has read from it before it relies on it.

use vstd::prelude::*;
use crate::error::FormatError;
use crate::node::Shape;

verus! {

/// `tree_sitter::LanguageError`, opaque to the verifier.
#[verifier::external_type_specification]
#[verifier::external_body]
pub struct ExLanguageError(tree_sitter::LanguageError);

/// `tree_sitter::Tree`, opaque to the verifier.
#[verifier::external_type_specification]
#[verifier::external_body]
pub struct ExTree(tree_sitter::Tree);

/// `tree_sitter::Node`, opaque to the verifier.
#[verifier::external_type_specification]
#[verifier::external_body]
pub struct ExNode<'tree>(tree_sitter::Node<'tree>);

/// What a tree holds: the shape of its root.
pub uninterp spec fn tree_shape(tree: tree_sitter::Tree) -> Shape;

/// What a node holds: its kind, its byte range, and the shapes of its
/// children in the order of their indices.
pub uninterp spec fn node_shape(node: tree_sitter::Node) -> Shape;

/// The outcome of parsing `source` with a new parser that is set to the
/// Jinja grammar of `tree_sitter_jinja2`: the shape of the tree, or
/// `FormatError::Language` where the parser does not accept the grammar,
/// or `FormatError::Parse` where it returns no tree.
pub uninterp spec fn jinja_parse(source: Seq<char>) -> Result<Shape, FormatError>;

/// `Tree::root_node` returns the root of the tree: a node that holds what
/// the tree holds.
pub assume_specification<'a>[ tree_sitter::Tree::root_node ](tree: &'a tree_sitter::Tree) -> (root:
    tree_sitter::Node<'a>)
    ensures
        node_shape(root) == tree_shape(*tree),
;

/// `Node::kind` returns the node's type tag.
pub assume_specification<'tree>[ tree_sitter::Node::<'tree>::kind ](
    node: &tree_sitter::Node<'tree>,
) -> (kind: &'tree str)
    ensures
        kind@ == node_shape(*node).kind,
;

/// `Node::start_byte` returns the offset at which the node starts.
pub assume_specification<'tree>[ tree_sitter::Node::<'tree>::start_byte ](
    node: &tree_sitter::Node<'tree>,
) -> (offset: usize)
    ensures
        offset == node_shape(*node).start_byte,
;

/// `Node::end_byte` returns the offset at which the node ends.
pub assume_specification<'tree>[ tree_sitter::Node::<'tree>::end_byte ](
    node: &tree_sitter::Node<'tree>,
) -> (offset: usize)
    ensures
        offset == node_shape(*node).end_byte,
;

/// `Node::child_count` returns the number of the node's children.
pub assume_specification<'tree>[ tree_sitter::Node::<'tree>::child_count ](
    node: &tree_sitter::Node<'tree>,
) -> (count: u32)
    ensures
        count == node_shape(*node).children.len(),
;

/// `Node::child` returns the child at an index: for an index below the
/// number of children, the node that holds the shape at that index;
/// nothing is stated of an index beyond them.
pub assume_specification<'tree>[ tree_sitter::Node::<'tree>::child ](
    node: &tree_sitter::Node<'tree>,
    i: u32,
) -> (child: Option<tree_sitter::Node<'tree>>)
    ensures
        i < node_shape(*node).children.len() ==> child is Some,
        child matches Some(c) ==> (i < node_shape(*node).children.len() ==> node_shape(c)
            == node_shape(*node).children[i as int]),
;

/// The value of `jinja_parse` that an outcome of the parser stands for.
pub open spec fn parsed_as(
    outcome: Result<Option<tree_sitter::Tree>, tree_sitter::LanguageError>,
) -> Result<Shape, FormatError> {
    match outcome {
        Ok(Some(tree)) => Ok(tree_shape(tree)),
        Ok(None) => Err(FormatError::Parse),
        Err(_) => Err(FormatError::Language),
    }
}

/// Parses `source` from scratch with the Jinja grammar.
///
/// Trusted: makes a parser with `Parser::new`, sets it with
/// `Parser::set_language` to `tree_sitter_jinja2::LANGUAGE`, and calls
/// `Parser::parse` with no old tree. The outcome depends on `source`
/// alone; the contract gives it the name `jinja_parse` and says nothing
/// else of it.
#[verifier::external_body]
pub(crate) fn parse_text(source: &str) -> (outcome: Result<Option<tree_sitter::Tree>, tree_sitter::LanguageError>)
    ensures
        jinja_parse(source@) == parsed_as(outcome),
{
    let mut parser = tree_sitter::Parser::new();
    parser.set_language(&tree_sitter::Language::from(tree_sitter_jinja2::LANGUAGE))?;
    Ok(parser.parse(source, None))
}

} // verus!
