//! From template text to formatted text: parsing with tree-sitter, then
//! the layout of what was parsed.

use vstd::prelude::*;
use vstd::string::*;
use crate::cst::{jinja_parse, node_shape, parse_text};
use crate::error::FormatError;
use crate::keyword::{keyword_of, Keyword};
use crate::layout::{
    classify, formattable, item_of, items_of, layout, legible, steady, try_format_jinja_node, Item,
};
use crate::node::{Shape, SyntaxNode};

verus! {

/// How far below the root the formatter reads: the root's children, and
/// of each of them the children.
pub const DEPTH: u32 = 2;

/// The keyword that the root of `shape` is classified as.
pub open spec fn shape_keyword(shape: Shape, source: Seq<u8>) -> Option<Keyword> {
    if shape.kind == "statement"@ && shape.children.len() > 1 {
        keyword_of(shape.children[1].text(source))
    } else {
        None
    }
}

/// The classification and the text of the root of `shape` can be read
/// from `source`.
pub open spec fn shape_legible(shape: Shape, source: Seq<u8>) -> bool {
    &&& shape.readable(source)
    &&& shape.kind == "statement"@ ==> shape.children.len() > 1 && shape.children[1].readable(
        source,
    )
}

/// What the layout reads of the children of the root of `shape`, in
/// order.
pub open spec fn shape_items(shape: Shape, source: Seq<u8>) -> Seq<Item> {
    Seq::new(
        shape.children.len(),
        |i: int|
            Item {
                kind: shape.children[i].kind,
                text: shape.children[i].text(source),
                keyword: shape_keyword(shape.children[i], source),
            },
    )
}

/// A tree that can be formatted against `source`: its root has a child,
/// every child is legible, and no child would be emitted below level
/// zero.
pub open spec fn shape_formattable(shape: Shape, source: Seq<u8>) -> bool {
    &&& shape.children.len() > 0
    &&& forall|i: int|
        0 <= i < shape.children.len() ==> shape_legible(#[trigger] shape.children[i], source)
    &&& steady(shape_items(shape, source))
}

/// A copy of a tree down to the depth that the formatter reads is
/// formatted as the tree itself would be: the layout reads the same of
/// both, and one can be formatted exactly if the other can.
pub proof fn lemma_copy_reads_as_tree(root: SyntaxNode, shape: Shape, source: Seq<u8>)
    requires
        root.mirrors(shape, DEPTH as nat),
    ensures
        items_of(root, source) == shape_items(shape, source),
        formattable(root, source) <==> shape_formattable(shape, source),
{
    reveal_with_fuel(SyntaxNode::mirrors, 3);
    assert forall|i: int| 0 <= i < root.children@.len() implies {
        &&& item_of(#[trigger] root.children@[i], source) == shape_items(shape, source)[i]
        &&& legible(root.children@[i], source) == shape_legible(shape.children[i], source)
    } by {
        let child = root.children@[i];
        let below = shape.children[i];
        assert(child.mirrors(below, 1));
        assert(child.bytes(source) == below.bytes(source));
        if child.children@.len() > 1 {
            assert(child.children@[1].mirrors(below.children[1], 0));
            assert(child.children@[1].bytes(source) == below.children[1].bytes(source));
        }
        assert(classify(child, source) == shape_keyword(below, source));
    }
    assert(items_of(root, source) =~= shape_items(shape, source));
    if formattable(root, source) {
        assert forall|i: int| 0 <= i < shape.children.len() implies shape_legible(
            #[trigger] shape.children[i],
            source,
        ) by {
            assert(legible(root.children@[i], source));
        }
    }
    if shape_formattable(shape, source) {
        assert forall|i: int| 0 <= i < root.children@.len() implies legible(
            #[trigger] root.children@[i],
            source,
        ) by {
            assert(shape_legible(shape.children[i], source));
        }
    }
}

/// Copies `node`, and what lies at most `depth` levels below it, out of a
/// tree-sitter tree.
fn lift(node: &tree_sitter::Node, depth: u32) -> (copy: SyntaxNode)
    ensures
        copy.mirrors(node_shape(*node), depth as nat),
        copy.shallow(depth as nat),
    decreases depth,
{
    let ghost shape = node_shape(*node);
    let mut children: Vec<SyntaxNode> = Vec::new();
    if depth > 0 {
        let count = node.child_count();
        let mut i: u32 = 0;
        while i < count
            invariant
                depth > 0,
                shape == node_shape(*node),
                count == shape.children.len(),
                i <= count,
                children@.len() == i,
                forall|j: int|
                    0 <= j < children@.len() ==> (#[trigger] children@[j]).mirrors(
                        shape.children[j],
                        (depth - 1) as nat,
                    ),
                forall|j: int|
                    0 <= j < children@.len() ==> (#[trigger] children@[j]).shallow(
                        (depth - 1) as nat,
                    ),
            decreases count - i,
        {
            let child = node.child(i).unwrap();
            children.push(lift(&child, depth - 1));
            i += 1;
        }
    }
    SyntaxNode {
        kind: node.kind().to_owned(),
        start_byte: node.start_byte(),
        end_byte: node.end_byte(),
        children,
    }
}

/// Parses `source` as a Jinja template and returns the root of its syntax
/// tree, with the part of the tree that the formatter reads.
///
/// Where the parser gives a tree, the result is its copy down to `DEPTH`
/// levels. Where it gives none, the error says why.
pub fn parse_jinja(source: &str) -> (parsed: Result<SyntaxNode, FormatError>)
    ensures
        match jinja_parse(source@) {
            Ok(shape) => parsed matches Ok(root) && root.mirrors(shape, DEPTH as nat),
            Err(error) => parsed matches Err(e) && e == error,
        },
        parsed matches Ok(root) ==> root.shallow(DEPTH as nat),
{
    match parse_text(source) {
        Ok(Some(tree)) => {
            let root = tree.root_node();
            Ok(lift(&root, DEPTH))
        },
        Ok(None) => Err(FormatError::Parse),
        Err(_) => Err(FormatError::Language),
    }
}

/// Parses `source` as a Jinja template and formats it.
///
/// Where the parser gives a tree that can be formatted against `source`,
/// the result is the layout of its root's children; where the tree cannot
/// be formatted, the error is `Unformattable`. Where the parser gives no
/// tree, the error says why.
pub fn format_template(source: &str) -> (formatted: Result<String, FormatError>)
    ensures
        match jinja_parse(source@) {
            Ok(shape) => if shape_formattable(shape, source.spec_bytes()) {
                formatted matches Ok(text) && text@ == layout(
                    shape_items(shape, source.spec_bytes()),
                )
            } else {
                formatted matches Err(e) && e == FormatError::Unformattable
            },
            Err(error) => formatted matches Err(e) && e == error,
        },
{
    match parse_jinja(source) {
        Ok(root) => {
            proof {
                lemma_copy_reads_as_tree(
                    root,
                    jinja_parse(source@)->Ok_0,
                    source.spec_bytes(),
                );
            }
            try_format_jinja_node(&root, source.as_bytes())
        },
        Err(error) => Err(error),
    }
}

} // verus!
