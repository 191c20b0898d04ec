//! The syntax tree that the formatter reads.

use vstd::prelude::*;
use vstd::slice::slice_subrange;
use vstd::utf8::*;
use crate::text::decode;

verus! {

/// A syntax tree as a mathematical value: the kind and the byte range of
/// a node, and the trees of its children, in order and to any depth.
pub struct Shape {
    pub kind: Seq<char>,
    pub start_byte: int,
    pub end_byte: int,
    pub children: Seq<Shape>,
}

impl Shape {
    /// The byte range of the root lies within `source`.
    pub open spec fn in_bounds(self, source: Seq<u8>) -> bool {
        0 <= self.start_byte <= self.end_byte <= source.len()
    }

    /// The bytes of `source` that the root covers.
    pub open spec fn bytes(self, source: Seq<u8>) -> Seq<u8> {
        source.subrange(self.start_byte, self.end_byte)
    }

    /// The text of the root can be read from `source`.
    pub open spec fn readable(self, source: Seq<u8>) -> bool {
        self.in_bounds(source) && valid_utf8(self.bytes(source))
    }

    /// The text of the root: the characters that its bytes encode.
    pub open spec fn text(self, source: Seq<u8>) -> Seq<char> {
        decode_utf8(self.bytes(source))
    }
}

/// One node of a concrete syntax tree.
///
/// A node does not own its text: it names a byte range of the source
/// buffer that the tree was parsed from.
#[derive(Debug, PartialEq, Eq)]
pub struct SyntaxNode {
    /// The tag of the grammar production, such as `statement` or `expression`.
    pub kind: String,
    /// Offset of the first byte of the node's text.
    pub start_byte: usize,
    /// Offset one past the last byte of the node's text.
    pub end_byte: usize,
    /// The child nodes, in source order.
    pub children: Vec<SyntaxNode>,
}

impl SyntaxNode {
    /// The node's byte range lies within `source`.
    pub open spec fn in_bounds(&self, source: Seq<u8>) -> bool {
        self.start_byte <= self.end_byte <= source.len()
    }

    /// The bytes of `source` that the node covers.
    pub open spec fn bytes(&self, source: Seq<u8>) -> Seq<u8> {
        source.subrange(self.start_byte as int, self.end_byte as int)
    }

    /// The node's text can be read from `source`: its range lies within the
    /// buffer and covers well-formed UTF-8.
    pub open spec fn readable(&self, source: Seq<u8>) -> bool {
        self.in_bounds(source) && valid_utf8(self.bytes(source))
    }

    /// The node's text: the characters that its bytes encode.
    pub open spec fn spec_text(&self, source: Seq<u8>) -> Seq<char> {
        decode_utf8(self.bytes(source))
    }

    /// The node is a copy of `shape` down to `depth` levels: it has the
    /// kind and the range of the root of `shape`, its children are such
    /// copies of the children of `shape` down to one level less, and at
    /// depth zero it has no children.
    pub open spec fn mirrors(&self, shape: Shape, depth: nat) -> bool
        decreases depth,
    {
        &&& self.kind@ == shape.kind
        &&& self.start_byte == shape.start_byte
        &&& self.end_byte == shape.end_byte
        &&& if depth == 0 {
            self.children@.len() == 0
        } else {
            &&& self.children@.len() == shape.children.len()
            &&& forall|i: int|
                0 <= i < self.children@.len() ==> (#[trigger] self.children@[i]).mirrors(
                    shape.children[i],
                    (depth - 1) as nat,
                )
        }
    }

    /// The node has nothing below it deeper than `depth` levels.
    pub open spec fn shallow(&self, depth: nat) -> bool
        decreases depth,
    {
        if depth == 0 {
            self.children@.len() == 0
        } else {
            forall|i: int|
                0 <= i < self.children@.len() ==> (#[trigger] self.children@[i]).shallow(
                    (depth - 1) as nat,
                )
        }
    }

    /// The node's text, sliced from `source` as it stands; `None` when the
    /// range does not fit the buffer or does not decode.
    pub fn text<'a>(&self, source: &'a [u8]) -> (text: Option<&'a str>)
        ensures
            text is Some <==> self.readable(source@),
            text matches Some(s) ==> s@ == self.spec_text(source@),
    {
        if self.start_byte <= self.end_byte && self.end_byte <= source.len() {
            decode(slice_subrange(source, self.start_byte, self.end_byte))
        } else {
            None
        }
    }
}

} // verus!
