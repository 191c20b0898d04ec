//! The layout engine: what the formatted text is, and the code that
//! produces it.

use vstd::prelude::*;
use vstd::string::*;
use crate::error::FormatError;
use crate::indent::{delta, indent, outdent, push_indent, IndentState};
use crate::keyword::{keyword_of, Keyword, Role};
use crate::node::SyntaxNode;
use crate::text::str_eq;

verus! {

/// What the layout reads of one sibling: its kind, its exact text and the
/// block keyword that it was classified as.
pub struct Item {
    pub kind: Seq<char>,
    pub text: Seq<char>,
    pub keyword: Option<Keyword>,
}

impl Item {
    /// The sibling opens a block.
    pub open spec fn is_opener(self) -> bool {
        self.keyword matches Some(k) && k.role() == Role::Opener
    }

    /// The sibling is a branch within a block.
    pub open spec fn is_mid(self) -> bool {
        self.keyword matches Some(k) && k.role() == Role::Mid
    }

    /// The sibling closes a block.
    pub open spec fn is_closer(self) -> bool {
        self.keyword matches Some(k) && k.role() == Role::Closer
    }

    /// The sibling is of expression kind.
    pub open spec fn is_expression(self) -> bool {
        self.kind == "expression"@
    }

    /// The change that the sibling makes to the level of those after it.
    pub open spec fn delta(self) -> int {
        delta(self.keyword)
    }

    /// How far the sibling itself is pulled back from the level in force
    /// when it is reached.
    pub open spec fn outdent(self) -> int {
        outdent(self.keyword)
    }
}

/// The keyword that a node is classified as: that of its second child's
/// text if the node is a statement, none otherwise.
pub open spec fn classify(node: SyntaxNode, source: Seq<u8>) -> Option<Keyword> {
    if node.kind@ == "statement"@ && node.children@.len() > 1 {
        keyword_of(node.children@[1].spec_text(source))
    } else {
        None
    }
}

/// A node whose classification and text can be read from `source`: its own
/// text is readable and, if it is a statement, it has a second child whose
/// text is readable.
pub open spec fn legible(node: SyntaxNode, source: Seq<u8>) -> bool {
    &&& node.readable(source)
    &&& node.kind@ == "statement"@ ==> node.children@.len() > 1 && node.children@[1].readable(
        source,
    )
}

/// What the layout reads of `node`.
pub open spec fn item_of(node: SyntaxNode, source: Seq<u8>) -> Item {
    Item { kind: node.kind@, text: node.spec_text(source), keyword: classify(node, source) }
}

/// What the layout reads of the direct children of `root`, in order.
pub open spec fn items_of(root: SyntaxNode, source: Seq<u8>) -> Seq<Item> {
    Seq::new(root.children@.len(), |i: int| item_of(root.children@[i], source))
}

/// The indentation level in force when sibling `k` is reached: the number
/// of openers before it minus the number of closers before it.
pub open spec fn pending(items: Seq<Item>, k: int) -> int
    decreases k,
{
    if k <= 0 {
        0
    } else {
        pending(items, k - 1) + items[k - 1].delta()
    }
}

/// The indentation level at which sibling `k` is emitted.
pub open spec fn level_at(items: Seq<Item>, k: int) -> int {
    pending(items, k) - items[k].outdent()
}

/// No sibling is emitted below level zero.
pub open spec fn steady(items: Seq<Item>) -> bool {
    forall|k: int| 0 <= k < items.len() ==> level_at(items, k) >= 0
}

/// Sibling `k` continues the line of the sibling before it: both are of
/// expression kind.
pub open spec fn joins(items: Seq<Item>, k: int) -> bool {
    k > 0 && items[k].is_expression() && items[k - 1].is_expression()
}

/// What is written before the text of sibling `k`: nothing if it joins the
/// previous line, else a line break and the indentation of its level.
pub open spec fn separator(items: Seq<Item>, k: int) -> Seq<char> {
    if joins(items, k) {
        Seq::empty()
    } else {
        seq!['\n'] + indent(level_at(items, k))
    }
}

/// The output buffer after the first `n` siblings.
pub open spec fn buffer(items: Seq<Item>, n: int) -> Seq<char>
    decreases n,
{
    if n <= 0 {
        Seq::empty()
    } else {
        buffer(items, n - 1) + separator(items, n - 1) + items[n - 1].text
    }
}

/// The formatted text: the buffer after all siblings, without its leading
/// line break and with one line break at the end.
pub open spec fn layout(items: Seq<Item>) -> Seq<char> {
    buffer(items, items.len() as int).drop_first() + seq!['\n']
}

/// A root that can be formatted against `source`: it has a child, every
/// child is legible, and no child would be emitted below level zero.
pub open spec fn formattable(root: SyntaxNode, source: Seq<u8>) -> bool {
    &&& root.children@.len() > 0
    &&& forall|i: int| 0 <= i < root.children@.len() ==> legible(#[trigger] root.children@[i], source)
    &&& steady(items_of(root, source))
}

/// Classifies one node: the block keyword that a statement node leads
/// with, `None` for every other node and for every other statement.
pub fn peek_jinja_stmt_keyword(node: &SyntaxNode, source: &[u8]) -> (keyword: Option<Keyword>)
    requires
        node.kind@ == "statement"@ ==> node.children@.len() > 1 && node.children@[1].readable(
            source@,
        ),
    ensures
        keyword == classify(*node, source@),
{
    if !str_eq(node.kind.as_str(), "statement") {
        return None;
    }
    Keyword::from_text(node.children[1].text(source).unwrap())
}

/// Whether the classification and the text of `node` can be read from
/// `source`.
pub fn is_legible(node: &SyntaxNode, source: &[u8]) -> (ok: bool)
    ensures
        ok == legible(*node, source@),
{
    if node.text(source).is_none() {
        return false;
    }
    if str_eq(node.kind.as_str(), "statement") {
        node.children.len() > 1 && node.children[1].text(source).is_some()
    } else {
        true
    }
}

/// Whether `root` can be formatted against `source`.
pub fn is_formattable(root: &SyntaxNode, source: &[u8]) -> (ok: bool)
    ensures
        ok == formattable(*root, source@),
{
    let ghost items = items_of(*root, source@);
    let count = root.children.len();
    if count == 0 {
        return false;
    }
    let mut state = IndentState::new();
    let mut i: usize = 0;
    while i < count
        invariant
            i <= count,
            count == root.children@.len(),
            items == items_of(*root, source@),
            state.settled(),
            state.pending == pending(items, i as int),
            forall|j: int| 0 <= j < i ==> legible(#[trigger] root.children@[j], source@),
            forall|j: int| 0 <= j < i ==> level_at(items, j) >= 0,
        decreases count - i,
    {
        let node = &root.children[i];
        if !is_legible(node, source) {
            assert(!legible(root.children@[i as int], source@));
            return false;
        }
        proof {
            assert(items[i as int] == item_of(*node, source@));
            lemma_pending_bound(items, i as int);
        }
        let keyword = peek_jinja_stmt_keyword(node, source);
        if !state.can_enter(keyword) {
            assert(level_at(items, i as int) < 0);
            return false;
        }
        state = state.enter(keyword).leave();
        assert(level_at(items, i as int) >= 0);
        i += 1;
    }
    true
}

/// The buffer after one more sibling.
proof fn lemma_buffer_step(items: Seq<Item>, n: int)
    requires
        0 <= n,
    ensures
        buffer(items, n + 1) == buffer(items, n) + separator(items, n) + items[n].text,
{
}

/// Once a sibling has been written, the buffer begins with a line break.
proof fn lemma_buffer_head(items: Seq<Item>, n: int)
    requires
        1 <= n,
    ensures
        buffer(items, n).len() > 0,
        buffer(items, n)[0] == '\n',
    decreases n,
{
    if n == 1 {
        assert(buffer(items, 0) =~= Seq::<char>::empty());
        assert(!joins(items, 0));
    } else {
        lemma_buffer_head(items, n - 1);
    }
}

/// The level in force never exceeds the number of siblings passed.
proof fn lemma_pending_bound(items: Seq<Item>, k: int)
    requires
        0 <= k,
    ensures
        -k <= pending(items, k) <= k,
    decreases k,
{
    if k > 0 {
        lemma_pending_bound(items, k - 1);
    }
}

/// Re-emits the direct children of `root` with indentation that follows the
/// block keywords among them.
///
/// Each child is written with its exact source text. A child starts a new
/// line, indented by its level, unless it and the child before it are both
/// expressions. The result has no leading line break and ends with one.
pub fn format_jinja_node(root: &SyntaxNode, source: &[u8]) -> (formatted: String)
    requires
        formattable(*root, source@),
    ensures
        formatted@ == layout(items_of(*root, source@)),
{
    let ghost items = items_of(*root, source@);
    let mut formatted = String::new();
    let mut state = IndentState::new();
    let mut last_is_expression = false;
    let count = root.children.len();
    let mut i: usize = 0;
    while i < count
        invariant
            i <= count,
            count == root.children@.len(),
            formattable(*root, source@),
            items == items_of(*root, source@),
            state.settled(),
            state.pending == pending(items, i as int),
            last_is_expression == (i > 0 && items[i - 1].is_expression()),
            i == 0 ==> formatted@ == Seq::<char>::empty(),
            i > 0 ==> formatted@ == buffer(items, i as int).drop_first(),
        decreases count - i,
    {
        let node = &root.children[i];
        proof {
            assert(legible(root.children@[i as int], source@));
            assert(items[i as int] == item_of(*node, source@));
            assert(level_at(items, i as int) >= 0);
            lemma_pending_bound(items, i as int);
            lemma_buffer_step(items, i as int);
        }
        let keyword = peek_jinja_stmt_keyword(node, source);
        state = state.enter(keyword);
        assert(state.current == level_at(items, i as int));
        assert(state.pending == pending(items, i + 1));
        let is_expression = str_eq(node.kind.as_str(), "expression");
        if !(is_expression && last_is_expression) {
            // The line break before the first child is never written.
            if i > 0 {
                proof {
                    reveal_strlit("\n");
                }
                formatted.append("\n");
            }
            push_indent(&mut formatted, state.current);
        }
        formatted.append(node.text(source).unwrap());
        proof {
            let piece = separator(items, i as int) + items[i as int].text;
            if i == 0 {
                assert(indent(0) =~= Seq::<char>::empty());
                assert(formatted@ =~= piece.drop_first());
            } else {
                lemma_buffer_head(items, i as int);
                assert(formatted@ =~= buffer(items, i as int).drop_first() + piece);
            }
            assert(formatted@ =~= buffer(items, i + 1).drop_first());
        }
        last_is_expression = is_expression;
        state = state.leave();
        i += 1;
    }
    proof {
        reveal_strlit("\n");
    }
    formatted.append("\n");
    formatted
}

/// Formats the children of `root` if that can be done, and says so if not.
pub fn try_format_jinja_node(root: &SyntaxNode, source: &[u8]) -> (formatted: Result<
    String,
    FormatError,
>)
    ensures
        formattable(*root, source@) ==> formatted is Ok && formatted->Ok_0@ == layout(
            items_of(*root, source@),
        ),
        !formattable(*root, source@) ==> formatted == Err::<String, FormatError>(
            FormatError::Unformattable,
        ),
{
    if is_formattable(root, source) {
        Ok(format_jinja_node(root, source))
    } else {
        Err(FormatError::Unformattable)
    }
}

} // verus!
