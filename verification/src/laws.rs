//! What holds of every layout.

use vstd::prelude::*;
use crate::indent::indent;
use crate::layout::{buffer, classify, items_of, layout, level_at, pending, steady, Item};
use crate::node::SyntaxNode;

verus! {

/// The concatenated texts of the siblings from `from` up to, not
/// including, `to`.
pub open spec fn texts(items: Seq<Item>, from: int, to: int) -> Seq<char>
    decreases to - from,
{
    if to <= from {
        Seq::empty()
    } else {
        texts(items, from, to - 1) + items[to - 1].text
    }
}

/// The number of blocks that are open around sibling `k`. An opener and
/// a closer stand outside the block that they delimit.
pub open spec fn nesting(items: Seq<Item>, k: int) -> int {
    if items[k].is_closer() {
        pending(items, k + 1)
    } else {
        pending(items, k)
    }
}

/// Sibling `i` opens a block and sibling `j` is the closer that matches it:
/// the level in force first returns to that before `i` after `j`.
pub open spec fn encloses(items: Seq<Item>, i: int, j: int) -> bool {
    &&& 0 <= i < j < items.len()
    &&& items[i].is_opener()
    &&& items[j].is_closer()
    &&& pending(items, j + 1) == pending(items, i)
    &&& forall|m: int| i < m <= j ==> pending(items, m) > pending(items, i)
}

/// Indentation follows the blocks. A sibling other than a branch is
/// emitted at the number of blocks open around it, a branch one level
/// less. Within a block, from opener `i` to its matching closer `j`, the
/// closer is emitted at the level of the opener; every sibling `k`
/// strictly between them lies inside at least that one block; and if `k`
/// lies inside no further block, it is emitted exactly one level deeper
/// than the opener, or at the opener's level if it is a branch.
pub proof fn lemma_block_indentation(items: Seq<Item>, i: int, j: int, k: int)
    requires
        encloses(items, i, j),
        i < k < j,
    ensures
        level_at(items, k) == nesting(items, k) - (if items[k].is_mid() { 1int } else { 0 }),
        level_at(items, j) == level_at(items, i),
        nesting(items, k) >= nesting(items, i) + 1,
        nesting(items, k) == nesting(items, i) + 1 && !items[k].is_mid() ==> level_at(items, k)
            == level_at(items, i) + 1,
        nesting(items, k) == nesting(items, i) + 1 && items[k].is_mid() ==> level_at(items, k)
            == level_at(items, i),
{
}

/// The level in force before sibling `m` does not depend on the siblings
/// from `m` on.
proof fn lemma_pending_prefix(a: Seq<Item>, b: Seq<Item>, m: int)
    requires
        0 <= m <= a.len(),
        m <= b.len(),
        forall|n: int| 0 <= n < m ==> a[n] == b[n],
    ensures
        pending(a, m) == pending(b, m),
    decreases m,
{
    if m > 0 {
        lemma_pending_prefix(a, b, m - 1);
    }
}

/// Taking out sibling `k`, which changes no level, leaves the level in
/// force before each later sibling as it was.
proof fn lemma_pending_without(items: Seq<Item>, k: int, m: int)
    requires
        0 <= k < items.len(),
        items[k].delta() == 0,
        k <= m < items.len(),
    ensures
        pending(items.remove(k), m) == pending(items, m + 1),
    decreases m,
{
    let rest = items.remove(k);
    if m == k {
        lemma_pending_prefix(rest, items, k);
    } else {
        lemma_pending_without(items, k, m - 1);
    }
}

/// A sibling that is not classified as a block keyword is transparent: it
/// is emitted at the level in force, leaves that level as it is, and every
/// other sibling is emitted at the level that it would have without it.
pub proof fn lemma_unclassified_is_transparent(items: Seq<Item>, k: int)
    requires
        0 <= k < items.len(),
        items[k].keyword is None,
    ensures
        level_at(items, k) == pending(items, k),
        pending(items, k + 1) == pending(items, k),
        forall|m: int| 0 <= m < k ==> level_at(items.remove(k), m) == level_at(items, m),
        forall|m: int|
            k <= m < items.len() - 1 ==> level_at(items.remove(k), m) == level_at(items, m + 1),
{
    let rest = items.remove(k);
    assert forall|m: int| 0 <= m < k implies level_at(rest, m) == level_at(items, m) by {
        lemma_pending_prefix(rest, items, m);
    }
    assert forall|m: int| k <= m < items.len() - 1 implies level_at(rest, m) == level_at(
        items,
        m + 1,
    ) by {
        lemma_pending_without(items, k, m);
    }
}

/// What has been written stays: the buffer after `n` siblings is the
/// beginning of the buffer after any later sibling, and so of the buffer
/// that the layout is cut from.
pub proof fn lemma_buffer_grows(items: Seq<Item>, n: int, m: int)
    requires
        0 <= n <= m,
    ensures
        buffer(items, n).len() <= buffer(items, m).len(),
        buffer(items, m).subrange(0, buffer(items, n).len() as int) == buffer(items, n),
    decreases m - n,
{
    if n < m {
        lemma_buffer_grows(items, n, m - 1);
        let prior = buffer(items, m - 1);
        assert(buffer(items, m).subrange(0, prior.len() as int) == prior);
    }
}

/// A run of expressions shares one line: after the first of the run, the
/// buffer grows by the texts of the others and by nothing else.
pub proof fn lemma_expressions_share_a_line(items: Seq<Item>, first: int, last: int)
    requires
        0 <= first <= last < items.len(),
        forall|k: int| first <= k <= last ==> (#[trigger] items[k]).is_expression(),
    ensures
        buffer(items, last + 1) == buffer(items, first + 1) + texts(items, first + 1, last + 1),
    decreases last - first,
{
    if first < last {
        lemma_expressions_share_a_line(items, first, last - 1);
    }
}

/// Where a sibling or the one before it is not an expression, the sibling
/// starts a new line: the buffer grows by a line break, the indentation of
/// the sibling's level, and its text.
pub proof fn lemma_other_siblings_break(items: Seq<Item>, k: int)
    requires
        0 <= k < items.len(),
        k == 0 || !items[k].is_expression() || !items[k - 1].is_expression(),
    ensures
        buffer(items, k + 1) == buffer(items, k) + seq!['\n'] + indent(level_at(items, k))
            + items[k].text,
{
}

/// The buffer after `n` siblings, the first being emitted at level zero, is
/// a line break followed by the first sibling's text and then the rest.
proof fn lemma_buffer_opening(items: Seq<Item>, n: int)
    requires
        1 <= n <= items.len(),
        level_at(items, 0) == 0,
    ensures
        buffer(items, n).len() >= 1 + items[0].text.len(),
        buffer(items, n)[0] == '\n',
        forall|p: int| 0 <= p < items[0].text.len() ==> buffer(items, n)[p + 1] == items[0].text[p],
    decreases n,
{
    if n == 1 {
        assert(buffer(items, 0) =~= Seq::<char>::empty());
    } else {
        lemma_buffer_opening(items, n - 1);
    }
}

/// The shape of every layout: it begins with the text of the first sibling
/// and ends with the text of the last one and a line break. So it does not
/// begin with a line break unless the first text is empty or begins with
/// one, and it ends with exactly one line break unless the last text is
/// empty or ends with one.
pub proof fn lemma_layout_frame(items: Seq<Item>)
    requires
        items.len() > 0,
        steady(items),
    ensures
        ({
            let out = layout(items);
            let head = items.first().text;
            let tail = items.last().text;
            &&& out.len() >= 1
            &&& out.last() == '\n'
            &&& out.len() >= head.len() + 1
            &&& out.subrange(0, head.len() as int) == head
            &&& out.len() >= tail.len() + 1
            &&& out.subrange(out.len() - 1 - tail.len(), out.len() - 1) == tail
            &&& head.len() > 0 && head.first() != '\n' ==> out.first() != '\n'
            &&& tail.len() > 0 && tail.last() != '\n' ==> out[out.len() - 2] != '\n'
        }),
{
    let n = items.len() as int;
    lemma_buffer_opening(items, n);
    if n > 1 {
        lemma_buffer_opening(items, n - 1);
    }
}

/// The layout reads of a tree only what `items_of` reads: two roots whose
/// children agree, one by one, in kind, text and keyword have the same
/// layout, whatever their byte offsets and whatever lies deeper in them.
pub proof fn lemma_layout_reads_items_only(
    a: SyntaxNode,
    source_a: Seq<u8>,
    b: SyntaxNode,
    source_b: Seq<u8>,
)
    requires
        a.children@.len() == b.children@.len(),
        forall|i: int|
            0 <= i < a.children@.len() ==> {
                &&& (#[trigger] a.children@[i]).kind@ == b.children@[i].kind@
                &&& a.children@[i].spec_text(source_a) == b.children@[i].spec_text(source_b)
                &&& classify(a.children@[i], source_a) == classify(b.children@[i], source_b)
            },
    ensures
        layout(items_of(a, source_a)) == layout(items_of(b, source_b)),
{
    assert(items_of(a, source_a) =~= items_of(b, source_b));
}

} // verus!
