//! What holds of every rendering.
use vstd::prelude::*;
use crate::model::{
    blank_mark, branch_blocks, branch_mark, indent, last_mark, rendered, size, sizes, trunk_mark,
    Tree,
};

verus! {

/// The line at which the block of child `j` of `t` begins.
pub open spec fn block_start(t: Tree, j: int) -> int {
    1 + sizes(t.kids.take(j)) as int
}

/// A node without children renders as exactly one line: its label.
pub proof fn lemma_single_node(t: Tree)
    requires
        t.kids.len() == 0,
    ensures
        rendered(t) == seq![t.label],
{
}

/// The first line of a rendering is the root's label, with nothing before it.
pub proof fn lemma_root_line(t: Tree)
    ensures
        rendered(t).len() >= 1,
        rendered(t)[0] == t.label,
{
}

/// A rendering has one line for each node of the tree.
pub proof fn lemma_line_count(t: Tree)
    ensures
        rendered(t).len() == size(t),
    decreases t,
{
    if t.kids.len() > 0 {
        lemma_branch_blocks_len(t.kids.drop_last());
        lemma_line_count(t.kids.last());
    }
}

/// The blocks of `kids` have one line for each node below them.
proof fn lemma_branch_blocks_len(kids: Seq<Tree>)
    ensures
        branch_blocks(kids).len() == sizes(kids),
    decreases kids,
{
    if kids.len() > 0 {
        lemma_branch_blocks_len(kids.drop_last());
        lemma_line_count(kids.last());
    }
}

/// The nodes of a prefix of `kids`, and of the child after it, are no more than those of all.
proof fn lemma_sizes_prefix(kids: Seq<Tree>, m: int)
    requires
        0 <= m < kids.len(),
    ensures
        sizes(kids.take(m + 1)) == sizes(kids.take(m)) + size(kids[m]),
        sizes(kids.take(m + 1)) <= sizes(kids),
    decreases kids.len(),
{
    let next = kids.take(m + 1);
    assert(next.drop_last() =~= kids.take(m));
    if m + 1 < kids.len() {
        lemma_sizes_prefix(kids.drop_last(), m);
        assert(kids.drop_last().take(m + 1) =~= next);
        assert(kids.drop_last().take(m) =~= kids.take(m));
    } else {
        assert(next =~= kids);
    }
}

/// Line `k` of the block of child `j` among `kids`, in `branch_blocks(kids)`.
proof fn lemma_branch_blocks_line(kids: Seq<Tree>, j: int, k: int)
    requires
        0 <= j < kids.len(),
        0 <= k < size(kids[j]),
    ensures
        sizes(kids.take(j)) + k < sizes(kids),
        branch_blocks(kids)[sizes(kids.take(j)) + k] == indent(
            rendered(kids[j]),
            branch_mark(),
            trunk_mark(),
        )[k],
    decreases kids.len(),
{
    let init = kids.drop_last();
    lemma_sizes_prefix(kids, j);
    lemma_branch_blocks_len(init);
    lemma_line_count(kids[j]);
    if j + 1 < kids.len() {
        lemma_branch_blocks_line(init, j, k);
        assert(init.take(j) =~= kids.take(j));
    } else {
        assert(kids.take(j) =~= init);
    }
}

/// The mark before a line of a child's block, by whether the child has later siblings and
/// whether the line is the block's first.
pub open spec fn mark_of(has_later: bool, first: bool) -> Seq<char> {
    if has_later {
        if first {
            branch_mark()
        } else {
            trunk_mark()
        }
    } else {
        if first {
            last_mark()
        } else {
            blank_mark()
        }
    }
}

/// Line `k` of the block of child `j` of `t`: the child's own line `k`, after the mark that
/// the child's place and the line's place in the block call for.
proof fn lemma_child_line(t: Tree, j: int, k: int)
    requires
        0 <= j < t.kids.len(),
        0 <= k < size(t.kids[j]),
    ensures
        block_start(t, j) + k < rendered(t).len(),
        rendered(t)[block_start(t, j) + k] == mark_of(j + 1 < t.kids.len(), k == 0) + rendered(
            t.kids[j],
        )[k],
{
    let init = t.kids.drop_last();
    lemma_line_count(t);
    lemma_line_count(t.kids[j]);
    lemma_branch_blocks_len(init);
    lemma_sizes_prefix(t.kids, j);
    if j + 1 < t.kids.len() {
        lemma_branch_blocks_line(init, j, k);
        assert(init.take(j) =~= t.kids.take(j));
    } else {
        assert(t.kids.take(j) =~= init);
    }
}

/// Each child's block begins with its label: after `└── ` for the last child, after `├── `
/// for every other. So at every level exactly one block, the last, is introduced by `└── `.
pub proof fn lemma_child_marks(t: Tree, j: int)
    requires
        0 <= j < t.kids.len(),
    ensures
        block_start(t, j) < rendered(t).len(),
        j + 1 == t.kids.len() ==> rendered(t)[block_start(t, j)] == last_mark() + t.kids[j].label,
        j + 1 < t.kids.len() ==> rendered(t)[block_start(t, j)] == branch_mark()
            + t.kids[j].label,
{
    lemma_line_count(t.kids[j]);
    lemma_child_line(t, j, 0);
}

/// Each later line of a child's block is the child's own line, after `│   ` for a child with
/// later siblings and after four spaces for the last child.
pub proof fn lemma_continuation(t: Tree, j: int, k: int)
    requires
        0 <= j < t.kids.len(),
        1 <= k < size(t.kids[j]),
    ensures
        block_start(t, j) + k < rendered(t).len(),
        j + 1 == t.kids.len() ==> rendered(t)[block_start(t, j) + k] == blank_mark() + rendered(
            t.kids[j],
        )[k],
        j + 1 < t.kids.len() ==> rendered(t)[block_start(t, j) + k] == trunk_mark() + rendered(
            t.kids[j],
        )[k],
{
    lemma_child_line(t, j, k);
}

/// A root with one child, which has one childless child, renders as three lines: the root's
/// label, the child's after `└── `, the grandchild's after four spaces and `└── `.
pub proof fn lemma_single_child_path(t: Tree)
    requires
        t.kids.len() == 1,
        t.kids[0].kids.len() == 1,
        t.kids[0].kids[0].kids.len() == 0,
    ensures
        rendered(t) == seq![
            t.label,
            last_mark() + t.kids[0].label,
            blank_mark() + last_mark() + t.kids[0].kids[0].label,
        ],
{
    let c = t.kids[0];
    let g = c.kids[0];
    assert(t.kids.drop_last() =~= Seq::<Tree>::empty());
    assert(c.kids.drop_last() =~= Seq::<Tree>::empty());
    assert(rendered(g) == seq![g.label]);
    assert(branch_blocks(c.kids.drop_last()) =~= Seq::<Seq<char>>::empty());
    assert(branch_blocks(t.kids.drop_last()) =~= Seq::<Seq<char>>::empty());
    assert(indent(rendered(g), last_mark(), blank_mark()) =~= seq![last_mark() + g.label]);
    assert(rendered(c) =~= seq![c.label, last_mark() + g.label]);
    assert(blank_mark() + (last_mark() + g.label) =~= blank_mark() + last_mark() + g.label);
    assert(rendered(t) =~= seq![
        t.label,
        last_mark() + c.label,
        blank_mark() + last_mark() + g.label,
    ]);
}

} // verus!
