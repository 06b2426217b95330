//! The mathematical model of a tree and of its rendering.
use vstd::prelude::*;

verus! {

/// A tree as a mathematical value: a label and the ordered children.
pub struct Tree {
    pub label: Seq<char>,
    pub kids: Seq<Tree>,
}

/// Introduces the block of a child that has later siblings.
pub open spec fn branch_mark() -> Seq<char> {
    seq!['├', '─', '─', ' ']
}

/// Introduces the block of the last child.
pub open spec fn last_mark() -> Seq<char> {
    seq!['└', '─', '─', ' ']
}

/// Continues the trunk past a child that has later siblings.
pub open spec fn trunk_mark() -> Seq<char> {
    seq!['│', ' ', ' ', ' ']
}

/// Indents the block of the last child, where no trunk continues.
pub open spec fn blank_mark() -> Seq<char> {
    seq![' ', ' ', ' ', ' ']
}

/// `block` with `first` put before its first line and `rest` before each later line.
pub open spec fn indent(block: Seq<Seq<char>>, first: Seq<char>, rest: Seq<char>) -> Seq<Seq<char>> {
    Seq::new(block.len(), |k: int| if k == 0 { first + block[k] } else { rest + block[k] })
}

/// The lines that render `t`: its label, then the block of each child.
pub open spec fn rendered(t: Tree) -> Seq<Seq<char>>
    decreases t,
{
    if t.kids.len() == 0 {
        seq![t.label]
    } else {
        seq![t.label] + branch_blocks(t.kids.drop_last()) + indent(
            rendered(t.kids.last()),
            last_mark(),
            blank_mark(),
        )
    }
}

/// The blocks of children that each have a later sibling, in order.
pub open spec fn branch_blocks(kids: Seq<Tree>) -> Seq<Seq<char>>
    decreases kids,
{
    if kids.len() == 0 {
        seq![]
    } else {
        branch_blocks(kids.drop_last()) + indent(
            rendered(kids.last()),
            branch_mark(),
            trunk_mark(),
        )
    }
}

/// The number of nodes in `t`.
pub open spec fn size(t: Tree) -> nat
    decreases t,
{
    1 + sizes(t.kids)
}

/// The number of nodes in all of `kids` together.
pub open spec fn sizes(kids: Seq<Tree>) -> nat
    decreases kids,
{
    if kids.len() == 0 {
        0
    } else {
        sizes(kids.drop_last()) + size(kids.last())
    }
}

} // verus!
