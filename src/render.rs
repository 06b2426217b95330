//! The renderer.
use vstd::prelude::*;
use crate::model::{blank_mark, branch_blocks, branch_mark, indent, last_mark, rendered, trunk_mark};
use crate::node::Node;

verus! {

/// The text of each line of `v`.
pub open spec fn texts(v: Seq<String>) -> Seq<Seq<char>> {
    v.map_values(|s: String| s@)
}

/// Appends `block` to `out`, with `first` before its first line and `rest` before each later
/// line.
fn push_block(out: &mut Vec<String>, block: &Vec<String>, first: &str, rest: &str)
    ensures
        texts(final(out)@) == texts(old(out)@) + indent(texts(block@), first@, rest@),
{
    let ghost start = texts(out@);
    let mut k: usize = 0;
    while k < block.len()
        invariant
            k <= block@.len(),
            texts(out@) == start + indent(texts(block@), first@, rest@).take(k as int),
        decreases block@.len() - k,
    {
        let mut line = if k == 0 {
            first.to_owned()
        } else {
            rest.to_owned()
        };
        line.append(block[k].as_str());
        let ghost before = out@;
        out.push(line);
        assert(texts(out@) =~= texts(before).push(line@));
        assert(indent(texts(block@), first@, rest@).take(k + 1) =~= indent(
            texts(block@),
            first@,
            rest@,
        ).take(k as int).push(line@));
        assert(texts(out@) =~= start + indent(texts(block@), first@, rest@).take(k + 1));
        k = k + 1;
    }
    assert(indent(texts(block@), first@, rest@).take(k as int) =~= indent(
        texts(block@),
        first@,
        rest@,
    ));
}

/// Renders `node` and everything below it, one line per node: the node's name first, then
/// each child's lines, introduced by `├── ` (or `└── ` for the last child) and continued with
/// `│   ` (or four spaces for the last child). The lines depend on the tree alone, so
/// rendering an unchanged tree again gives the same lines.
pub fn render<T: Node>(node: &T) -> (lines: Vec<String>)
    ensures
        texts(lines@) == rendered(node.tree()),
    decreases node.tree(),
{
    let mut lines: Vec<String> = Vec::new();
    lines.push(node.name().to_owned());
    let children = node.children();
    let n = children.len();
    let ghost kids = node.tree().kids;
    if n == 0 {
        assert(texts(lines@) =~= seq![node.tree().label]);
        return lines;
    }
    let mut i: usize = 0;
    while i < n - 1
        invariant
            n == children@.len() == kids.len(),
            n > 0,
            i <= n - 1,
            kids == node.tree().kids,
            forall|j: int| 0 <= j < n ==> (#[trigger] children@[j]).tree() == kids[j],
            texts(lines@) == seq![node.tree().label] + branch_blocks(kids.take(i as int)),
        decreases n - 1 - i,
    {
        let block = render(&children[i]);
        push_block(&mut lines, &block, "├── ", "│   ");
        proof {
            reveal_strlit("├── ");
            reveal_strlit("│   ");
            assert("├── "@ =~= branch_mark());
            assert("│   "@ =~= trunk_mark());
            let next = kids.take(i + 1);
            assert(next.drop_last() =~= kids.take(i as int));
            assert(texts(lines@) =~= seq![node.tree().label] + branch_blocks(next));
        }
        i = i + 1;
    }
    let block = render(&children[n - 1]);
    push_block(&mut lines, &block, "└── ", "    ");
    proof {
        reveal_strlit("└── ");
        reveal_strlit("    ");
        assert("└── "@ =~= last_mark());
        assert("    "@ =~= blank_mark());
        assert(kids.drop_last() =~= kids.take(n - 1));
        assert(texts(lines@) =~= rendered(node.tree()));
    }
    lines
}

} // verus!
