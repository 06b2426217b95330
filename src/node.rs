//! The capability a node offers to the renderer, and a plain node type that has it.
use vstd::prelude::*;
use crate::model::Tree;

verus! {

/// A node of a tree that can be rendered.
pub trait Node: Sized {
    /// The tree that this node stands for.
    spec fn tree(&self) -> Tree;

    /// What is displayed for this node when rendered.
    fn name(&self) -> (r: &str)
        ensures
            r@ == self.tree().label,
    ;

    /// The immediate children of this node, in order.
    fn children(&self) -> (r: &[Self])
        ensures
            r@.len() == self.tree().kids.len(),
            forall|i: int| 0 <= i < r@.len() ==> (#[trigger] r@[i]).tree() == self.tree().kids[i],
    ;
}

/// A node that owns its name and its children.
#[derive(Debug, PartialEq, Eq)]
pub struct BasicNode {
    pub name: String,
    pub children: Vec<BasicNode>,
}

/// The tree of a `BasicNode`.
pub open spec fn basic_tree(n: BasicNode) -> Tree
    decreases n,
{
    Tree { label: n.name@, kids: basic_trees(n.children@) }
}

/// The trees of a sequence of `BasicNode`s.
pub open spec fn basic_trees(s: Seq<BasicNode>) -> Seq<Tree>
    decreases s,
{
    if s.len() == 0 {
        seq![]
    } else {
        basic_trees(s.drop_last()).push(basic_tree(s.last()))
    }
}

/// Each tree of `basic_trees(s)` is that of the node at the same place.
pub proof fn lemma_basic_trees(s: Seq<BasicNode>)
    ensures
        basic_trees(s).len() == s.len(),
        forall|i: int| 0 <= i < s.len() ==> #[trigger] basic_trees(s)[i] == basic_tree(s[i]),
    decreases s.len(),
{
    if s.len() > 0 {
        lemma_basic_trees(s.drop_last());
    }
}

impl BasicNode {
    /// A node with the given name and no children.
    pub fn new(name: String) -> (r: BasicNode)
        ensures
            r.name@ == name@,
            r.children@.len() == 0,
    {
        BasicNode { name, children: Vec::new() }
    }
}

impl Node for BasicNode {
    open spec fn tree(&self) -> Tree {
        basic_tree(*self)
    }

    fn name(&self) -> (r: &str) {
        self.name.as_str()
    }

    fn children(&self) -> (r: &[Self]) {
        proof {
            lemma_basic_trees(self.children@);
        }
        self.children.as_slice()
    }
}

} // verus!
