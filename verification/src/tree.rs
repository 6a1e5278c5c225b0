//! The formula tree and its rendering.

use vstd::prelude::*;

verus! {

/// The name of a negation node.
pub const NOT: &'static str = "Not";

/// The name of a conjunction node.
pub const AND: &'static str = "and";

/// The name of a disjunction node.
pub const OR: &'static str = "or";

/// The name of an implication node.
pub const IMPLIES: &'static str = "implies";

/// A tree of named nodes as a mathematical value: what a [`TreeNode`] stands for.
pub struct Tree {
    pub name: Seq<char>,
    pub left: Option<Box<Tree>>,
    pub right: Option<Box<Tree>>,
}

impl Tree {
    /// A node without children.
    pub open spec fn leaf(name: Seq<char>) -> Tree {
        Tree { name, left: None, right: None }
    }

    /// A node with a right child only.
    pub open spec fn unary(name: Seq<char>, right: Tree) -> Tree {
        Tree { name, left: None, right: Some(Box::new(right)) }
    }

    /// A node with both children.
    pub open spec fn binary(name: Seq<char>, left: Tree, right: Tree) -> Tree {
        Tree { name, left: Some(Box::new(left)), right: Some(Box::new(right)) }
    }

    /// Whether the tree is a formula: a leaf named by one character, a
    /// [`NOT`] node over a formula to its right, or an [`AND`], [`OR`] or
    /// [`IMPLIES`] node between two formulas.
    pub open spec fn is_formula(self) -> bool
        decreases self,
    {
        match (self.left, self.right) {
            (None, None) => self.name.len() == 1,
            (None, Some(r)) => self.name == NOT@ && r.is_formula(),
            (Some(l), Some(r)) => {
                &&& self.name == AND@ || self.name == OR@ || self.name == IMPLIES@
                &&& l.is_formula()
                &&& r.is_formula()
            },
            (Some(_), None) => false,
        }
    }
}

/// The fully parenthesised infix text of a tree: a node's own name between
/// its children, each child rendered in turn, and the whole in one pair of
/// parentheses.
pub open spec fn render(t: Tree) -> Seq<char>
    decreases t,
{
    let open = seq!['('];
    let close = seq![')'];
    let space = seq![' '];
    match (t.left, t.right) {
        (Some(l), Some(r)) => open + render(*l) + space + t.name + space + render(*r) + close,
        (Some(l), None) => open + render(*l) + space + t.name + close,
        (None, Some(r)) => open + t.name + space + render(*r) + close,
        (None, None) => open + t.name + close,
    }
}

/// One node of a formula tree. Each child belongs to its parent alone.
#[derive(Debug)]
pub struct TreeNode {
    left: Option<Box<TreeNode>>,
    right: Option<Box<TreeNode>>,
    name: String,
}

impl View for TreeNode {
    type V = Tree;

    closed spec fn view(&self) -> Tree {
        self.model()
    }
}

impl TreeNode {
    /// The tree that this node and its descendants form.
    spec fn model(&self) -> Tree
        decreases self,
    {
        Tree {
            name: self.name@,
            left: match self.left {
                Some(l) => Some(Box::new(l.model())),
                None => None,
            },
            right: match self.right {
                Some(r) => Some(Box::new(r.model())),
                None => None,
            },
        }
    }

    /// A leaf with the given name.
    pub fn new(name: &str) -> (node: TreeNode)
        ensures
            node@ == Tree::leaf(name@),
    {
        TreeNode { left: None, right: None, name: name.to_owned() }
    }

    /// A node with the given name over one operand, which becomes its right child.
    pub fn unary(name: &str, right: TreeNode) -> (node: TreeNode)
        ensures
            node@ == Tree::unary(name@, right@),
    {
        TreeNode { left: None, right: Some(Box::new(right)), name: name.to_owned() }
    }

    /// A node with the given name over two operands.
    pub fn binary(name: &str, left: TreeNode, right: TreeNode) -> (node: TreeNode)
        ensures
            node@ == Tree::binary(name@, left@, right@),
    {
        TreeNode { left: Some(Box::new(left)), right: Some(Box::new(right)), name: name.to_owned() }
    }

    /// The name of this node.
    pub fn name(&self) -> (name: &str)
        ensures
            name@ == self@.name,
    {
        self.name.as_str()
    }

    /// The left child, if there is one.
    pub fn left(&self) -> (child: Option<&TreeNode>)
        ensures
            match child {
                Some(c) => self@.left == Some(Box::new(c@)),
                None => self@.left is None,
            },
    {
        match &self.left {
            Some(l) => Some(&**l),
            None => None,
        }
    }

    /// The right child, if there is one.
    pub fn right(&self) -> (child: Option<&TreeNode>)
        ensures
            match child {
                Some(c) => self@.right == Some(Box::new(c@)),
                None => self@.right is None,
            },
    {
        match &self.right {
            Some(r) => Some(&**r),
            None => None,
        }
    }

    /// The rendering of this tree: see [`render`].
    pub fn to_string(&self) -> (text: String)
        ensures
            text@ == render(self@),
    {
        let mut result = String::new();
        self.to_string_helper(&mut result);
        result
    }

    /// Appends the rendering of this tree to `result`.
    fn to_string_helper(&self, result: &mut String)
        ensures
            final(result)@ == old(result)@ + render(self@),
        decreases self,
    {
        result.push('(');
        if let Some(left) = &self.left {
            left.to_string_helper(result);
            result.push(' ');
        }
        result.append(self.name.as_str());
        if let Some(right) = &self.right {
            result.push(' ');
            right.to_string_helper(result);
        }
        result.push(')');
    }
}

} // verus!
