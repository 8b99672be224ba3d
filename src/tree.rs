use vstd::prelude::*;

verus! {

/// A position in the source text: zero-based row and zero-based column.
#[derive(Clone, Copy, Debug, PartialEq, Eq, Structural)]
pub struct Point {
    pub row: usize,
    pub column: usize,
}

/// One node of a syntax tree, with its children in source order.
///
/// `text` is the exact source slice that the node spans; the renderer
/// shows it for nodes without children.
#[derive(Debug)]
pub struct SyntaxNode {
    pub kind: String,
    pub text: String,
    pub start: Point,
    pub end: Point,
    pub is_error: bool,
    pub children: Vec<SyntaxNode>,
}

/// Whether `n` or any node below it, at any depth, is an error node.
pub open spec fn has_error(n: SyntaxNode) -> bool
    decreases n, 1int,
{
    n.is_error || children_have_error(n, n.children@.len() as int)
}

/// Whether the subtree of one of the first `k` children of `n` holds an error node.
pub open spec fn children_have_error(n: SyntaxNode, k: int) -> bool
    decreases n, 0int, k,
{
    if 0 < k <= n.children@.len() {
        children_have_error(n, k - 1) || has_error(n.children@[k - 1])
    } else {
        false
    }
}

/// A tree is clean when no node in it is an error node.
pub open spec fn is_clean(n: SyntaxNode) -> bool {
    !has_error(n)
}

/// The number of nodes in the tree rooted at `n`.
pub open spec fn node_count(n: SyntaxNode) -> nat
    decreases n, 1int,
{
    1 + children_node_count(n, n.children@.len() as int)
}

/// The number of nodes in the subtrees of the first `k` children of `n`.
pub open spec fn children_node_count(n: SyntaxNode, k: int) -> nat
    decreases n, 0int, k,
{
    if 0 < k <= n.children@.len() {
        children_node_count(n, k - 1) + node_count(n.children@[k - 1])
    } else {
        0
    }
}

} // verus!
