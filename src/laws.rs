//! Properties of rendering and of the two parsing modes, stated over the
//! pre-order list of a tree's nodes.
use vstd::prelude::*;
use vstd::seq_lib::lemma_flatten_concat;

use crate::render::{indent_unit, node_line, render, render_children, render_tree, span_text};
use crate::tool::{outcome, parse_outcome};
use crate::tool::ToolError;
use crate::tree::{children_have_error, children_node_count, has_error, node_count, SyntaxNode};

verus! {

/// The nodes of the subtree rooted at `n` in pre-order, each with the
/// indentation its line gets.
pub open spec fn entries(n: SyntaxNode, prefix: Seq<char>) -> Seq<(SyntaxNode, Seq<char>)>
    decreases n, 1int,
{
    seq![(n, prefix)] + children_entries(n, n.children@.len() as int, prefix + indent_unit())
}

/// The pre-order entries of the subtrees of the first `k` children of `n`.
pub open spec fn children_entries(n: SyntaxNode, k: int, prefix: Seq<char>) -> Seq<
    (SyntaxNode, Seq<char>),
>
    decreases n, 0int, k,
{
    if 0 < k <= n.children@.len() {
        children_entries(n, k - 1, prefix) + entries(n.children@[k - 1], prefix)
    } else {
        Seq::empty()
    }
}

/// The line of each entry.
pub open spec fn lines_of(es: Seq<(SyntaxNode, Seq<char>)>) -> Seq<Seq<char>> {
    es.map_values(|e: (SyntaxNode, Seq<char>)| node_line(e.0, e.1))
}

/// Whether some entry is an error node.
pub open spec fn any_error(es: Seq<(SyntaxNode, Seq<char>)>) -> bool {
    exists|i: int| 0 <= i < es.len() && (#[trigger] es[i]).0.is_error
}

/// The pre-order entries of a whole tree, its root at depth zero.
pub open spec fn tree_entries(t: SyntaxNode) -> Seq<(SyntaxNode, Seq<char>)> {
    entries(t, Seq::empty())
}

proof fn lemma_lines_concat(a: Seq<(SyntaxNode, Seq<char>)>, b: Seq<(SyntaxNode, Seq<char>)>)
    ensures
        lines_of(a + b).flatten() == lines_of(a).flatten() + lines_of(b).flatten(),
{
    assert(lines_of(a + b) =~= lines_of(a) + lines_of(b));
    lemma_flatten_concat(lines_of(a), lines_of(b));
}

proof fn lemma_any_error_concat(a: Seq<(SyntaxNode, Seq<char>)>, b: Seq<(SyntaxNode, Seq<char>)>)
    ensures
        any_error(a + b) == (any_error(a) || any_error(b)),
{
    if any_error(a) {
        let i = choose|i: int| 0 <= i < a.len() && (#[trigger] a[i]).0.is_error;
        assert((a + b)[i] == a[i]);
    }
    if any_error(b) {
        let i = choose|i: int| 0 <= i < b.len() && (#[trigger] b[i]).0.is_error;
        assert((a + b)[a.len() + i] == b[i]);
    }
    if any_error(a + b) {
        let i = choose|i: int| 0 <= i < (a + b).len() && (#[trigger] (a + b)[i]).0.is_error;
        if i < a.len() {
            assert(a[i] == (a + b)[i]);
        } else {
            assert(b[i - a.len()] == (a + b)[i]);
        }
    }
}

proof fn lemma_entries(n: SyntaxNode, prefix: Seq<char>)
    ensures
        render(n, prefix) == lines_of(entries(n, prefix)).flatten(),
        entries(n, prefix).len() == node_count(n),
        any_error(entries(n, prefix)) == has_error(n),
    decreases n, 1int,
{
    let p = prefix + indent_unit();
    let k = n.children@.len() as int;
    lemma_children_entries(n, k, p);
    let head = seq![(n, prefix)];
    lemma_lines_concat(head, children_entries(n, k, p));
    assert(lines_of(head) =~= seq![node_line(n, prefix)]);
    assert(lines_of(head).flatten() =~= node_line(n, prefix)) by {
        seq![node_line(n, prefix)].lemma_flatten_one_element();
    }
    lemma_any_error_concat(head, children_entries(n, k, p));
    assert(any_error(head) == n.is_error) by {
        if n.is_error {
            assert(head[0].0.is_error);
        }
    }
}

proof fn lemma_children_entries(n: SyntaxNode, k: int, prefix: Seq<char>)
    requires
        0 <= k <= n.children@.len(),
    ensures
        render_children(n, k, prefix) == lines_of(children_entries(n, k, prefix)).flatten(),
        children_entries(n, k, prefix).len() == children_node_count(n, k),
        any_error(children_entries(n, k, prefix)) == children_have_error(n, k),
    decreases n, 0int, k,
{
    if k > 0 {
        let c = n.children@[k - 1];
        lemma_children_entries(n, k - 1, prefix);
        lemma_entries(c, prefix);
        lemma_lines_concat(children_entries(n, k - 1, prefix), entries(c, prefix));
        lemma_any_error_concat(children_entries(n, k - 1, prefix), entries(c, prefix));
    } else {
        assert(lines_of(Seq::empty()) =~= Seq::<Seq<char>>::empty());
        assert(Seq::<Seq<char>>::empty().flatten() =~= Seq::<char>::empty());
    }
}

/// A rendered tree is one line per node, in pre-order: the text is the
/// concatenation of the entries' lines, there are as many entries as nodes,
/// and every line ends with a newline.
pub proof fn law_one_line_per_node(t: SyntaxNode)
    ensures
        render_tree(t) == lines_of(tree_entries(t)).flatten(),
        lines_of(tree_entries(t)).len() == node_count(t),
        forall|i: int|
            0 <= i < lines_of(tree_entries(t)).len() ==> (#[trigger] lines_of(tree_entries(t))[i]).last()
                == '\n',
{
    lemma_entries(t, Seq::empty());
}

/// The line of a node without children holds its quoted source text between
/// its kind and its span; the line of a node with children holds nothing there.
pub proof fn law_leaf_lines_are_quoted(t: SyntaxNode, i: int)
    requires
        0 <= i < tree_entries(t).len(),
    ensures
        ({
            let (m, prefix) = tree_entries(t)[i];
            &&& m.children@.len() == 0 ==> lines_of(tree_entries(t))[i] == prefix + m.kind@ + seq![
                ' ',
                '"',
            ] + m.text@ + seq!['"'] + span_text(m)
            &&& m.children@.len() > 0 ==> lines_of(tree_entries(t))[i] == prefix + m.kind@
                + span_text(m)
        }),
{
    let (m, prefix) = tree_entries(t)[i];
    if m.children@.len() > 0 {
        assert(prefix + m.kind@ + Seq::<char>::empty() =~= prefix + m.kind@);
    }
}

/// When strict parsing answers with a text, tolerant parsing of the same tree
/// answers with the same text, and no node of the tree is an error node.
pub proof fn law_strict_success_matches_tolerant(tree: Option<SyntaxNode>)
    requires
        outcome(tree, true) is Ok,
    ensures
        outcome(tree, false) == outcome(tree, true),
        forall|i: int|
            0 <= i < tree_entries(tree->Some_0).len() ==> !(#[trigger] tree_entries(
                tree->Some_0,
            )[i]).0.is_error,
{
    lemma_entries(tree->Some_0, Seq::empty());
}

/// A tree with an error node anywhere is refused by strict parsing, while
/// tolerant parsing renders it, the error node's line among the others.
pub proof fn law_error_tree_is_refused(t: SyntaxNode)
    requires
        has_error(t),
    ensures
        outcome(Some(t), true) == Err::<Seq<char>, ToolError>(ToolError::InvalidInput),
        outcome(Some(t), false) == Ok::<Seq<char>, ToolError>(render_tree(t)),
        render_tree(t) == lines_of(tree_entries(t)).flatten(),
        exists|i: int| 0 <= i < tree_entries(t).len() && (#[trigger] tree_entries(t)[i]).0.is_error,
{
    lemma_entries(t, Seq::empty());
}

/// For any text, when strict parsing succeeds, tolerant parsing of the same
/// text answers with the same rendering.
pub proof fn law_strict_success_matches_tolerant_parse(sql: Seq<char>)
    requires
        parse_outcome(sql, true) is Ok,
    ensures
        parse_outcome(sql, false) == parse_outcome(sql, true),
{
}

} // verus!
