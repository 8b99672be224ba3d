use vstd::prelude::*;
use vstd::string::StringExecFns;

use crate::laws::{law_one_line_per_node, lines_of, tree_entries};
use crate::tree::{node_count, Point, SyntaxNode};

verus! {

/// What one level of depth adds in front of a line.
pub open spec fn indent_unit() -> Seq<char> {
    seq!['-', '-']
}

/// The decimal digit for `d`, which is below ten.
pub open spec fn digit_char(d: nat) -> char {
    seq!['0', '1', '2', '3', '4', '5', '6', '7', '8', '9'][d as int]
}

/// The decimal notation of `n`, without leading zeros.
pub open spec fn decimal(n: nat) -> Seq<char>
    decreases n,
{
    if n < 10 {
        seq![digit_char(n)]
    } else {
        decimal(n / 10).push(digit_char(n % 10))
    }
}

/// A position written as `(row, column)`.
pub open spec fn point_text(p: Point) -> Seq<char> {
    seq!['('] + decimal(p.row as nat) + seq![',', ' '] + decimal(p.column as nat) + seq![')']
}

/// The quoted source text shown for a node without children; nothing for others.
pub open spec fn leaf_text(n: SyntaxNode) -> Seq<char> {
    if n.children@.len() == 0 {
        seq![' ', '"'] + n.text@ + seq!['"']
    } else {
        Seq::empty()
    }
}

/// The span of `n` written as ` [start-end]`, and the end of its line.
pub open spec fn span_text(n: SyntaxNode) -> Seq<char> {
    seq![' ', '['] + point_text(n.start) + seq!['-'] + point_text(n.end) + seq![']', '\n']
}

/// The line written for node `n` behind the indentation `prefix`.
pub open spec fn node_line(n: SyntaxNode, prefix: Seq<char>) -> Seq<char> {
    prefix + n.kind@ + leaf_text(n) + span_text(n)
}

/// The rendering of the subtree rooted at `n`: its line, then its children's
/// subtrees in order, each one level deeper.
pub open spec fn render(n: SyntaxNode, prefix: Seq<char>) -> Seq<char>
    decreases n, 1int,
{
    node_line(n, prefix) + render_children(n, n.children@.len() as int, prefix + indent_unit())
}

/// The renderings of the subtrees of the first `k` children of `n`, one after another.
pub open spec fn render_children(n: SyntaxNode, k: int, prefix: Seq<char>) -> Seq<char>
    decreases n, 0int, k,
{
    if 0 < k <= n.children@.len() {
        render_children(n, k - 1, prefix) + render(n.children@[k - 1], prefix)
    } else {
        Seq::empty()
    }
}

/// The rendering of a whole tree, its root at depth zero.
pub open spec fn render_tree(root: SyntaxNode) -> Seq<char> {
    render(root, Seq::empty())
}

fn push_digit(out: &mut String, d: usize)
    requires
        d < 10,
    ensures
        final(out)@ == old(out)@ + seq![digit_char(d as nat)],
{
    proof {
        reveal_strlit("0");
        reveal_strlit("1");
        reveal_strlit("2");
        reveal_strlit("3");
        reveal_strlit("4");
        reveal_strlit("5");
        reveal_strlit("6");
        reveal_strlit("7");
        reveal_strlit("8");
        reveal_strlit("9");
    }
    let s = match d {
        0 => "0",
        1 => "1",
        2 => "2",
        3 => "3",
        4 => "4",
        5 => "5",
        6 => "6",
        7 => "7",
        8 => "8",
        _ => "9",
    };
    out.append(s);
}

/// Appends the decimal notation of `n`.
pub fn push_decimal(out: &mut String, n: usize)
    ensures
        final(out)@ == old(out)@ + decimal(n as nat),
    decreases n,
{
    if n >= 10 {
        push_decimal(out, n / 10);
    }
    push_digit(out, n % 10);
    proof {
        assert(final(out)@ =~= old(out)@ + decimal(n as nat));
    }
}

fn push_point(out: &mut String, p: Point)
    ensures
        final(out)@ == old(out)@ + point_text(p),
{
    proof {
        reveal_strlit("(");
        reveal_strlit(", ");
        reveal_strlit(")");
    }
    out.append("(");
    push_decimal(out, p.row);
    out.append(", ");
    push_decimal(out, p.column);
    out.append(")");
    proof {
        assert(final(out)@ =~= old(out)@ + point_text(p));
    }
}

fn push_line(out: &mut String, n: &SyntaxNode, prefix: &String)
    ensures
        final(out)@ == old(out)@ + node_line(*n, prefix@),
{
    proof {
        reveal_strlit(" \"");
        reveal_strlit("\"");
        reveal_strlit(" [");
        reveal_strlit("-");
        reveal_strlit("]\n");
    }
    out.append(prefix.as_str());
    out.append(n.kind.as_str());
    if n.children.len() == 0 {
        out.append(" \"");
        out.append(n.text.as_str());
        out.append("\"");
    }
    out.append(" [");
    push_point(out, n.start);
    out.append("-");
    push_point(out, n.end);
    out.append("]\n");
    proof {
        assert(final(out)@ =~= old(out)@ + node_line(*n, prefix@));
    }
}

/// Appends the rendering of the subtree rooted at `n`, pre-order.
fn visit(n: &SyntaxNode, prefix: &String, out: &mut String)
    ensures
        final(out)@ == old(out)@ + render(*n, prefix@),
    decreases n,
{
    push_line(out, n, prefix);
    proof {
        reveal_strlit("--");
    }
    let mut child_prefix = prefix.clone();
    child_prefix.append("--");
    assert(child_prefix@ =~= prefix@ + indent_unit());
    let mut i: usize = 0;
    while i < n.children.len()
        invariant
            i <= n.children@.len(),
            child_prefix@ == prefix@ + indent_unit(),
            out@ == old(out)@ + node_line(*n, prefix@) + render_children(*n, i as int, child_prefix@),
        decreases n.children@.len() - i,
    {
        visit(&n.children[i], &child_prefix, out);
        i = i + 1;
        proof {
            assert(out@ =~= old(out)@ + node_line(*n, prefix@) + render_children(*n, i as int, child_prefix@));
        }
    }
    proof {
        assert(out@ =~= old(out)@ + render(*n, prefix@));
    }
}

/// Renders a tree: one line per node in pre-order, each indented by two
/// dashes per level of depth, a node without children followed by its
/// quoted source text, and every node followed by its span
/// `[(row, column)-(row, column)]`.
pub fn write_tree(root: &SyntaxNode) -> (r: String)
    ensures
        r@ == render_tree(*root),
        r@ == lines_of(tree_entries(*root)).flatten(),
        lines_of(tree_entries(*root)).len() == node_count(*root),
        forall|i: int|
            0 <= i < lines_of(tree_entries(*root)).len() ==> (#[trigger] lines_of(
                tree_entries(*root),
            )[i]).last() == '\n',
{
    let mut result = String::new();
    let prefix = String::new();
    visit(root, &prefix, &mut result);
    proof {
        assert(result@ =~= render_tree(*root));
        law_one_line_per_node(*root);
    }
    result
}

} // verus!
