//! The two parsing operations: strict, which refuses a tree holding an error
//! node, and tolerant, which renders every tree.
use vstd::prelude::*;

use vstd::utf8::encode_utf8;

use crate::engine::{buildable, children_model, models, parse, raw_tree_of, RawNode, MAX_DEPTH};
use crate::render::{indent_unit, render, render_children, render_tree, write_tree};
use crate::tree::{children_have_error, has_error, is_clean, SyntaxNode};

verus! {

/// Why a parsing operation returned no tree.
#[derive(Clone, Copy, Debug, PartialEq, Eq, Structural)]
pub enum ToolError {
    /// Strict parsing met an error node somewhere in the tree.
    InvalidInput,
    /// The grammar engine failed, or a node's span could not be sliced from
    /// the source text.
    Internal,
}

impl ToolError {
    /// The message that goes to the caller.
    pub fn message(&self) -> (r: String)
        ensures
            *self == ToolError::InvalidInput ==> r@ == "Failed to parse sql"@,
            *self == ToolError::Internal ==> r@ == "Internal error while rendering the syntax tree"@,
    {
        proof {
            reveal_strlit("Failed to parse sql");
            reveal_strlit("Internal error while rendering the syntax tree");
        }
        match self {
            ToolError::InvalidInput => String::from_str("Failed to parse sql"),
            ToolError::Internal => String::from_str("Internal error while rendering the syntax tree"),
        }
    }
}

/// The result of an operation, with the text as a sequence of characters.
pub open spec fn result_view(r: Result<String, ToolError>) -> Result<Seq<char>, ToolError> {
    match r {
        Ok(s) => Ok(s@),
        Err(e) => Err(e),
    }
}

/// What an operation answers once the engine has produced `tree` (`None`
/// when the engine failed); strict mode refuses a tree with an error node.
pub open spec fn outcome(tree: Option<SyntaxNode>, strict: bool) -> Result<Seq<char>, ToolError> {
    match tree {
        None => Err(ToolError::Internal),
        Some(t) => if strict && has_error(t) {
            Err(ToolError::InvalidInput)
        } else {
            Ok(render_tree(t))
        },
    }
}

/// What parsing `sql` answers: the outcome for the tree built from the
/// engine's tree of `sql`, or `Internal` when that tree cannot be built.
pub open spec fn parse_outcome(sql: Seq<char>, strict: bool) -> Result<Seq<char>, ToolError> {
    let raw = raw_tree_of(sql);
    let src = encode_utf8(sql);
    if buildable(raw, src, MAX_DEPTH as nat) {
        outcome(Some(choose|t: SyntaxNode| models(t, raw, src)), strict)
    } else {
        Err(ToolError::Internal)
    }
}

proof fn lemma_models_agree(t1: SyntaxNode, t2: SyntaxNode, raw: RawNode, src: Seq<u8>, prefix: Seq<char>)
    requires
        models(t1, raw, src),
        models(t2, raw, src),
    ensures
        render(t1, prefix) == render(t2, prefix),
        has_error(t1) == has_error(t2),
    decreases raw, 1int,
{
    let k = raw.children@.len() as int;
    lemma_children_models_agree(t1, t2, raw, src, k, prefix + indent_unit());
    assert(t1.text@ == t2.text@);
    assert(t1.kind@ == t2.kind@);
}

proof fn lemma_children_models_agree(
    t1: SyntaxNode,
    t2: SyntaxNode,
    raw: RawNode,
    src: Seq<u8>,
    k: int,
    prefix: Seq<char>,
)
    requires
        0 <= k <= raw.children@.len(),
        t1.children@.len() == raw.children@.len(),
        t2.children@.len() == raw.children@.len(),
        children_model(t1, raw, k, src),
        children_model(t2, raw, k, src),
    ensures
        render_children(t1, k, prefix) == render_children(t2, k, prefix),
        children_have_error(t1, k) == children_have_error(t2, k),
    decreases raw, 0int, k,
{
    if k > 0 {
        lemma_children_models_agree(t1, t2, raw, src, k - 1, prefix);
        lemma_models_agree(t1.children@[k - 1], t2.children@[k - 1], raw.children@[k - 1], src, prefix);
    }
}

proof fn lemma_parse_outcome(sql: Seq<char>, tree: Option<SyntaxNode>, strict: bool)
    requires
        tree is Some <==> buildable(raw_tree_of(sql), encode_utf8(sql), MAX_DEPTH as nat),
        tree matches Some(t) ==> models(t, raw_tree_of(sql), encode_utf8(sql)),
    ensures
        outcome(tree, strict) == parse_outcome(sql, strict),
{
    if let Some(t) = tree {
        let raw = raw_tree_of(sql);
        let src = encode_utf8(sql);
        let c = choose|c: SyntaxNode| models(c, raw, src);
        lemma_models_agree(t, c, raw, src, Seq::empty());
    }
}

proof fn lemma_children_error_grows(n: SyntaxNode, j: int, k: int)
    requires
        0 <= j <= k <= n.children@.len(),
        children_have_error(n, j),
    ensures
        children_have_error(n, k),
    decreases k - j,
{
    if j < k {
        lemma_children_error_grows(n, j, k - 1);
    }
}

/// Whether some node of the tree rooted at `n`, at any depth, is an error node.
pub fn contains_error(n: &SyntaxNode) -> (r: bool)
    ensures
        r == has_error(*n),
    decreases n,
{
    if n.is_error {
        return true;
    }
    let mut i: usize = 0;
    while i < n.children.len()
        invariant
            i <= n.children@.len(),
            !children_have_error(*n, i as int),
        decreases n.children@.len() - i,
    {
        if contains_error(&n.children[i]) {
            proof {
                lemma_children_error_grows(*n, i + 1, n.children@.len() as int);
            }
            return true;
        }
        i = i + 1;
    }
    false
}

/// Renders `tree` unless it holds an error node.
pub fn render_strict(tree: &SyntaxNode) -> (r: Result<String, ToolError>)
    ensures
        r is Ok <==> is_clean(*tree),
        r matches Ok(s) ==> s@ == render_tree(*tree),
        r matches Err(e) ==> e == ToolError::InvalidInput,
{
    if contains_error(tree) {
        Err(ToolError::InvalidInput)
    } else {
        Ok(write_tree(tree))
    }
}

/// Answers an operation from what the engine produced.
pub fn respond(tree: Option<SyntaxNode>, strict: bool) -> (r: Result<String, ToolError>)
    ensures
        result_view(r) == outcome(tree, strict),
{
    match tree {
        None => Err(ToolError::Internal),
        Some(t) => if strict {
            render_strict(&t)
        } else {
            Ok(write_tree(&t))
        },
    }
}

/// The SQL parsing service.
#[derive(Clone, Copy, Debug)]
pub struct ParseSqlTool {}

impl ParseSqlTool {
    /// The service; it keeps no state between calls.
    pub fn new() -> (r: ParseSqlTool)
        ensures
            r == (ParseSqlTool {  }),
    {
        ParseSqlTool {  }
    }

    /// Parses `sql` and renders its tree; fails with `InvalidInput` when the
    /// tree holds an error node anywhere.
    pub fn parse_sql(sql: String) -> (r: Result<String, ToolError>)
        ensures
            result_view(r) == parse_outcome(sql@, true),
    {
        let tree = parse(sql.as_str());
        proof {
            lemma_parse_outcome(sql@, tree, true);
        }
        respond(tree, true)
    }

    /// Parses `sql` and renders its tree, error nodes included; fails only
    /// when the tree cannot be built.
    pub fn parse_sql_with_error_recovery(sql: String) -> (r: Result<String, ToolError>)
        ensures
            result_view(r) == parse_outcome(sql@, false),
            r is Ok <==> buildable(raw_tree_of(sql@), encode_utf8(sql@), MAX_DEPTH as nat),
    {
        let tree = parse(sql.as_str());
        proof {
            lemma_parse_outcome(sql@, tree, false);
        }
        respond(tree, false)
    }
}

} // verus!
