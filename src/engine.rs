//! The grammar engine: tree-sitter with the SQL grammar, and the building
//! of [`SyntaxNode`]s from the tree it reports.
use vstd::prelude::*;
use vstd::string::{StringExecFns, StringSliceAdditionalSpecFns};
use vstd::utf8::{decode_utf8, encode_utf8, encode_utf8_decode_utf8, is_char_boundary};

use crate::tree::{Point, SyntaxNode};

verus! {

#[verifier::external_type_specification]
#[verifier::external_body]
pub struct ExNode<'a>(tree_sitter::Node<'a>);

/// A node as the engine reports it, in plain values: its kind, whether it
/// is an error or a missing node, its byte range and positions in the source,
/// and its children in source order.
#[derive(Debug)]
pub struct RawNode {
    pub kind: String,
    pub is_error: bool,
    pub is_missing: bool,
    pub start_byte: usize,
    pub end_byte: usize,
    pub start: Point,
    pub end: Point,
    pub children: Vec<RawNode>,
}

/// Deepest nesting of nodes that a tree may have to be built.
pub const MAX_DEPTH: usize = 100000;

/// The tree that the SQL grammar gives for `sql`.
pub uninterp spec fn raw_tree_of(sql: Seq<char>) -> RawNode;

/// Relies on tree_sitter::Parser::new, Parser::set_language with
/// tree_sitter_sql::language, and Parser::parse: the tree depends on the text
/// alone. The grammar's version lies in the range the engine accepts, and with
/// a language set and no timeout or cancellation `parse` returns a tree.
#[verifier::external_body]
fn parse_raw(sql: &str) -> (r: RawNode)
    ensures
        r == raw_tree_of(sql@),
{
    let mut parser = tree_sitter::Parser::new();
    parser.set_language(tree_sitter_sql::language()).unwrap();
    let tree = parser.parse(sql, None).unwrap();
    raw_node(tree.root_node())
}

/// Relies on tree_sitter::Node's accessors (kind, is_error, is_missing,
/// start_byte, end_byte, start_position, end_position, children): converts
/// the subtree rooted at `node` field by field.
#[verifier::external_body]
fn raw_node(node: tree_sitter::Node) -> RawNode {
    let mut cursor = node.walk();
    let (s, e) = (node.start_position(), node.end_position());
    RawNode {
        kind: node.kind().to_string(),
        is_error: node.is_error(),
        is_missing: node.is_missing(),
        start_byte: node.start_byte(),
        end_byte: node.end_byte(),
        start: Point { row: s.row, column: s.column },
        end: Point { row: e.row, column: e.column },
        children: node.children(&mut cursor).map(raw_node).collect(),
    }
}

/// Whether the bytes from `start` to `end` of `src` form whole characters.
pub open spec fn sliceable(src: Seq<u8>, start: int, end: int) -> bool {
    &&& 0 <= start <= end <= src.len()
    &&& is_char_boundary(src, end)
    &&& is_char_boundary(src.subrange(0, end), start)
}

/// Whether the tree rooted at `raw` can be built from `src`: it is nested at
/// most `depth_left` deep, and the range of every node without children is
/// sliceable.
pub open spec fn buildable(raw: RawNode, src: Seq<u8>, depth_left: nat) -> bool
    decreases raw, 1int,
{
    depth_left > 0 && if raw.children@.len() == 0 {
        sliceable(src, raw.start_byte as int, raw.end_byte as int)
    } else {
        children_buildable(raw, raw.children@.len() as int, src, (depth_left - 1) as nat)
    }
}

/// `buildable` for the subtrees of the first `k` children of `raw`.
pub open spec fn children_buildable(raw: RawNode, k: int, src: Seq<u8>, depth_left: nat) -> bool
    decreases raw, 0int, k,
{
    if 0 < k <= raw.children@.len() {
        children_buildable(raw, k - 1, src, depth_left) && buildable(
            raw.children@[k - 1],
            src,
            depth_left,
        )
    } else {
        true
    }
}

/// Whether `t` is the tree built from `raw` over `src`: same kinds, positions
/// and shape; a node is an error node when the engine marked it as an error
/// or as missing; a node without children holds the source text of its range,
/// the others no text.
pub open spec fn models(t: SyntaxNode, raw: RawNode, src: Seq<u8>) -> bool
    decreases raw, 1int,
{
    &&& t.kind@ == raw.kind@
    &&& t.is_error == (raw.is_error || raw.is_missing)
    &&& t.start == raw.start
    &&& t.end == raw.end
    &&& t.children@.len() == raw.children@.len()
    &&& if raw.children@.len() == 0 {
        t.text@ == decode_utf8(src.subrange(raw.start_byte as int, raw.end_byte as int))
    } else {
        t.text@ == Seq::<char>::empty()
    }
    &&& children_model(t, raw, raw.children@.len() as int, src)
}

/// `models` for the first `k` children of `t` and of `raw`.
pub open spec fn children_model(t: SyntaxNode, raw: RawNode, k: int, src: Seq<u8>) -> bool
    decreases raw, 0int, k,
{
    if 0 < k <= raw.children@.len() {
        children_model(t, raw, k - 1, src) && models(t.children@[k - 1], raw.children@[k - 1], src)
    } else {
        true
    }
}

/// The part of `src` between the byte offsets `start` and `end`, when both
/// lie on character boundaries.
pub fn slice_source(src: &str, start: usize, end: usize) -> (r: Option<&str>)
    ensures
        r is Some <==> sliceable(src.spec_bytes(), start as int, end as int),
        r matches Some(t) ==> t.spec_bytes() == src.spec_bytes().subrange(start as int, end as int),
{
    let len = src.as_bytes().len();
    if start <= end && end <= len && src.is_char_boundary(end) {
        let (head, _tail) = src.split_at(end);
        assert(head.spec_bytes() =~= src.spec_bytes().subrange(0, end as int));
        if head.is_char_boundary(start) {
            let (_before, text) = head.split_at(start);
            assert(text.spec_bytes() =~= src.spec_bytes().subrange(start as int, end as int));
            Some(text)
        } else {
            None
        }
    } else {
        None
    }
}

proof fn lemma_children_buildable(raw: RawNode, k: int, src: Seq<u8>, d: nat, j: int)
    requires
        0 <= j < k <= raw.children@.len(),
        children_buildable(raw, k, src, d),
    ensures
        buildable(raw.children@[j], src, d),
    decreases k,
{
    if j < k - 1 {
        lemma_children_buildable(raw, k - 1, src, d, j);
    }
}

proof fn lemma_children_model(t: SyntaxNode, raw: RawNode, k: int, src: Seq<u8>)
    requires
        0 <= k <= raw.children@.len(),
        forall|j: int| 0 <= j < k ==> models(#[trigger] t.children@[j], raw.children@[j], src),
    ensures
        children_model(t, raw, k, src),
    decreases k,
{
    if k > 0 {
        lemma_children_model(t, raw, k - 1, src);
    }
}

/// Builds the tree rooted at `raw` over `src`, the text it was parsed from.
pub fn build(raw: &RawNode, src: &str, depth_left: usize) -> (r: Option<SyntaxNode>)
    ensures
        r is Some <==> buildable(*raw, src.spec_bytes(), depth_left as nat),
        r matches Some(t) ==> models(t, *raw, src.spec_bytes()),
    decreases depth_left,
{
    if depth_left == 0 {
        return None;
    }
    let mut text = String::new();
    if raw.children.len() == 0 {
        match slice_source(src, raw.start_byte, raw.end_byte) {
            Some(t) => {
                text.append(t);
                proof {
                    encode_utf8_decode_utf8(t@);
                }
            },
            None => return None,
        }
    }
    let mut children: Vec<SyntaxNode> = Vec::new();
    let mut i: usize = 0;
    while i < raw.children.len()
        invariant
            depth_left > 0,
            i <= raw.children@.len(),
            children@.len() == i,
            forall|j: int|
                0 <= j < i ==> models(#[trigger] children@[j], raw.children@[j], src.spec_bytes()),
            children_buildable(*raw, i as int, src.spec_bytes(), (depth_left - 1) as nat),
            raw.children@.len() == 0 ==> text@ == decode_utf8(
                src.spec_bytes().subrange(raw.start_byte as int, raw.end_byte as int),
            ),
            raw.children@.len() > 0 ==> text@ == Seq::<char>::empty(),
        decreases raw.children@.len() - i,
    {
        match build(&raw.children[i], src, depth_left - 1) {
            Some(c) => children.push(c),
            None => {
                proof {
                    if buildable(*raw, src.spec_bytes(), depth_left as nat) {
                        lemma_children_buildable(
                            *raw,
                            raw.children@.len() as int,
                            src.spec_bytes(),
                            (depth_left - 1) as nat,
                            i as int,
                        );
                    }
                }
                return None;
            },
        }
        i = i + 1;
    }
    let r = SyntaxNode {
        kind: raw.kind.clone(),
        text,
        start: raw.start,
        end: raw.end,
        is_error: raw.is_error || raw.is_missing,
        children,
    };
    proof {
        lemma_children_model(r, *raw, r.children@.len() as int, src.spec_bytes());
    }
    Some(r)
}

/// Parses `sql` with the SQL grammar and builds its tree.
pub fn parse(sql: &str) -> (r: Option<SyntaxNode>)
    ensures
        r is Some <==> buildable(raw_tree_of(sql@), encode_utf8(sql@), MAX_DEPTH as nat),
        r matches Some(t) ==> models(t, raw_tree_of(sql@), encode_utf8(sql@)),
{
    let raw = parse_raw(sql);
    build(&raw, sql, MAX_DEPTH)
}

} // verus!
