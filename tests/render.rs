use sql_tree::engine::{build, slice_source, RawNode};
use sql_tree::render::{push_decimal, write_tree};
use sql_tree::tool::{contains_error, render_strict, respond};
use sql_tree::{Point, SyntaxNode, ToolError};

fn pt(row: usize, column: usize) -> Point {
    Point { row, column }
}

fn leaf(kind: &str, text: &str, start: Point, end: Point) -> SyntaxNode {
    SyntaxNode {
        kind: kind.to_string(),
        text: text.to_string(),
        start,
        end,
        is_error: false,
        children: Vec::new(),
    }
}

fn inner(kind: &str, start: Point, end: Point, children: Vec<SyntaxNode>) -> SyntaxNode {
    SyntaxNode {
        kind: kind.to_string(),
        text: String::new(),
        start,
        end,
        is_error: false,
        children,
    }
}

fn select_one() -> SyntaxNode {
    inner(
        "source_file",
        pt(0, 0),
        pt(0, 8),
        vec![inner(
            "select",
            pt(0, 0),
            pt(0, 8),
            vec![
                leaf("SELECT", "SELECT", pt(0, 0), pt(0, 6)),
                leaf("number", "1", pt(0, 7), pt(0, 8)),
            ],
        )],
    )
}

#[test]
fn renders_tree_in_preorder() {
    let expected = "source_file [(0, 0)-(0, 8)]\n\
                    --select [(0, 0)-(0, 8)]\n\
                    ----SELECT \"SELECT\" [(0, 0)-(0, 6)]\n\
                    ----number \"1\" [(0, 7)-(0, 8)]\n";
    assert_eq!(write_tree(&select_one()), expected);
}

#[test]
fn rendering_twice_gives_same_text() {
    let t = select_one();
    assert_eq!(write_tree(&t), write_tree(&t));
}

#[test]
fn one_line_per_node() {
    let out = write_tree(&select_one());
    assert_eq!(out.lines().count(), 4);
}

#[test]
fn only_leaf_lines_are_quoted() {
    let out = write_tree(&select_one());
    let lines: Vec<&str> = out.lines().collect();
    assert!(!lines[0].contains('"'));
    assert!(!lines[1].contains('"'));
    assert!(lines[2].contains("\"SELECT\""));
    assert!(lines[3].contains("\"1\""));
}

#[test]
fn multi_digit_positions() {
    let t = leaf("identifier", "naïve", pt(12, 305), pt(12, 311));
    assert_eq!(write_tree(&t), "identifier \"naïve\" [(12, 305)-(12, 311)]\n");
}

#[test]
fn decimal_notation() {
    let mut s = String::from("x");
    push_decimal(&mut s, 0);
    push_decimal(&mut s, 907);
    push_decimal(&mut s, usize::MAX);
    assert_eq!(s, format!("x0907{}", usize::MAX));
}

#[test]
fn empty_root_is_single_line() {
    let t = leaf("source_file", "", pt(0, 0), pt(0, 0));
    assert_eq!(write_tree(&t), "source_file \"\" [(0, 0)-(0, 0)]\n");
}

#[test]
fn deep_error_is_found() {
    let mut t = select_one();
    assert!(!contains_error(&t));
    t.children[0].children[1].is_error = true;
    assert!(contains_error(&t));
}

#[test]
fn strict_refuses_error_tree() {
    let mut t = select_one();
    t.children[0].children[0].kind = "ERROR".to_string();
    t.children[0].children[0].is_error = true;
    assert_eq!(render_strict(&t), Err(ToolError::InvalidInput));
    let tolerant = respond(Some(t), false).unwrap();
    assert!(tolerant.contains("----ERROR \"SELECT\" [(0, 0)-(0, 6)]\n"));
}

#[test]
fn strict_and_tolerant_agree_on_clean_tree() {
    let strict = respond(Some(select_one()), true);
    let tolerant = respond(Some(select_one()), false);
    assert!(strict.is_ok());
    assert_eq!(strict, tolerant);
}

#[test]
fn engine_failure_is_internal() {
    assert_eq!(respond(None, true), Err(ToolError::Internal));
    assert_eq!(respond(None, false), Err(ToolError::Internal));
}

#[test]
fn error_messages() {
    assert_eq!(ToolError::InvalidInput.message(), "Failed to parse sql");
    assert_eq!(
        ToolError::Internal.message(),
        "Internal error while rendering the syntax tree"
    );
}

#[test]
fn slices_on_char_boundaries() {
    assert_eq!(slice_source("héllo", 1, 3), Some("é"));
    assert_eq!(slice_source("héllo", 0, 6), Some("héllo"));
    assert_eq!(slice_source("héllo", 1, 2), None);
    assert_eq!(slice_source("héllo", 2, 3), None);
    assert_eq!(slice_source("héllo", 3, 2), None);
    assert_eq!(slice_source("héllo", 0, 7), None);
}

fn raw(kind: &str, start_byte: usize, end_byte: usize, children: Vec<RawNode>) -> RawNode {
    RawNode {
        kind: kind.to_string(),
        is_error: false,
        is_missing: false,
        start_byte,
        end_byte,
        start: pt(0, start_byte),
        end: pt(0, end_byte),
        children,
    }
}

#[test]
fn build_copies_the_engine_tree() {
    let mut missing = raw(")", 3, 3, Vec::new());
    missing.is_missing = true;
    let r = raw("list", 0, 3, vec![raw("word", 0, 3, Vec::new()), missing]);
    let t = build(&r, "héx", 10).unwrap();
    assert_eq!(t.kind, "list");
    assert_eq!(t.text, "");
    assert!(!t.is_error);
    assert_eq!(t.children.len(), 2);
    assert_eq!(t.children[0].text, "hé");
    assert_eq!(t.children[0].end, pt(0, 3));
    assert!(t.children[1].is_error);
    assert_eq!(t.children[1].text, "");
}

#[test]
fn build_refuses_unsliceable_leaf() {
    let r = raw("list", 0, 3, vec![raw("word", 0, 2, Vec::new())]);
    assert!(build(&r, "héx", 10).is_none());
    assert!(build(&raw("word", 2, 9, Vec::new()), "héx", 10).is_none());
}

#[test]
fn build_refuses_too_deep_tree() {
    let r = raw("a", 0, 1, vec![raw("b", 0, 1, vec![raw("c", 0, 1, Vec::new())])]);
    assert!(build(&r, "x", 2).is_none());
    assert!(build(&r, "x", 3).is_some());
    assert!(build(&r, "x", 0).is_none());
}
