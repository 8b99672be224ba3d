use sql_tree::engine::parse;
use sql_tree::{ParseSqlTool, ToolError};

#[test]
fn incomplete_statement_is_refused() {
    assert_eq!(
        ParseSqlTool::parse_sql("SELECT 1 FROM".to_string()),
        Err(ToolError::InvalidInput)
    );
}

#[test]
fn incomplete_statement_is_rendered_with_recovery() {
    let out = ParseSqlTool::parse_sql_with_error_recovery("SELECT 1 FROM".to_string()).unwrap();
    assert!(out.starts_with("source_file [(0, 0)-(0, 13)]\n"));
    assert!(out.contains("\n--ERROR [(0, 9)-(0, 13)]\n----FROM \"FROM\" [(0, 9)-(0, 13)]\n"));
    assert!(out.contains("------SELECT \"SELECT\" [(0, 0)-(0, 6)]\n"));
    let tree = parse("SELECT 1 FROM").unwrap();
    assert!(sql_tree::tool::contains_error(&tree));
}

#[test]
fn keyword_leaf_has_its_span() {
    let out = ParseSqlTool::parse_sql_with_error_recovery("SELECT".to_string()).unwrap();
    assert!(out.contains("SELECT \"SELECT\" [(0, 0)-(0, 6)]\n"));
}

#[test]
fn misspelled_keyword_is_an_error_leaf() {
    let out = ParseSqlTool::parse_sql_with_error_recovery("SELEC 1".to_string()).unwrap();
    assert_eq!(
        out,
        "source_file [(0, 0)-(0, 7)]\n--ERROR [(0, 0)-(0, 7)]\n----ERROR \"SELEC\" [(0, 0)-(0, 5)]\n----number \"1\" [(0, 6)-(0, 7)]\n"
    );
    assert_eq!(ParseSqlTool::parse_sql("SELEC 1".to_string()), Err(ToolError::InvalidInput));
}

#[test]
fn missing_token_is_refused_by_strict_mode() {
    let out = ParseSqlTool::parse_sql_with_error_recovery("SELECT (1".to_string()).unwrap();
    assert!(out.contains("--------) \"\" [(0, 9)-(0, 9)]\n"));
    assert_eq!(ParseSqlTool::parse_sql("SELECT (1".to_string()), Err(ToolError::InvalidInput));
}

#[test]
fn select_one_is_accepted() {
    let out = ParseSqlTool::parse_sql("SELECT 1".to_string()).unwrap();
    assert!(out.lines().count() > 1);
    let first = out.lines().next().unwrap();
    assert!(first.ends_with(" [(0, 0)-(0, 8)]"));
    assert!(!first.starts_with('-'));
    assert!(out.contains("\"1\""));
}

#[test]
fn strict_and_tolerant_agree_on_valid_sql() {
    let strict = ParseSqlTool::parse_sql("SELECT 1".to_string());
    let tolerant = ParseSqlTool::parse_sql_with_error_recovery("SELECT 1".to_string());
    assert!(strict.is_ok());
    assert_eq!(strict, tolerant);
}

#[test]
fn empty_input_gives_root_only() {
    let tolerant = ParseSqlTool::parse_sql_with_error_recovery(String::new()).unwrap();
    assert_eq!(tolerant.lines().count(), 1);
    assert!(tolerant.ends_with(" [(0, 0)-(0, 0)]\n"));
    let strict = ParseSqlTool::parse_sql(String::new());
    assert_eq!(strict, Ok(tolerant));
}

fn count(n: &sql_tree::SyntaxNode) -> usize {
    1 + n.children.iter().map(count).sum::<usize>()
}

#[test]
fn lines_match_node_count_of_parsed_tree() {
    let tree = parse("SELECT a, b FROM t WHERE a = 1").unwrap();
    let out = sql_tree::render::write_tree(&tree);
    assert_eq!(out.lines().count(), count(&tree));
}

#[test]
fn new_tool() {
    let _tool = ParseSqlTool::new();
}

