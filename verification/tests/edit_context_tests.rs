use treesitter_mcp::analysis::call_graph::parse_project_file;
use treesitter_mcp::analysis::comments::CommentMode;
use treesitter_mcp::analysis::edit_context::{
    find_target_symbol, import_tokens, minimal_edit_context, token_in_text, EditContextError,
};
use treesitter_mcp::analysis::shape::extract_enhanced_shape;
use treesitter_mcp::parser::{parse_code, Language};

const SRC: &str = "use std::fmt::Display;\nuse std::io;\n\nstruct Point { x: i32 }\n\n/// Doubles.\nfn double(p: Point) -> i32 {\n    helper(p.x) * 2\n}\n\nfn helper(x: i32) -> i32 {\n    x\n}\n";

fn field(json: &str, key: &str) -> Option<String> {
    let v: serde_json::Value = serde_json::from_str(json).expect("json");
    v.get(key).map(|x| x.as_str().map(|s| s.to_string()).unwrap_or_else(|| x.to_string()))
}

#[test]
fn edit_context_lists_target_deps_types_and_imports() {
    let out = minimal_edit_context("src/m.rs", "src/m.rs", SRC, "double", CommentMode::Plain, 4000, &Vec::new())
        .expect("context");
    assert_eq!(field(&out, "sym").unwrap(), "double");
    assert_eq!(field(&out, "h").unwrap(), "name|line|sig|code");
    assert_eq!(field(&out, "scope").unwrap(), "");
    let target = field(&out, "target").unwrap();
    assert!(target.starts_with("double|7|fn double(p: Point) -> i32|"), "{target}");
    assert_eq!(field(&out, "deps").unwrap(), "fn|helper|11|fn helper(x: i32) -> i32");
    assert_eq!(field(&out, "dh").unwrap(), "kind|name|line|sig");
    assert_eq!(field(&out, "types").unwrap(), "struct|Point|4|struct Point { x: i32 }");
    assert!(field(&out, "imports").is_none());
    assert!(field(&out, "@").is_none());
}

#[test]
fn edit_context_with_leading_comments() {
    let out = minimal_edit_context("m.rs", "m.rs", SRC, "double", CommentMode::Leading, 4000, &Vec::new())
        .expect("context");
    let target = field(&out, "target").unwrap();
    assert!(target.contains("/// Doubles.\\nfn double"), "{target}");
}

#[test]
fn edit_context_budget_drops_rows_and_marks_truncation() {
    let out = minimal_edit_context("m.rs", "m.rs", SRC, "double", CommentMode::Plain, 10, &Vec::new())
        .expect("context");
    assert_eq!(field(&out, "@").unwrap(), "{\"t\":true}");
    assert!(field(&out, "deps").is_none());
    assert!(field(&out, "types").is_none());
}

#[test]
fn edit_context_uses_dependency_files() {
    let dep = parse_project_file("util.rs", "pub fn helper2(x: i32) -> i32 { x }\n").expect("parse");
    let src = "fn main() { helper2(1); }\n";
    let out = minimal_edit_context("main.rs", "main.rs", src, "main", CommentMode::Plain, 4000, &vec![dep])
        .expect("context");
    assert_eq!(field(&out, "deps").unwrap(), "dep_fn|helper2|1|pub fn helper2(x: i32) -> i32");
}

#[test]
fn edit_context_errors() {
    match minimal_edit_context("m.rs", "m.rs", SRC, "nope", CommentMode::Plain, 4000, &Vec::new()) {
        Err(e @ EditContextError::SymbolNotFound { .. }) => {
            assert_eq!(e.message(), "Symbol 'nope' not found in m.rs")
        }
        other => panic!("unexpected {other:?}"),
    }
    assert!(matches!(
        minimal_edit_context("m.txt", "m.txt", SRC, "double", CommentMode::Plain, 4000, &Vec::new()),
        Err(EditContextError::Language(_))
    ));
}

#[test]
fn target_search_order() {
    let src = "class K:\n    def run(self):\n        pass\n";
    let tree = parse_code(src, Language::Python).expect("parse");
    let shape = extract_enhanced_shape(&tree, Language::Python, None, true);
    let t = find_target_symbol(&shape, "run").expect("found");
    assert_eq!(t.scope, "K");
    assert_eq!(t.line, 2);
    let k = find_target_symbol(&shape, "K").expect("class");
    assert_eq!(k.signature, "K");
    assert!(find_target_symbol(&shape, "zzz").is_none());
}

#[test]
fn tokens_of_imports_and_texts() {
    let toks: Vec<String> = import_tokens("use crate::analysis::shape as s;")
        .into_iter()
        .map(|t| t.into_iter().collect())
        .collect();
    assert_eq!(toks, vec!["analysis".to_string(), "shape".to_string()]);
    assert!(token_in_text("Point", "fn f(p: Point)"));
    assert!(!token_in_text("Poin", "fn f(p: Point)"));
}
