use treesitter_mcp::analysis::code_map::{
    build_compact_file, build_types_output, file_symbols, matches_pattern, sort_by_symbol_count,
    type_kind_str, type_rows, DetailLevel, FileSymbols,
};
use treesitter_mcp::analysis::shape::extract_enhanced_shape;
use treesitter_mcp::extraction::types::TypeKind;
use treesitter_mcp::parser::{parse_code, Language};

#[test]
fn detail_levels_and_headers() {
    assert_eq!(DetailLevel::from_str("minimal"), DetailLevel::Minimal);
    assert_eq!(DetailLevel::from_str("full"), DetailLevel::Full);
    assert_eq!(DetailLevel::from_str("signatures"), DetailLevel::Signatures);
    assert_eq!(DetailLevel::from_str("other"), DetailLevel::Signatures);
    assert_eq!(DetailLevel::Minimal.header(), "name|line");
    assert_eq!(DetailLevel::Signatures.header(), "name|line|sig");
    assert_eq!(DetailLevel::Full.header(), "name|line|sig|doc|code");
    assert_eq!(type_kind_str(TypeKind::TypedDict), "typed_dict");
    assert_eq!(type_kind_str(TypeKind::NamedTuple), "named_tuple");
    assert_eq!(type_kind_str(TypeKind::TypeAlias), "type_alias");
}

#[test]
fn compact_file_rows() {
    let src = "struct P { x: i32 }\n\nfn f(a: i32) -> i32 { a }\n";
    let tree = parse_code(src, Language::Rust).expect("parse");
    let shape = extract_enhanced_shape(&tree, Language::Rust, None, false);
    let file = file_symbols("src/a.rs", &shape, DetailLevel::Signatures);
    assert_eq!(file.functions, vec!["f|3|fn f(a: i32) -> i32".to_string()]);
    assert_eq!(file.structs, vec!["P|1|".to_string()]);
    let json = build_compact_file(&file, DetailLevel::Signatures).expect("json");
    assert_eq!(json, "{\"f\":\"f|3|fn f(a: i32) -> i32\",\"h\":\"name|line|sig\",\"s\":\"P|1|\"}");
    let minimal = file_symbols("src/a.rs", &shape, DetailLevel::Minimal);
    assert_eq!(minimal.functions, vec!["f|3".to_string()]);
}

#[test]
fn files_sorted_by_symbol_count() {
    let mk = |p: &str, n: usize| FileSymbols {
        path: p.to_string(),
        functions: vec!["x".to_string(); n],
        structs: Vec::new(),
        classes: Vec::new(),
    };
    let sorted = sort_by_symbol_count(vec![mk("a", 1), mk("b", 3), mk("c", 1), mk("d", 2)]);
    let order: Vec<&str> = sorted.iter().map(|f| f.path.as_str()).collect();
    assert_eq!(order, vec!["b", "d", "a", "c"]);
}

#[test]
fn type_rows_and_output() {
    let src = "struct User { id: u64 }\n";
    let types = treesitter_mcp::extraction::rust_types::extract_rust_types(src, "u.rs").expect("types");
    let rows = type_rows(&types);
    assert_eq!(rows, vec!["User|struct|u.rs|1|0".to_string()]);
    let out = build_types_output(&rows, true).expect("json");
    assert_eq!(out, "{\"h\":\"name|kind|file|line|usage_count\",\"rows\":\"User|struct|u.rs|1|0\"}");
    let none = build_types_output(&rows, false).expect("json");
    assert_eq!(none, "{\"h\":\"name|kind|file|line|usage_count\"}");
}

#[test]
fn patterns_match_names_or_paths() {
    assert!(matches_pattern("src/a/lib.rs", "*.rs"));
    assert!(!matches_pattern("src/a/lib.py", "*.rs"));
    assert!(matches_pattern("src/a/lib.rs", "src/**/*.rs"));
    assert!(!matches_pattern("src/a/lib.rs", "["));
}
