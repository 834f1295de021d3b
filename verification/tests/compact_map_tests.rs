use treesitter_mcp::analysis::code_map::{DetailLevel, FileSymbols};
use treesitter_mcp::analysis::compact_map::build_compact_output_combined;

fn file(path: &str, functions: &[&str], structs: &[&str], classes: &[&str]) -> FileSymbols {
    FileSymbols {
        path: path.to_string(),
        functions: functions.iter().map(|s| s.to_string()).collect(),
        structs: structs.iter().map(|s| s.to_string()).collect(),
        classes: classes.iter().map(|s| s.to_string()).collect(),
    }
}

#[test]
fn one_file_fits_whole() {
    let files = vec![file("src/a.rs", &["main|1"], &["Point|3"], &[])];
    let (text, truncated) =
        build_compact_output_combined(&files, 1, &Vec::new(), DetailLevel::Minimal, 1000, false).unwrap();
    assert_eq!(text, "{\"src/a.rs\":{\"f\":\"main|1\",\"h\":\"name|line\",\"s\":\"Point|3\"}}");
    assert!(!truncated);
}

#[test]
fn files_not_admitted_mark_the_map_truncated() {
    let files = vec![file("b.rs", &["f|1"], &[], &[]), file("a.rs", &["g|2"], &[], &[])];
    let (text, truncated) =
        build_compact_output_combined(&files, 1, &Vec::new(), DetailLevel::Minimal, 1000, false).unwrap();
    assert_eq!(text, "{\"@\":{\"t\":true},\"b.rs\":{\"f\":\"f|1\",\"h\":\"name|line\"}}");
    assert!(truncated);
    let (all, t) =
        build_compact_output_combined(&files, 0, &Vec::new(), DetailLevel::Minimal, 1000, false).unwrap();
    assert_eq!(all, "{\"@\":{\"t\":true},\"b.rs\":{\"f\":\"f|1\",\"h\":\"name|line\"}}");
    assert!(t);
}

#[test]
fn types_go_under_their_key_in_key_order() {
    let files = vec![file("z.rs", &[], &[], &["C|4"])];
    let types = vec!["Foo|struct|z.rs|1|0".to_string()];
    let (text, truncated) =
        build_compact_output_combined(&files, 1, &types, DetailLevel::Signatures, 1000, true).unwrap();
    assert_eq!(
        text,
        "{\"types\":{\"h\":\"name|kind|file|line|usage_count\",\"rows\":\"Foo|struct|z.rs|1|0\"},\"z.rs\":{\"c\":\"C|4\",\"h\":\"name|line|sig\"}}"
    );
    assert!(!truncated);
}

#[test]
fn a_small_budget_cuts_rows_and_files() {
    let rows: Vec<String> = (0..40).map(|i| format!("function_number_{i}|{i}|fn function_number_{i}()")).collect();
    let refs: Vec<&str> = rows.iter().map(|s| s.as_str()).collect();
    let files = vec![file("a.rs", &refs, &[], &[]), file("b.rs", &refs, &[], &[])];
    let (text, truncated) =
        build_compact_output_combined(&files, 2, &Vec::new(), DetailLevel::Signatures, 60, false).unwrap();
    assert!(truncated);
    assert!(text.starts_with("{\"@\":{\"t\":true},\"a.rs\":"));
    assert!(!text.contains("b.rs"));
    assert!(!text.contains("function_number_39"));
}

use treesitter_mcp::analysis::code_map::{extract_types_from_source, sort_types_by_location};
use treesitter_mcp::analysis::find_usages::usage_header;
use treesitter_mcp::extraction::types::{TypeDefinition, TypeKind};
use treesitter_mcp::parser::Language;

fn ty(name: &str, file: &str, line: usize) -> TypeDefinition {
    TypeDefinition {
        name: name.to_string(),
        kind: TypeKind::Struct,
        file: file.to_string(),
        line,
        signature: String::new(),
        usage_count: 0,
        fields: None,
        variants: None,
        members: None,
    }
}

#[test]
fn types_sort_by_file_then_line_stably() {
    let sorted = sort_types_by_location(vec![
        ty("C", "b.rs", 3),
        ty("A", "a.rs", 9),
        ty("B", "a.rs", 2),
        ty("D", "b.rs", 3),
    ]);
    let names: Vec<&str> = sorted.iter().map(|t| t.name.as_str()).collect();
    assert_eq!(names, vec!["B", "A", "C", "D"]);
}

#[test]
fn types_are_read_from_some_languages_only() {
    let rust = extract_types_from_source("struct Point { x: i32 }\n", "p.rs", Language::Rust).unwrap();
    assert_eq!(rust.len(), 1);
    assert_eq!(rust[0].name, "Point");
    let go = extract_types_from_source("package p\ntype T struct{}\n", "p.go", Language::Go).unwrap();
    assert!(go.is_empty());
    assert_eq!(usage_header(), "file|line|col|type|context|scope|conf|owner");
}
