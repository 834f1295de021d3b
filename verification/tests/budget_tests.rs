use treesitter_mcp::analysis::budget::{admitted_count, estimate_limit, estimate_symbol_tokens, utf8_byte_len};
use treesitter_mcp::analysis::code_map::{admitted_files, DetailLevel, FileSymbols};
use treesitter_mcp::analysis::find_usages::{
    build_rows_with_budget, usage_header, usage_row_chars, usages_result_json, UsageRow,
};

fn row(file: &str, line: usize, context: &str) -> UsageRow {
    UsageRow {
        file: file.to_string(),
        line,
        column: 4,
        usage_type: "call".to_string(),
        context: context.to_string(),
        scope: "main".to_string(),
        confidence: "high".to_string(),
        owner_hint: None,
    }
}

#[test]
fn estimates_round_a_quarter_up() {
    assert_eq!(estimate_symbol_tokens(0), 0);
    assert_eq!(estimate_symbol_tokens(1), 1);
    assert_eq!(estimate_symbol_tokens(4), 1);
    assert_eq!(estimate_symbol_tokens(5), 2);
    assert_eq!(estimate_symbol_tokens(400), 100);
}

#[test]
fn estimate_limit_keeps_nine_tenths() {
    assert_eq!(estimate_limit(100), 90);
    assert_eq!(estimate_limit(15), 13);
    assert_eq!(estimate_limit(0), 0);
    assert_eq!(estimate_limit(usize::MAX), usize::MAX / 10);
}

#[test]
fn admission_stops_at_the_first_estimate_over_the_limit() {
    assert_eq!(admitted_count(&vec![3, 3, 3], 7), 2);
    assert_eq!(admitted_count(&vec![3, 3, 3], 9), 3);
    assert_eq!(admitted_count(&vec![8, 1, 1], 7), 0);
    assert_eq!(admitted_count(&vec![0, 5, 0], 4), 1);
    assert_eq!(admitted_count(&vec![], 4), 0);
}

#[test]
fn byte_length_counts_utf8() {
    assert_eq!(utf8_byte_len("abc"), 3);
    assert_eq!(utf8_byte_len("é"), 2);
    assert_eq!(utf8_byte_len("€x"), 4);
}

#[test]
fn row_size_sums_fields_and_separators() {
    // 5 + 2 + 1 + 4 + 3 + 4 + 4 + 0 + 7
    let u = row("a.rs", 12, "f()");
    assert_eq!(usage_row_chars(&UsageRow { file: "ab.rs".to_string(), ..u }), 30);
}

#[test]
fn unenforced_rows_keep_everything() {
    let usages = vec![row("a.rs", 1, "f()"), row("b.rs", 2, "g()")];
    let (rows, truncated) = build_rows_with_budget(&usages, "f", usage_header(), 0, false).unwrap();
    assert!(!truncated);
    assert_eq!(rows.lines().count(), 2);
}

#[test]
fn enforced_rows_drop_what_the_estimate_refuses() {
    let usages: Vec<UsageRow> = (1..=50).map(|i| row("src/main.rs", i, "call_something_long(argument)")).collect();
    let (rows, truncated) = build_rows_with_budget(&usages, "f", usage_header(), 60, true).unwrap();
    assert!(truncated);
    assert!(rows.lines().count() < 50);
    let (all, cut) = build_rows_with_budget(&usages, "f", usage_header(), 100000, true).unwrap();
    assert!(!cut);
    assert_eq!(all.lines().count(), 50);
}

#[test]
fn code_map_admission_reserves_a_quarter_for_types() {
    let files: Vec<FileSymbols> = (0..20)
        .map(|i| FileSymbols {
            path: format!("src/f{i}.rs"),
            functions: vec![format!("fn function_number_{i}(x: i32) -> i32")],
            structs: vec![],
            classes: vec![],
        })
        .collect();
    let plain = admitted_files(&files, DetailLevel::Signatures, 200, false);
    let shared = admitted_files(&files, DetailLevel::Signatures, 200, true);
    assert!(plain > 0 && plain < 20);
    assert!(shared <= plain);
    assert_eq!(admitted_files(&files, DetailLevel::Signatures, 1000000, false), 20);
}

#[test]
fn json_strings_are_escaped_as_serde_json_does() {
    let text = usages_result_json("a\"b\\c\nd\u{1}", "h", "r", false).unwrap();
    assert_eq!(text, "{\"h\":\"h\",\"sym\":\"a\\\"b\\\\c\\nd\\u0001\",\"u\":\"r\"}");
}
