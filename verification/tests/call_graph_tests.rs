use treesitter_mcp::analysis::call_graph::{
    call_graph, parse_direction, parse_project_file, CallGraphError, Direction, ParsedFile,
};
use treesitter_mcp::rows::{decimal_string, format_row};

const CALL_GRAPH_SRC: &str = r#"module Lib where

import Data.List (sort)

helper :: [Int] -> [Int]
helper xs = sort xs

process :: [Int] -> [Int]
process xs = map negate xs

runAll :: [Int] -> [Int]
runAll xs = helper (process xs)
"#;

fn parsed(path: &str, source: &str) -> Vec<ParsedFile> {
    vec![parse_project_file(path, source).expect("parse")]
}

fn edges_of(json: &str) -> Vec<Vec<String>> {
    let value: serde_json::Value = serde_json::from_str(json).expect("json");
    let edges = value["edges"].as_str().expect("edges").to_string();
    if edges.is_empty() {
        return Vec::new();
    }
    edges
        .split('\n')
        .map(|row| row.split('|').map(|f| f.to_string()).collect())
        .collect()
}

#[test]
fn haskell_call_graph_resolves_curried_callees_and_callers() {
    let files = parsed("Lib.hs", CALL_GRAPH_SRC);
    let out = call_graph(&files, "Lib.hs", "runAll", Direction::Callees, 1, 4000).expect("graph");
    let rows = edges_of(&out);
    let callees: Vec<&str> = rows
        .iter()
        .filter(|r| r[0] == "callee")
        .map(|r| r[1].as_str())
        .collect();
    assert!(callees.contains(&"helper"), "callees were {callees:?}");
    assert!(callees.contains(&"process"), "callees were {callees:?}");

    let out = call_graph(&files, "Lib.hs", "helper", Direction::Callers, 1, 4000).expect("graph");
    let rows = edges_of(&out);
    let callers: Vec<&str> = rows
        .iter()
        .filter(|r| r[0] == "caller")
        .map(|r| r[1].as_str())
        .collect();
    assert!(callers.contains(&"runAll"), "callers were {callers:?}");
}

#[test]
fn call_graph_rows_are_sorted_with_the_header() {
    let src = "fn a() { b(); c(); }\nfn b() { c(); }\nfn c() {}\n";
    let files = parsed("src/lib.rs", src);
    let out = call_graph(&files, "src/lib.rs", "a", Direction::Both, 2, 4000).expect("graph");
    assert_eq!(
        out,
        "{\"edges\":\"callee|b|src/lib.rs|2||1\\ncallee|c|src/lib.rs|3||1\\ncallee|c|src/lib.rs|3||2\",\"h\":\"direction|symbol|file|line|scope|depth\",\"sym\":\"a\"}"
    );
}

#[test]
fn call_graph_callers_at_depth_two() {
    let src = "fn a() { b(); }\nfn b() { c(); }\nfn c() {}\n";
    let files = parsed("m.rs", src);
    let out = call_graph(&files, "m.rs", "c", Direction::Callers, 2, 4000).expect("graph");
    let rows = edges_of(&out);
    assert_eq!(rows.len(), 2);
    assert_eq!(rows[0], vec!["caller", "b", "m.rs", "2", "", "1"]);
    assert_eq!(rows[1], vec!["caller", "a", "m.rs", "1", "", "2"]);
}

#[test]
fn call_graph_depth_is_clamped_and_cycles_stop() {
    let src = "fn a() { b(); }\nfn b() { a(); }\n";
    let files = parsed("m.rs", src);
    let out = call_graph(&files, "m.rs", "a", Direction::Callees, 9, 4000).expect("graph");
    let rows = edges_of(&out);
    assert_eq!(rows.len(), 2);
    assert_eq!(rows[0], vec!["callee", "b", "m.rs", "2", "", "1"]);
    assert_eq!(rows[1], vec!["callee", "a", "m.rs", "1", "", "2"]);
}

#[test]
fn call_graph_budget_truncates_from_the_end() {
    let src = "fn a() { b(); c(); d(); e(); }\nfn b() {}\nfn c() {}\nfn d() {}\nfn e() {}\n";
    let files = parsed("m.rs", src);
    let full = call_graph(&files, "m.rs", "a", Direction::Callees, 1, 4000).expect("graph");
    assert_eq!(edges_of(&full).len(), 4);
    let cut = call_graph(&files, "m.rs", "a", Direction::Callees, 1, 40).expect("graph");
    assert!(cut.starts_with("{\"@\":{\"t\":true},"), "{cut}");
    let rows = edges_of(&cut);
    assert!(rows.len() < 4);
    for (i, row) in rows.iter().enumerate() {
        assert_eq!(row, &edges_of(&full)[i]);
    }
    let none = call_graph(&files, "m.rs", "a", Direction::Callees, 1, 1).expect("graph");
    assert_eq!(
        none,
        "{\"@\":{\"t\":true},\"edges\":\"\",\"h\":\"direction|symbol|file|line|scope|depth\",\"sym\":\"a\"}"
    );
}

#[test]
fn call_graph_prefers_definitions_in_the_same_file() {
    let files = vec![
        parse_project_file("x.rs", "fn helper() {}\n").expect("parse"),
        parse_project_file("y.rs", "fn main() { helper(); }\nfn helper() {}\n").expect("parse"),
    ];
    let out = call_graph(&files, "y.rs", "main", Direction::Callees, 1, 4000).expect("graph");
    let rows = edges_of(&out);
    assert_eq!(rows, vec![vec!["callee", "helper", "y.rs", "2", "", "1"]]);
}

#[test]
fn call_graph_reports_a_missing_symbol() {
    let files = parsed("m.rs", "fn a() {}\n");
    match call_graph(&files, "m.rs", "zzz", Direction::Both, 1, 4000) {
        Err(e @ CallGraphError::SymbolNotFound { .. }) => {
            assert_eq!(e.message(), "Symbol 'zzz' not found in m.rs")
        }
        other => panic!("unexpected {other:?}"),
    }
}

#[test]
fn directions_parse_or_fail() {
    assert!(matches!(parse_direction("callers"), Ok(Direction::Callers)));
    assert!(matches!(parse_direction("callees"), Ok(Direction::Callees)));
    assert!(matches!(parse_direction("both"), Ok(Direction::Both)));
    match parse_direction("up") {
        Err(e) => assert_eq!(
            e.message(),
            "Invalid direction 'up', expected callers, callees, or both"
        ),
        Ok(_) => panic!("accepted"),
    }
}

#[test]
fn methods_carry_their_scope() {
    let src = "class S:\n    def run(self):\n        self.step()\n\n    def step(self):\n        pass\n";
    let files = parsed("s.py", src);
    let out = call_graph(&files, "s.py", "run", Direction::Callees, 1, 4000).expect("graph");
    assert_eq!(edges_of(&out), vec![vec!["callee", "step", "s.py", "5", "S", "1"]]);
}

#[test]
fn rows_escape_separators() {
    let fields = vec![
        "a|b".to_string(),
        "c\\d".to_string(),
        "e\nf".to_string(),
        "g\rh".to_string(),
    ];
    assert_eq!(format_row(&fields), "a\\|b|c\\\\d|e\\nf|g\\rh");
    assert_eq!(decimal_string(0), "0");
    assert_eq!(decimal_string(4070), "4070");
}

#[test]
fn unsupported_files_are_not_parsed() {
    assert!(parse_project_file("notes.txt", "hello").is_none());
    assert!(parse_project_file("Makefile", "all:").is_none());
}
