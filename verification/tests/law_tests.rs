use treesitter_mcp::analysis::shape::{extract_enhanced_shape, EnhancedFunctionInfo};
use treesitter_mcp::extraction::collect::{extract_types, extract_types_from_file, ProjectFile, TypesError};
use treesitter_mcp::project_root::{manifest_in, root_search_start, root_search_step, RootStep};
use treesitter_mcp::extraction::types::LimitHit;
use treesitter_mcp::parser::{parse_code, Language};

fn check_function(f: &EnhancedFunctionInfo, with_code: bool) {
    assert!(1 <= f.line && f.line <= f.end_line, "{} {}..{}", f.name, f.line, f.end_line);
    if !with_code {
        assert!(f.code.is_none());
    }
}

#[test]
fn shape_entries_end_after_they_begin() {
    let cases = [
        (Language::Rust, "struct P {\n    x: i32,\n}\n\nimpl P {\n    fn get(&self) -> i32 {\n        self.x\n    }\n}\n\ntrait T {\n    fn t(&self);\n}\n\nfn main() {}\n"),
        (Language::Python, "class A:\n    def m(self):\n        return 1\n\ndef f():\n    pass\n"),
        (Language::TypeScript, "interface I {\n  a(): void;\n}\nclass C {\n  m() {\n    return 1;\n  }\n}\nfunction g() {}\n"),
        (Language::Java, "class K {\n  void run() {\n    int x = 1;\n  }\n}\n"),
        (Language::Go, "package p\n\n// G does it.\nfunc G() {\n}\n\ntype S struct {\n\tX int\n}\n"),
        (Language::Haskell, "module M where\n\nf :: Int -> Int\nf x = x\n\ndata D = D Int\n"),
    ];
    for (language, source) in cases {
        let tree = parse_code(source, language).unwrap();
        for with_code in [false, true] {
            let shape = extract_enhanced_shape(&tree, language, None, with_code);
            assert!(!(shape.functions.is_empty() && shape.classes.is_empty() && shape.structs.is_empty()));
            for f in &shape.functions {
                check_function(f, with_code);
            }
            for c in &shape.classes {
                assert!(1 <= c.line && c.line <= c.end_line);
                assert!(with_code || c.code.is_none());
                for m in &c.methods {
                    check_function(m, with_code);
                }
            }
            for s in &shape.structs {
                assert!(1 <= s.line && s.line <= s.end_line);
                assert!(with_code || s.code.is_none());
            }
            for b in &shape.impl_blocks {
                assert!(1 <= b.line && b.line <= b.end_line);
                for m in &b.methods {
                    assert!(1 <= m.line && m.line <= m.end_line);
                    assert!(with_code || m.code.is_none());
                }
            }
            for t in &shape.traits {
                assert!(1 <= t.line && t.line <= t.end_line);
            }
            for i in &shape.interfaces {
                assert!(1 <= i.line && i.line <= i.end_line);
            }
        }
    }
}

#[test]
fn parsed_nodes_lie_within_their_parents() {
    let source = "fn main() {\n    let s = \"héllo\";\n    println!(\"{}\", s);\n}\n";
    let tree = parse_code(source, Language::Rust).unwrap();
    assert!(tree.nodes.len() > 5);
    assert!(tree.nodes[0].parent.is_none());
    for node in &tree.nodes[1..] {
        let p = &tree.nodes[node.parent.unwrap()];
        assert!(p.start <= node.start && node.end <= p.end);
        assert!(node.start_row <= node.end_row);
    }
}

#[test]
fn truncated_extraction_met_more_types_than_it_kept() {
    let files = vec![
        ProjectFile { path: "a.rs".to_string(), content: Some("struct A;\nstruct B;\n".to_string()) },
        ProjectFile { path: "b.rs".to_string(), content: Some("struct C;\n".to_string()) },
    ];
    let r = extract_types(&files, None, 1).unwrap();
    assert!(r.truncated);
    assert_eq!(r.limit_hit, Some(LimitHit::TypeLimit));
    assert_eq!(r.types_included, 1);
    assert!(r.total_types > r.types_included);
    let all = extract_types(&files, None, 0).unwrap();
    assert!(!all.truncated);
    assert_eq!(all.total_types, all.types_included);
    assert_eq!(all.types.len(), 3);
}

#[test]
fn refused_patterns_fail_the_extraction() {
    let files = vec![ProjectFile { path: "a.rs".to_string(), content: Some("struct A;\n".to_string()) }];
    assert!(matches!(extract_types(&files, Some("a["), 0), Err(TypesError::PatternRejected)));
    assert!(matches!(extract_types_from_file(&files[0], Some("a["), 0), Err(TypesError::PatternRejected)));
    let ok = extract_types(&files, Some("*.rs"), 0).unwrap();
    assert_eq!(ok.types.len(), 1);
    let none = extract_types(&files, Some("*.py"), 0).unwrap();
    assert!(none.types.is_empty());
}

#[test]
fn extracted_types_carry_no_usage_count() {
    let files = vec![
        ProjectFile { path: "a.rs".to_string(), content: Some("struct A;\nenum E { X }\nimpl A { fn f(&self) {} }\n".to_string()) },
        ProjectFile { path: "b.py".to_string(), content: Some("class B:\n    x: int\n".to_string()) },
        ProjectFile { path: "c.go".to_string(), content: Some("package c\n\ntype C struct {\n\tN int\n}\n".to_string()) },
    ];
    let r = extract_types(&files, None, 0).unwrap();
    assert!(r.types.len() >= 4);
    assert!(r.types.iter().all(|t| t.usage_count == 0));
}

#[test]
fn root_search_walks_up_until_a_manifest() {
    assert_eq!(root_search_start("/p/src/main.rs", false), Some("/p/src".to_string()));
    assert_eq!(root_search_start("/p/src", true), Some("/p/src".to_string()));
    assert_eq!(manifest_in("/p"), "/p/Cargo.toml");
    assert_eq!(root_search_step("/p/src", false), RootStep::Up("/p".to_string()));
    assert_eq!(root_search_step("/p", true), RootStep::Found("/p".to_string()));
    assert_eq!(root_search_step("/", false), RootStep::NotFound);
}
