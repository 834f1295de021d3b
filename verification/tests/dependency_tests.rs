use treesitter_mcp::analysis::dependencies::{
    first_rust_path_segment, go_import_paths, groups_from_tree, haskell_source_roots, join_paths,
    go_package_files, parent_of, push_haskell_module, push_python_module, read_go_module_path,
    resolve_go_import, resolve_js_ts_spec, rust_crate_src_root, rust_use_crate_modules,
    rust_use_modules, select_dependencies, trim_quote_chars, with_extension, PickRule,
};
use treesitter_mcp::analysis::resolve::{push_go_package_files, PathFacts};
use treesitter_mcp::parser::{parse_code, Language};

#[test]
fn rust_path_segments() {
    assert_eq!(first_rust_path_segment("  foo::bar"), Some("foo".to_string()));
    assert_eq!(first_rust_path_segment("::x"), None);
    assert_eq!(rust_use_crate_modules("analysis::shape::X;"), vec!["analysis".to_string()]);
    assert_eq!(
        rust_use_crate_modules("{parser::Language, analysis::shape};"),
        vec!["parser".to_string(), "analysis".to_string()]
    );
    let src = "use std::io;\nuse crate::parser::Language;\n  use crate::{a::X, b};\nfn main() {}\n";
    assert_eq!(
        rust_use_modules(src),
        vec!["parser".to_string(), "a".to_string(), "b".to_string()]
    );
}

#[test]
fn paths_join_and_extend() {
    assert_eq!(join_paths("src", "a.rs"), "src/a.rs");
    assert_eq!(join_paths("src/", "a.rs"), "src/a.rs");
    assert_eq!(join_paths("", "a.rs"), "a.rs");
    assert_eq!(join_paths("src", "/abs"), "/abs");
    assert_eq!(parent_of("src/a.rs"), Some("src".to_string()));
    assert_eq!(parent_of("a.rs"), Some(String::new()));
    assert_eq!(parent_of("/a"), Some("/".to_string()));
    assert_eq!(parent_of(""), None);
    assert_eq!(with_extension("dir/./utils", "ts"), "dir/./utils.ts");
    assert_eq!(with_extension("dir/utils.js", "ts"), "dir/utils.ts");
    assert_eq!(with_extension("dir/..", "ts"), "dir/..");
    assert_eq!(rust_crate_src_root("p/src/a/b.rs", "p", false), "p/src");
    assert_eq!(rust_crate_src_root("p/x/b.rs", "p", true), "p/src");
    assert_eq!(rust_crate_src_root("p/x/b.rs", "p", false), "p");
}

#[test]
fn candidates_per_language() {
    assert_eq!(
        push_python_module("pkg", "a.b"),
        vec!["pkg/a/b.py".to_string(), "pkg/a/b/__init__.py".to_string()]
    );
    let js = resolve_js_ts_spec("./util", "src");
    assert_eq!(js[0], "src/./util.ts");
    assert_eq!(js[6], "src/./util/index.ts");
    assert_eq!(js[10], "src/./util");
    assert_eq!(js.len(), 11);
    assert_eq!(trim_quote_chars("'./x'"), "./x");
    assert_eq!(
        push_haskell_module(&vec!["r".to_string(), "r/src".to_string()], "My.Util"),
        vec!["r/My/Util.hs".to_string(), "r/src/My/Util.hs".to_string()]
    );
}

#[test]
fn selection_rules() {
    let groups = vec![
        vec!["a".to_string(), "b".to_string()],
        vec!["b".to_string()],
        vec!["c".to_string(), "a".to_string()],
    ];
    let exists = vec![vec![false, true], vec![true], vec![true, true]];
    assert_eq!(
        select_dependencies(&groups, &exists, PickRule::FirstExisting),
        vec!["b".to_string(), "b".to_string(), "c".to_string()]
    );
    assert_eq!(
        select_dependencies(&groups, &exists, PickRule::FirstExistingOnce),
        vec!["b".to_string(), "c".to_string()]
    );
    let hs = vec![vec!["x".to_string(), "y".to_string()], vec!["x".to_string(), "y".to_string()]];
    let all = vec![vec![true, true], vec![true, true]];
    assert_eq!(
        select_dependencies(&hs, &all, PickRule::FirstExistingUnseen),
        vec!["x".to_string(), "y".to_string()]
    );
}

#[test]
fn haskell_dependencies_resolve_module_imports() {
    let main_src = "module Main where\n\nimport My.Util (helper)\nimport qualified My.Data as D\nimport Data.List (sort)\n\nmain :: IO ()\nmain = print (helper 1)\n";
    let tree = parse_code(main_src, Language::Haskell).expect("parse");
    let roots_c = haskell_source_roots("proj/src/Main.hs", "proj");
    assert_eq!(
        roots_c,
        vec![
            "proj/src".to_string(),
            "proj".to_string(),
            "proj/src".to_string(),
            "proj/lib".to_string(),
            "proj".to_string()
        ]
    );
    let singles: Vec<Vec<String>> = roots_c.iter().map(|r| vec![r.clone()]).collect();
    let is_dir: Vec<Vec<bool>> = roots_c.iter().map(|r| vec![r != "proj/lib"]).collect();
    let roots = select_dependencies(&singles, &is_dir, PickRule::FirstExistingOnce);
    assert_eq!(roots, vec!["proj/src".to_string(), "proj".to_string()]);
    let (groups, rule) =
        groups_from_tree(&tree, Language::Haskell, main_src, "proj/src/Main.hs", "proj", false, &roots)
            .expect("groups");
    let existing = ["proj/src/My/Util.hs", "proj/src/My/Data.hs"];
    let flags: Vec<Vec<bool>> = groups
        .iter()
        .map(|g| g.iter().map(|p| existing.contains(&p.as_str())).collect())
        .collect();
    let deps = select_dependencies(&groups, &flags, rule);
    assert!(deps.iter().any(|p| p.ends_with("My/Util.hs")), "deps: {deps:?}");
    assert!(deps.iter().any(|p| p.ends_with("My/Data.hs")), "deps: {deps:?}");
    assert_eq!(deps.len(), 2, "expected exactly two local deps, got {deps:?}");
}

#[test]
fn rust_groups_from_mods_and_uses() {
    let src = "mod a;\nmod b { }\nuse crate::c::X;\n";
    let tree = parse_code(src, Language::Rust).expect("parse");
    let (groups, rule) =
        groups_from_tree(&tree, Language::Rust, src, "p/src/lib.rs", "p", false, &Vec::new())
            .expect("groups");
    assert_eq!(rule, PickRule::FirstExistingOnce);
    assert_eq!(
        groups,
        vec![
            vec!["p/src/a.rs".to_string(), "p/src/a/mod.rs".to_string()],
            vec!["p/src/c.rs".to_string()],
            vec!["p/src/c/mod.rs".to_string()],
        ]
    );
}

#[test]
fn go_imports_and_packages() {
    let src = "package main\n\nimport (\n\t\"fmt\"\n\t\"example.com/app/util\"\n\t\"./local\"\n)\n";
    let tree = parse_code(src, Language::Go).expect("parse");
    let paths = go_import_paths(&tree);
    assert_eq!(paths, vec!["fmt".to_string(), "example.com/app/util".to_string(), "./local".to_string()]);
    let module = read_go_module_path("// c\nmodule example.com/app\n\ngo 1.21\n");
    assert_eq!(module, Some("example.com/app".to_string()));
    assert_eq!(resolve_go_import("fmt", "p/cmd", "p", Some("example.com/app")), None);
    assert_eq!(
        resolve_go_import("example.com/app/util", "p/cmd", "p", Some("example.com/app")),
        Some("p/util".to_string())
    );
    assert_eq!(resolve_go_import("./local", "p/cmd", "p", None), Some("p/cmd/./local".to_string()));
    let mut seen = Vec::new();
    let listing = vec![
        "p/util/b.go".to_string(),
        "p/util/a.go".to_string(),
        "p/util/a_test.go".to_string(),
        "p/util/README.md".to_string(),
    ];
    let sorted = go_package_files(&listing);
    assert_eq!(sorted, vec!["p/util/a.go".to_string(), "p/util/b.go".to_string()]);
    let facts = PathFacts {
        kinds: Vec::new(),
        listings: Vec::new(),
        go_mod_read: false,
        go_mod: None,
        canonical: Vec::new(),
    };
    let files = push_go_package_files(&sorted, &facts, "p/util/b.go", &mut seen);
    assert_eq!(files, vec!["p/util/a.go".to_string()]);
    let again = push_go_package_files(&sorted, &facts, "p/other.go", &mut seen);
    assert_eq!(again, vec!["p/util/b.go".to_string()]);
}
