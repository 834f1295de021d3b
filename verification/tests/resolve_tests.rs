use treesitter_mcp::analysis::resolve::{
    resolve_dependencies, CanonicalFact, KindFact, ListingFact, PathFacts, PathKind, Question,
};
use treesitter_mcp::parser::Language;

fn no_facts() -> PathFacts {
    PathFacts {
        kinds: Vec::new(),
        listings: Vec::new(),
        go_mod_read: false,
        go_mod: None,
        canonical: Vec::new(),
    }
}

/// A small disk: its files, its directories, its listings and `go.mod`.
struct Disk {
    files: Vec<&'static str>,
    dirs: Vec<&'static str>,
    listings: Vec<(&'static str, Vec<&'static str>)>,
    go_mod: Option<&'static str>,
}

fn answer(disk: &Disk, facts: &mut PathFacts, questions: &[Question]) {
    for q in questions {
        match q {
            Question::Kind(p) => {
                let kind = if disk.files.contains(&p.as_str()) {
                    PathKind::File
                } else if disk.dirs.contains(&p.as_str()) {
                    PathKind::Dir
                } else {
                    PathKind::Other
                };
                facts.kinds.push(KindFact { path: p.clone(), kind });
            }
            Question::Listing(d) => {
                let entries = disk
                    .listings
                    .iter()
                    .find(|(dir, _)| *dir == d.as_str())
                    .map(|(_, e)| e.iter().map(|s| s.to_string()).collect());
                facts.listings.push(ListingFact { dir: d.clone(), entries });
            }
            Question::GoMod => {
                facts.go_mod_read = true;
                facts.go_mod = disk.go_mod.map(|s| s.to_string());
            }
            Question::Canonical(p) => {
                facts.canonical.push(CanonicalFact { path: p.clone(), canonical: p.clone() });
            }
        }
    }
}

fn resolve_on(disk: &Disk, language: Language, source: &str, file: &str, root: &str) -> Vec<String> {
    let mut facts = no_facts();
    for _ in 0..10 {
        match resolve_dependencies(language, source, file, root, &facts) {
            Ok(deps) => return deps,
            Err(questions) => {
                assert!(!questions.is_empty());
                answer(disk, &mut facts, &questions);
            }
        }
    }
    panic!("questions did not end");
}

#[test]
fn python_imports_ask_then_resolve() {
    let src = "import foo\nfrom pkg.mod import x\n";
    let first = resolve_dependencies(Language::Python, src, "proj/app/main.py", "proj", &no_facts());
    assert_eq!(
        first,
        Err(vec![
            Question::Kind("proj/app/foo.py".to_string()),
            Question::Kind("proj/app/foo/__init__.py".to_string()),
            Question::Kind("proj/app/pkg/mod.py".to_string()),
            Question::Kind("proj/app/pkg/mod/__init__.py".to_string()),
        ])
    );
    let disk = Disk {
        files: vec!["proj/app/foo.py", "proj/app/foo/__init__.py", "proj/app/pkg/mod/__init__.py"],
        dirs: vec![],
        listings: vec![],
        go_mod: None,
    };
    assert_eq!(
        resolve_on(&disk, Language::Python, src, "proj/app/main.py", "proj"),
        vec!["proj/app/foo.py".to_string(), "proj/app/pkg/mod/__init__.py".to_string()]
    );
}

#[test]
fn rust_mods_and_crate_uses_resolve_once() {
    let src = "mod a;\nmod inline { }\nuse crate::b::X;\nuse crate::a::Y;\n";
    let disk = Disk {
        files: vec!["r/src/a.rs", "r/src/b/mod.rs"],
        dirs: vec!["r/src"],
        listings: vec![],
        go_mod: None,
    };
    assert_eq!(
        resolve_on(&disk, Language::Rust, src, "r/src/lib.rs", "r"),
        vec!["r/src/a.rs".to_string(), "r/src/b/mod.rs".to_string()]
    );
}

#[test]
fn files_outside_the_root_are_not_dependencies() {
    let src = "import foo\n";
    let disk = Disk { files: vec!["other/foo.py"], dirs: vec![], listings: vec![], go_mod: None };
    assert_eq!(resolve_on(&disk, Language::Python, src, "other/main.py", "proj"), Vec::<String>::new());
}

#[test]
fn typescript_relative_imports_try_extensions() {
    let src = "import { x } from './util';\nimport React from 'react';\n";
    let disk = Disk { files: vec!["w/src/./util.tsx"], dirs: vec![], listings: vec![], go_mod: None };
    assert_eq!(
        resolve_on(&disk, Language::TypeScript, src, "w/src/app.ts", "w"),
        vec!["w/src/./util.tsx".to_string()]
    );
}

#[test]
fn haskell_modules_resolve_under_source_roots() {
    let src = "module Main where\nimport Data.Foo\nimport qualified Data.Bar as B\nimport Data.List\n";
    let disk = Disk {
        files: vec!["h/src/Data/Foo.hs", "h/Data/Bar.hs"],
        dirs: vec!["h", "h/src"],
        listings: vec![],
        go_mod: None,
    };
    assert_eq!(
        resolve_on(&disk, Language::Haskell, src, "h/src/Main.hs", "h"),
        vec!["h/src/Data/Foo.hs".to_string(), "h/Data/Bar.hs".to_string()]
    );
}

#[test]
fn go_packages_resolve_through_go_mod() {
    let src = "package main\n\nimport (\n\t\"fmt\"\n\t\"example.com/app/util\"\n)\n";
    let first = resolve_dependencies(Language::Go, src, "g/cmd/main.go", "g", &no_facts());
    assert_eq!(
        first,
        Err(vec![Question::GoMod, Question::Canonical("g/cmd/main.go".to_string())])
    );
    let disk = Disk {
        files: vec!["g/util/a.go", "g/util/b.go", "g/util/a_test.go"],
        dirs: vec!["g", "g/util", "g/cmd"],
        listings: vec![(
            "g/util",
            vec!["g/util/b.go", "g/util/a_test.go", "g/util/a.go", "g/util/notes.md"],
        )],
        go_mod: Some("module example.com/app\n\ngo 1.21\n"),
    };
    assert_eq!(
        resolve_on(&disk, Language::Go, src, "g/cmd/main.go", "g"),
        vec!["g/util/a.go".to_string(), "g/util/b.go".to_string()]
    );
}

#[test]
fn languages_without_dependencies_give_none() {
    assert_eq!(
        resolve_dependencies(Language::Java, "import a.b.C;", "J.java", ".", &no_facts()),
        Ok(Vec::new())
    );
}

#[test]
fn go_files_listed_outside_the_root_are_left_out() {
    let src = "package main\n\nimport \"example.com/app/util\"\n";
    let disk = Disk {
        files: vec!["g/util/a.go", "elsewhere/b.go"],
        dirs: vec!["g", "g/util", "g/cmd"],
        listings: vec![("g/util", vec!["elsewhere/b.go", "g/util/a.go"])],
        go_mod: Some("module example.com/app\n"),
    };
    assert_eq!(
        resolve_on(&disk, Language::Go, src, "g/cmd/main.go", "g"),
        vec!["g/util/a.go".to_string()]
    );
}
