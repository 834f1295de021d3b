use treesitter_mcp::parser::{detect_language, Language};
use treesitter_mcp::parser::parse_code;

#[test]
fn parses_rust_into_preorder_nodes() {
    let src = "fn main() { println!(\"hello\"); }";
    let tree = parse_code(src, Language::Rust).expect("parse");
    assert_eq!(tree.nodes[0].kind, "source_file");
    assert!(tree.nodes.iter().any(|n| n.kind == "function_item"));
    let f = tree.nodes.iter().position(|n| n.kind == "function_item").unwrap();
    let name = tree.child_by_field_name(f, "name").unwrap();
    assert_eq!(tree.node_text(name), "main");
}

#[test]
fn detects_languages() {
    assert_eq!(detect_language("src/main.rs").unwrap(), Language::Rust);
    assert_eq!(detect_language("script.py").unwrap(), Language::Python);
    assert_eq!(detect_language("Test.RS").unwrap(), Language::Rust);
    assert!(detect_language("file.txt").is_err());
}

#[test]
fn unsupported_extensions_are_reported_in_lower_case() {
    match detect_language("notes.TXT") {
        Err(e) => assert_eq!(e.message(), "Unsupported file extension: .txt"),
        Ok(_) => panic!("txt is not supported"),
    }
    match detect_language("bild.ÄRG") {
        Err(e) => assert_eq!(e.message(), "Unsupported file extension: .ärg"),
        Ok(_) => panic!("ärg is not supported"),
    }
    assert!(matches!(detect_language("Main.RS"), Ok(Language::Rust)));
}
