use treesitter_mcp::analysis::call_graph::{definitions_from_shape, parse_project_file};
use treesitter_mcp::analysis::edit_context::{collect_same_file_signatures, imports_to_rows, signatures_to_rows};
use treesitter_mcp::extraction::typed_types::{extract_csharp_types, extract_go_types, extract_java_types};

#[test]
fn go_java_and_csharp_types_are_named() {
    let go = extract_go_types("package p\n\ntype Point struct {\n\tX int\n}\n", "p.go").unwrap();
    assert_eq!(go.len(), 1);
    assert_eq!(go[0].name, "Point");
    let java = extract_java_types("class Account {\n  int balance;\n}\n", "Account.java").unwrap();
    assert_eq!(java.len(), 1);
    assert_eq!(java[0].name, "Account");
    let cs = extract_csharp_types("public class Box {\n  public int Size { get; set; }\n}\n", "Box.cs").unwrap();
    assert_eq!(cs.len(), 1);
    assert_eq!(cs[0].name, "Box");
}

#[test]
fn shapes_give_definitions_and_rows() {
    let src = "use std::fmt;\n\nfn helper() -> i32 { 1 }\n\nfn main() {\n    helper();\n}\n";
    let parsed = parse_project_file("src/main.rs", src).expect("parsed");
    let defs = definitions_from_shape("src/main.rs", &parsed.shape);
    let names: Vec<&str> = defs.iter().map(|d| d.name.as_str()).collect();
    assert_eq!(names, vec!["helper", "main"]);
    assert_eq!(defs[0].line, 3);
    let sigs = collect_same_file_signatures(&parsed.shape, false);
    let rows = signatures_to_rows(&sigs);
    assert!(rows.contains("helper"));
    assert!(rows.contains("main"));
    assert_eq!(rows.lines().count(), 2);
    let imports = imports_to_rows(&parsed.shape.imports);
    assert!(imports.contains("use std::fmt;"));
}
