use treesitter_mcp::analysis::file_shape::{extract_shape, FileShapeError};
use treesitter_mcp::parser::{parse_code, Language};

#[test]
fn rust_plain_shape() {
    let src = "use std::io;\nstruct A;\nenum B { X }\ntrait C {}\nfn main() {}\nimpl A { fn m(&self) {} }\n";
    let tree = parse_code(src, Language::Rust).expect("parse");
    let shape = extract_shape(&tree, Language::Rust).expect("shape");
    let fns: Vec<(&str, usize)> = shape.functions.iter().map(|f| (f.name.as_str(), f.line)).collect();
    assert_eq!(fns, vec![("main", 5), ("m", 6)]);
    let structs: Vec<&str> = shape.structs.iter().map(|s| s.name.as_str()).collect();
    assert_eq!(structs, vec!["A", "B", "C"]);
    assert!(shape.classes.is_empty());
    assert_eq!(shape.imports, vec!["use std::io;".to_string()]);
    assert!(shape.path.is_none());
}

#[test]
fn python_plain_shape() {
    let src = "import os\nfrom a import b\n\nclass K:\n    def m(self):\n        pass\n\ndef f():\n    pass\n";
    let tree = parse_code(src, Language::Python).expect("parse");
    let shape = extract_shape(&tree, Language::Python).expect("shape");
    let fns: Vec<(&str, usize)> = shape.functions.iter().map(|f| (f.name.as_str(), f.line)).collect();
    assert_eq!(fns, vec![("m", 5), ("f", 8)]);
    assert_eq!(shape.classes.len(), 1);
    assert_eq!(shape.classes[0].name, "K");
    assert_eq!(shape.imports, vec!["import os".to_string(), "from a import b".to_string()]);
}

#[test]
fn swift_plain_shape() {
    let src = "import Foundation\nstruct P {}\nclass Q {}\nprotocol R {}\nfunc go() {}\n";
    let tree = parse_code(src, Language::Swift).expect("parse");
    let shape = extract_shape(&tree, Language::Swift).expect("shape");
    let structs: Vec<&str> = shape.structs.iter().map(|s| s.name.as_str()).collect();
    assert_eq!(structs, vec!["P", "R"]);
    let classes: Vec<&str> = shape.classes.iter().map(|s| s.name.as_str()).collect();
    assert_eq!(classes, vec!["Q"]);
    assert_eq!(shape.functions.len(), 1);
    assert_eq!(shape.functions[0].name, "go");
    assert_eq!(shape.imports, vec!["import Foundation".to_string()]);
}

#[test]
fn other_languages_have_no_plain_shape() {
    let tree = parse_code("const a = 1;", Language::JavaScript).expect("parse");
    match extract_shape(&tree, Language::JavaScript) {
        Err(e) => {
            assert_eq!(e, FileShapeError::NotImplemented(Language::JavaScript));
            assert_eq!(e.message(), "extract_shape not implemented for JavaScript");
        }
        Ok(_) => panic!("javascript has no plain shape"),
    }
}
