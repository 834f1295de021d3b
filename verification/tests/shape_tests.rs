use treesitter_mcp::analysis::haskell_shape::extract_haskell_enhanced;
use treesitter_mcp::analysis::rust_shape::extract_rust_enhanced;
use treesitter_mcp::analysis::script_shape::{extract_js_enhanced, extract_python_enhanced};
use treesitter_mcp::analysis::shape::extract_enhanced_shape;
use treesitter_mcp::analysis::typed_shape::{
    extract_go_enhanced, extract_member_enhanced, extract_swift_enhanced,
};
use treesitter_mcp::parser::{parse_code, Language};

#[test]
fn test_extract_rust_function_signature() {
    let source = r#"
 /// Adds two numbers
 pub fn add(a: i32, b: i32) -> i32 {
     a + b
 }
 "#;
    let tree = parse_code(source, Language::Rust).expect("Failed to parse");
    let shape = extract_rust_enhanced(&tree, true);

    assert_eq!(shape.functions.len(), 1);
    let func = &shape.functions[0];
    assert_eq!(func.name, "add");
    assert!(func.signature.contains("pub fn add"));
    assert_eq!(func.line, 3);
    assert_eq!(func.end_line, 5);
}

#[test]
fn test_extract_python_function() {
    let source = r#"
def greet(name):
     """Greets a person"""
     return f"Hello, {name}!"
"#;
    let tree = parse_code(source, Language::Python).expect("Failed to parse");
    let shape = extract_python_enhanced(&tree, true);

    assert_eq!(shape.functions.len(), 1);
    let func = &shape.functions[0];
    assert_eq!(func.name, "greet");
    assert_eq!(func.line, 2);
}

#[test]
fn test_extract_js_class() {
    let source = r#"
 class Calculator {
     add(a, b) {
         return a + b;
     }
 }
 "#;
    let tree = parse_code(source, Language::JavaScript).expect("Failed to parse");
    let shape = extract_js_enhanced(&tree, Language::JavaScript, true);

    assert_eq!(shape.classes.len(), 1);
    let cls = &shape.classes[0];
    assert_eq!(cls.name, "Calculator");
    assert_eq!(cls.line, 2);
}

#[test]
fn test_extract_imports() {
    let source = r#"
 use std::fmt;
 use std::io;
 
 fn main() {}
 "#;
    let tree = parse_code(source, Language::Rust).expect("Failed to parse");
    let shape = extract_rust_enhanced(&tree, true);

    assert_eq!(shape.imports.len(), 2);
    assert_eq!(shape.imports[0].text, "use std::fmt;");
    assert_eq!(shape.imports[0].line, 2);
}

const HASKELL_SRC: &str = r#"module My.Module (foo, Bar(..)) where

import Data.List (sort)
import qualified Data.Map as Map

-- | A data type for shapes.
data Shape = Circle Double | Rect Double Double
  deriving (Show, Eq)

newtype Wrapper a = Wrapper { unwrap :: a }

type Name = String

class Greet a where
  greet :: a -> String

instance Greet Shape where
  greet _ = "shape"

-- | Compute the area.
area :: Shape -> Double
area (Circle r) = pi * r * r
area (Rect w h) = w * h

foo :: Int -> Int
foo x = bar (x + 1)
"#;

#[test]
fn haskell_enhanced_shape_extracts_symbols() {
    let tree = parse_code(HASKELL_SRC, Language::Haskell).expect("parse haskell");
    let shape = extract_enhanced_shape(&tree, Language::Haskell, Some("My/Module.hs"), true);

    assert_eq!(shape.imports.len(), 2, "expected two imports");

    let struct_names: Vec<&str> = shape.structs.iter().map(|s| s.name.as_str()).collect();
    assert!(struct_names.contains(&"Shape"));
    assert!(struct_names.contains(&"Wrapper"));
    assert!(struct_names.contains(&"Name"));

    let shape_ty = shape.structs.iter().find(|s| s.name == "Shape").unwrap();
    assert_eq!(shape_ty.doc.as_deref(), Some("A data type for shapes."));

    assert!(shape.traits.iter().any(|t| t.name == "Greet"));

    let area = shape
        .functions
        .iter()
        .find(|f| f.name == "area")
        .expect("area function present");
    assert_eq!(
        shape.functions.iter().filter(|f| f.name == "area").count(),
        1,
        "area clauses should be merged into one entry"
    );
    assert_eq!(area.signature, "area :: Shape -> Double");
    assert_eq!(area.doc.as_deref(), Some("Compute the area."));

    let foo = shape.functions.iter().find(|f| f.name == "foo").unwrap();
    assert_eq!(foo.signature, "foo :: Int -> Int");
}

#[test]
fn haskell_functions_come_sorted_by_line() {
    let tree = parse_code(HASKELL_SRC, Language::Haskell).expect("parse haskell");
    let shape = extract_haskell_enhanced(&tree, false);
    let lines: Vec<usize> = shape.functions.iter().map(|f| f.line).collect();
    let mut sorted = lines.clone();
    sorted.sort();
    assert_eq!(lines, sorted);
    let area = shape.functions.iter().find(|f| f.name == "area").unwrap();
    assert_eq!(area.line, 21);
    assert_eq!(area.end_line, 23);
    assert!(area.code.is_none());
}

#[test]
fn rust_impl_blocks_and_traits() {
    let source = "trait Shape {\n    fn area(&self) -> f64;\n}\n\nstruct Sq;\n\nimpl std::fmt::Display for Sq {\n    /// Draws.\n    fn fmt(&self) {}\n}\n";
    let tree = parse_code(source, Language::Rust).expect("parse");
    let shape = extract_rust_enhanced(&tree, false);
    assert_eq!(shape.traits.len(), 1);
    assert_eq!(shape.traits[0].name, "Shape");
    assert_eq!(shape.traits[0].methods.len(), 1);
    assert_eq!(shape.traits[0].methods[0].name, "area");
    assert_eq!(shape.impl_blocks.len(), 1);
    let block = &shape.impl_blocks[0];
    assert_eq!(block.impl_type, "Sq");
    assert_eq!(block.trait_name.as_deref(), Some("Display"));
    assert_eq!(block.methods.len(), 1);
    assert_eq!(block.methods[0].doc.as_deref(), Some("Draws."));
    assert_eq!(block.methods[0].signature, "fn fmt(&self)");
    assert_eq!(shape.structs.len(), 1);
    assert_eq!(shape.structs[0].name, "Sq");
    // Methods of impl blocks are functions too.
    assert!(shape.functions.iter().any(|f| f.name == "fmt"));
}

#[test]
fn python_methods_stay_in_their_class() {
    let source = "class A:\n    def m(self):\n        pass\n\ndef top():\n    pass\n";
    let tree = parse_code(source, Language::Python).expect("parse");
    let shape = extract_python_enhanced(&tree, true);
    assert_eq!(shape.functions.len(), 1);
    assert_eq!(shape.functions[0].name, "top");
    assert_eq!(shape.classes.len(), 1);
    assert_eq!(shape.classes[0].methods.len(), 1);
    assert_eq!(shape.classes[0].methods[0].name, "m");
    assert_eq!(shape.functions[0].code.as_deref(), Some("def top():\n    pass"));
}

#[test]
fn typescript_interfaces() {
    let source = "/** A user. */\ninterface User {\n  name: string;\n  greet(): void;\n}\n";
    let tree = parse_code(source, Language::TypeScript).expect("parse");
    let shape = extract_js_enhanced(&tree, Language::TypeScript, false);
    assert_eq!(shape.interfaces.len(), 1);
    let it = &shape.interfaces[0];
    assert_eq!(it.name, "User");
    assert_eq!(it.doc.as_deref(), Some("A user."));
    let names: Vec<&str> = it.methods.iter().map(|m| m.name.as_str()).collect();
    assert_eq!(names, vec!["name", "greet"]);
}

#[test]
fn go_shape_lists_types_and_imports() {
    let source = "package main\n\nimport \"fmt\"\n\ntype Point struct {\n\tX int\n}\n\ntype Shape interface {\n\tArea() int\n}\n\n// Run runs.\nfunc Run() {\n\tfmt.Println(1)\n}\n";
    let tree = parse_code(source, Language::Go).expect("parse");
    let shape = extract_go_enhanced(&tree, false);
    assert_eq!(shape.imports.len(), 1);
    assert_eq!(shape.imports[0].text, "\"fmt\"");
    assert_eq!(shape.structs.len(), 1);
    assert_eq!(shape.structs[0].name, "Point");
    assert_eq!(shape.traits.len(), 1);
    assert_eq!(shape.traits[0].name, "Shape");
    assert_eq!(shape.functions.len(), 1);
    assert_eq!(shape.functions[0].name, "Run");
    // The doc comment just above moves the start line up.
    assert_eq!(shape.functions[0].line, 13);
}

#[test]
fn java_methods_carry_annotations() {
    let source = "class A implements Runnable {\n  @Override\n  public void run() {}\n}\n";
    let tree = parse_code(source, Language::Java).expect("parse");
    let shape = extract_member_enhanced(&tree, Language::Java, false);
    assert_eq!(shape.classes.len(), 1);
    assert_eq!(shape.classes[0].implements, vec!["Runnable".to_string()]);
    assert_eq!(shape.functions.len(), 1);
    assert_eq!(shape.functions[0].annotations, vec!["Override".to_string()]);
}

#[test]
fn csharp_properties_and_usings() {
    let source = "using System;\nclass A : IFoo {\n  public int Count { get; set; }\n  void Run() {}\n}\n";
    let tree = parse_code(source, Language::CSharp).expect("parse");
    let shape = extract_member_enhanced(&tree, Language::CSharp, false);
    assert_eq!(shape.imports.len(), 1);
    assert_eq!(shape.properties.len(), 1);
    assert_eq!(shape.properties[0].name, "Count");
    assert_eq!(shape.properties[0].property_type.as_deref(), Some("int"));
    assert_eq!(shape.classes[0].implements, vec!["IFoo".to_string()]);
    assert_eq!(shape.functions.len(), 1);
}

#[test]
fn swift_struct_and_class() {
    let source = "struct P {\n  var x: Int\n}\nclass C {\n  func f() {}\n}\nfunc g() {}\n";
    let tree = parse_code(source, Language::Swift).expect("parse");
    let shape = extract_swift_enhanced(&tree, false);
    assert_eq!(shape.structs.len(), 1);
    assert_eq!(shape.structs[0].name, "P");
    assert_eq!(shape.classes.len(), 1);
    assert_eq!(shape.classes[0].name, "C");
    assert_eq!(shape.functions.len(), 1);
    assert_eq!(shape.functions[0].name, "g");
}

#[test]
fn enhanced_shape_names_path_and_language() {
    let tree = parse_code("fn a() {}", Language::Rust).expect("parse");
    let shape = extract_enhanced_shape(&tree, Language::Rust, Some("src/a.rs"), false);
    assert_eq!(shape.path.as_deref(), Some("src/a.rs"));
    assert_eq!(shape.language.as_deref(), Some("Rust"));
    let css = parse_code("a { color: red; }", Language::Css).expect("parse");
    let empty = extract_enhanced_shape(&css, Language::Css, None, false);
    assert!(empty.functions.is_empty() && empty.path.is_none());
}
