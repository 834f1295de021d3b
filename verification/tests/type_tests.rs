use treesitter_mcp::extraction::python_types::{extract_python_types, unquote_python_string};
use treesitter_mcp::extraction::haskell_types::extract_haskell_types;
use treesitter_mcp::extraction::rust_types::extract_rust_types;
use treesitter_mcp::extraction::ts_types::extract_typescript_types;
use treesitter_mcp::extraction::types::{clean_type_annotation, TypeKind};

#[test]
fn test_rust_extraction() {
    let source = r#"
            pub struct User {
                pub id: u64,
                pub name: String,
            }
            enum Status { Active, Inactive }
            trait Auth { type Item; fn login(&self) -> Self::Item; }
            type UserId = u64;
        "#;
    let result = extract_rust_types(source, "test.rs").expect("parse");
    assert_eq!(result.len(), 4);

    let user = result.iter().find(|t| t.name == "User").unwrap();
    assert_eq!(user.kind, TypeKind::Struct);
    assert_eq!(user.fields.as_ref().unwrap().len(), 2);

    let status = result.iter().find(|t| t.name == "Status").unwrap();
    assert_eq!(status.kind, TypeKind::Enum);
    assert_eq!(status.variants.as_ref().unwrap().len(), 2);

    let auth = result.iter().find(|t| t.name == "Auth").unwrap();
    assert_eq!(auth.kind, TypeKind::Trait);
    let members = auth.members.as_ref().unwrap();
    assert!(members.iter().any(|m| m.name == "Item"));
    assert!(members.iter().any(|m| m.name == "login"));
}

#[test]
fn test_python_extraction() {
    let source = r#"
class User:
    id: int
    def __init__(self, name: str):
        self.name = name

class Status(Enum):
    ACTIVE = 1
    INACTIVE = 2

class Reader(Protocol):
    name: str
    def read(self) -> str: ...

UserDict = TypedDict("UserDict", {"id": int, "name": str})
Point = NamedTuple("Point", [("x", int), ("y", int)])
"#;

    let result = extract_python_types(source, "test.py").expect("parse");
    assert_eq!(result.len(), 5);

    let user = result.iter().find(|t| t.name == "User").unwrap();
    assert_eq!(user.kind, TypeKind::Class);
    assert_eq!(user.fields.as_ref().unwrap().len(), 2);

    let status = result.iter().find(|t| t.name == "Status").unwrap();
    assert_eq!(status.kind, TypeKind::Enum);
    assert_eq!(status.variants.as_ref().unwrap().len(), 2);

    let reader = result.iter().find(|t| t.name == "Reader").unwrap();
    assert_eq!(reader.kind, TypeKind::Protocol);
    let members = reader.members.as_ref().unwrap();
    assert!(members.iter().any(|m| m.name == "read"));
    assert!(members.iter().any(|m| m.name == "name"));

    let user_dict = result.iter().find(|t| t.name == "UserDict").unwrap();
    assert_eq!(user_dict.kind, TypeKind::TypedDict);
    assert_eq!(user_dict.fields.as_ref().unwrap().len(), 2);

    let point = result.iter().find(|t| t.name == "Point").unwrap();
    assert_eq!(point.kind, TypeKind::NamedTuple);
    assert_eq!(point.fields.as_ref().unwrap().len(), 2);
}

#[test]
fn rust_impl_methods_join_their_type() {
    let source = "struct A { x: i32 }\nimpl A {\n    fn get(&self) -> i32 { self.x }\n}\nstruct A { y: i32 }\n";
    let result = extract_rust_types(source, "a.rs").expect("parse");
    // The second `A` is a duplicate and is dropped.
    assert_eq!(result.len(), 1);
    let a = &result[0];
    assert_eq!(a.file, "a.rs");
    assert_eq!(a.line, 1);
    assert_eq!(a.signature, "struct A { x: i32 }");
    assert_eq!(a.fields.as_ref().unwrap()[0].type_annotation, "i32");
    let members = a.members.as_ref().unwrap();
    assert_eq!(members.len(), 1);
    assert_eq!(members[0].name, "get");
    assert_eq!(members[0].type_annotation, "fn get(&self) -> i32 { self.x }");
}

#[test]
fn python_typed_dict_fields_are_unquoted() {
    let source = "D = TypedDict('D', {'a': int})\n";
    let result = extract_python_types(source, "d.py").expect("parse");
    let fields = result[0].fields.as_ref().unwrap();
    assert_eq!(fields[0].name, "a");
    assert_eq!(fields[0].type_annotation, "int");
}

#[test]
fn unquotes_python_strings() {
    assert_eq!(unquote_python_string("  'abc' "), "abc");
    assert_eq!(unquote_python_string("\"x\""), "x");
    assert_eq!(unquote_python_string("'x\""), "'x\"");
    assert_eq!(unquote_python_string("'"), "'");
    assert_eq!(unquote_python_string("''"), "");
}

#[test]
fn cleans_type_annotations() {
    assert_eq!(clean_type_annotation("  : String ; "), "String");
    assert_eq!(clean_type_annotation("::Vec<u8>;;"), "Vec<u8>");
    assert_eq!(clean_type_annotation("i32"), "i32");
}

#[test]
fn test_typescript_extraction() {
    let source = r#"
            export class UserService {
                private db: Database;
                constructor(db: Database) { this.db = db; }
                async getUser(id: number): Promise<User> { return null; }
            }
            interface User {
                id: number;
                name: string;
            }
            enum Role { Admin, User }
            type Id = number;
        "#;
    let result = extract_typescript_types(source, "test.ts", true).expect("parse");
    assert_eq!(result.len(), 4);

    let service = result.iter().find(|t| t.name == "UserService").unwrap();
    assert_eq!(service.kind, TypeKind::Class);

    let user = result.iter().find(|t| t.name == "User").unwrap();
    assert_eq!(user.kind, TypeKind::Interface);
    assert_eq!(user.members.as_ref().unwrap().len(), 2);
}

#[test]
fn test_haskell_extraction() {
    let source = r#"module M where

-- | A geometric shape.
data Shape
  = Circle Double
  | Rect { width :: Double, height :: Double }
  deriving (Show, Eq)

newtype Wrapper a = Wrapper { unwrap :: a }

data Point = Point { px :: Int, py :: Int }

type Name = String

class Named a where
  name :: a -> Name
  rename :: Name -> a -> a
"#;

    let result = extract_haskell_types(source, "M.hs").expect("parse");

    let shape = result.iter().find(|t| t.name == "Shape").unwrap();
    assert_eq!(shape.kind, TypeKind::Enum);
    let variants: Vec<&str> = shape
        .variants
        .as_ref()
        .unwrap()
        .iter()
        .map(|v| v.name.as_str())
        .collect();
    assert!(variants.contains(&"Circle"), "variants: {variants:?}");
    assert!(variants.contains(&"Rect"), "variants: {variants:?}");

    let point = result.iter().find(|t| t.name == "Point").unwrap();
    assert_eq!(point.kind, TypeKind::Struct);
    let pfields: Vec<&str> = point
        .fields
        .as_ref()
        .unwrap()
        .iter()
        .map(|f| f.name.as_str())
        .collect();
    assert_eq!(pfields, vec!["px", "py"], "fields: {pfields:?}");

    let wrapper = result.iter().find(|t| t.name == "Wrapper").unwrap();
    assert_eq!(wrapper.kind, TypeKind::Struct);
    assert!(wrapper
        .fields
        .as_ref()
        .unwrap()
        .iter()
        .any(|f| f.name == "unwrap"));

    let name = result.iter().find(|t| t.name == "Name").unwrap();
    assert_eq!(name.kind, TypeKind::TypeAlias);

    let named = result.iter().find(|t| t.name == "Named").unwrap();
    assert_eq!(named.kind, TypeKind::Trait);
    let members: Vec<&str> = named
        .members
        .as_ref()
        .unwrap()
        .iter()
        .map(|m| m.name.as_str())
        .collect();
    assert!(members.contains(&"name"), "members: {members:?}");
    assert!(members.contains(&"rename"), "members: {members:?}");
}
