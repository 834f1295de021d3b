//! The plain shape of a file (names and lines) and template dependencies.
use vstd::prelude::*;
use crate::analysis::call_graph::first_where;
use crate::parser::Language;
use crate::syntax::SyntaxTree;
use crate::text::{push_str, views};

verus! {

/// A function name and line.
#[derive(Debug, Clone)]
pub struct FunctionInfo {
    pub name: String,
    pub line: usize,
}

/// A struct name and line.
#[derive(Debug, Clone)]
pub struct StructInfo {
    pub name: String,
    pub line: usize,
}

/// A class name and line.
#[derive(Debug, Clone)]
pub struct ClassInfo {
    pub name: String,
    pub line: usize,
}

/// The plain shape of a file.
#[derive(Debug)]
pub struct FileShape {
    pub path: Option<String>,
    pub functions: Vec<FunctionInfo>,
    pub structs: Vec<StructInfo>,
    pub classes: Vec<ClassInfo>,
    pub imports: Vec<String>,
    pub dependencies: Vec<FileShape>,
}

/// A template that a template extends or includes.
#[derive(Debug, Clone)]
pub struct TemplateDependency {
    pub path: String,
    pub dependency_type: String,
    pub name: String,
}

/// A template with its blocks merged into its parents.
#[derive(Debug, Clone)]
pub struct MergedTemplateShape {
    pub path: String,
    pub merged_content: String,
    pub dependencies: Vec<TemplateDependency>,
}


/// Why a plain shape could not be extracted.
#[derive(Debug, Clone, Copy, PartialEq, Eq, Structural)]
pub enum FileShapeError {
    /// Plain shapes exist for Rust, Swift and Python only.
    NotImplemented(Language),
}

impl FileShapeError {
    /// The message of the error.
    pub fn message(&self) -> (r: String)
        ensures
            r@ == match self {
                FileShapeError::NotImplemented(l) => "extract_shape not implemented for "@
                    + crate::parser::language_name(*l),
            },
    {
        let mut s = String::new();
        match self {
            FileShapeError::NotImplemented(l) => {
                push_str(&mut s, "extract_shape not implemented for ");
                push_str(&mut s, l.name());
            },
        }
        s
    }
}

/// A name and the (1-based) line it starts on.
pub type NameLine = (Seq<char>, usize);

pub open spec fn function_lines(v: Seq<FunctionInfo>) -> Seq<NameLine> {
    v.map_values(|f: FunctionInfo| (f.name@, f.line))
}

pub open spec fn struct_lines(v: Seq<StructInfo>) -> Seq<NameLine> {
    v.map_values(|f: StructInfo| (f.name@, f.line))
}

pub open spec fn class_lines(v: Seq<ClassInfo>) -> Seq<NameLine> {
    v.map_values(|f: ClassInfo| (f.name@, f.line))
}

/// The text of node `i` and its line.
pub open spec fn name_line(t: SyntaxTree, i: int) -> NameLine {
    (t.text(i), (t.nodes@[i].start_row + 1) as usize)
}

/// Node `i` is a child of kind `child` of a node of kind `parent`, in the
/// field `field` when one is given: what a query
/// `(parent field: (child) @capture)` captures.
pub open spec fn captured(
    t: SyntaxTree,
    i: int,
    parent: Seq<char>,
    child: Seq<char>,
    field: Option<Seq<char>>,
) -> bool {
    &&& t.kind(i) == child
    &&& t.parent(i) matches Some(p) && t.kind(p as int) == parent
    &&& field matches Some(f) ==> t.field_is(i, f)
}

/// The kind of plain entry a node gives, by language: 1 a function, 2 a
/// struct, 3 a class, 4 an import, 0 none.
pub open spec fn plain_entry(t: SyntaxTree, i: int, l: Language) -> int {
    match l {
        Language::Rust => if captured(t, i, "function_item"@, "identifier"@, Some("name"@)) {
            1
        } else if captured(t, i, "struct_item"@, "type_identifier"@, Some("name"@)) || captured(
            t,
            i,
            "enum_item"@,
            "type_identifier"@,
            Some("name"@),
        ) || captured(t, i, "trait_item"@, "type_identifier"@, Some("name"@)) {
            2
        } else if t.kind(i) == "use_declaration"@ {
            4
        } else {
            0
        },
        Language::Python => if captured(t, i, "function_definition"@, "identifier"@, Some("name"@)) {
            1
        } else if captured(t, i, "class_definition"@, "identifier"@, Some("name"@)) {
            3
        } else if t.kind(i) == "import_statement"@ || t.kind(i) == "import_from_statement"@ {
            4
        } else {
            0
        },
        Language::Swift => if captured(t, i, "function_declaration"@, "simple_identifier"@, None) {
            1
        } else if captured(t, i, "class_declaration"@, "type_identifier"@, None) {
            if swift_declares_struct(t, t.parent(i).unwrap() as int) {
                2
            } else {
                3
            }
        } else if captured(t, i, "protocol_declaration"@, "type_identifier"@, None) {
            2
        } else if t.kind(i) == "import_declaration"@ {
            4
        } else {
            0
        },
        _ => 0,
    }
}

/// A keyword child that tells a Swift declaration's kind.
pub open spec fn decl_keyword(t: SyntaxTree) -> spec_fn(usize) -> bool {
    |c: usize| t.text(c as int) == "struct"@ || t.text(c as int) == "class"@
}

/// A Swift `class_declaration` declares a struct: among its children, the
/// first whose text is `struct` or `class` is `struct`.
pub open spec fn swift_declares_struct(t: SyntaxTree, p: int) -> bool {
    let cs = t.children(p);
    match first_where(cs, decl_keyword(t)) {
        Some(k) => t.text(cs[k] as int) == "struct"@,
        None => false,
    }
}

/// The entries of kind `e` among the first `k` nodes, in order.
pub open spec fn plain_entries(t: SyntaxTree, k: int, l: Language, e: int) -> Seq<NameLine>
    decreases k,
{
    if k <= 0 {
        seq![]
    } else {
        plain_entries(t, k - 1, l, e) + if plain_entry(t, k - 1, l) == e {
            seq![name_line(t, k - 1)]
        } else {
            seq![]
        }
    }
}

/// The lists of a plain shape are those of the tree.
pub open spec fn plain_shape_is(s: FileShape, t: SyntaxTree, l: Language) -> bool {
    &&& s.path is None
    &&& function_lines(s.functions@) == plain_entries(t, t.len(), l, 1)
    &&& struct_lines(s.structs@) == plain_entries(t, t.len(), l, 2)
    &&& class_lines(s.classes@) == plain_entries(t, t.len(), l, 3)
    &&& views(s.imports@) == plain_entries(t, t.len(), l, 4).map_values(|e: NameLine| e.0)
    &&& s.dependencies@.len() == 0
}

fn swift_struct_decl(tree: &SyntaxTree, p: usize) -> (r: bool)
    requires
        tree.wf(),
        p < tree.len(),
    ensures
        r == swift_declares_struct(*tree, p as int),
{
    let cs = tree.children_of(p);
    let ghost pr = decl_keyword(*tree);
    let mut k: usize = 0;
    while k < cs.len()
        invariant
            tree.wf(),
            cs@ == tree.children(p as int),
            forall|j: int| 0 <= j < cs@.len() ==> (#[trigger] cs@[j]) < tree.len(),
            pr == decl_keyword(*tree),
            k <= cs.len(),
            forall|j: int| 0 <= j < k ==> !pr(#[trigger] cs@[j]),
        decreases cs.len() - k,
    {
        let text = tree.node_text(cs[k]);
        let is_struct = crate::text::str_is(text.as_str(), "struct");
        let is_class = crate::text::str_is(text.as_str(), "class");
        if is_struct || is_class {
            proof {
                crate::analysis::call_graph::lemma_first_where(cs@, pr);
                assert(pr(cs@[k as int]));
                match first_where(cs@, pr) {
                    Some(m) => {
                        if m < k {
                            assert(!pr(cs@[m]));
                        } else if m > k {
                            assert(!pr(cs@[k as int]));
                        }
                    },
                    None => {
                        assert(!pr(cs@[k as int]));
                    },
                }
            }
            return is_struct;
        }
        assert(!pr(cs@[k as int]));
        k = k + 1;
    }
    proof {
        crate::analysis::call_graph::lemma_first_where(cs@, pr);
        if let Some(m) = first_where(cs@, pr) {
            assert(!pr(cs@[m]));
        }
    }
    false
}

fn captured_exec(
    tree: &SyntaxTree,
    i: usize,
    parent: &str,
    child: &str,
    field: Option<&str>,
) -> (r: bool)
    requires
        tree.wf(),
        i < tree.len(),
    ensures
        r == captured(
            *tree,
            i as int,
            parent@,
            child@,
            match field {
                Some(f) => Some(f@),
                None => None,
            },
        ),
{
    if !tree.kind_is(i, child) {
        return false;
    }
    let p = match tree.nodes[i].parent {
        Some(p) => p,
        None => return false,
    };
    if !tree.kind_is(p, parent) {
        return false;
    }
    match field {
        Some(f) => tree.field_of_is(i, f),
        None => true,
    }
}

fn plain_entry_exec(tree: &SyntaxTree, i: usize, language: Language) -> (r: u8)
    requires
        tree.wf(),
        i < tree.len(),
    ensures
        r == plain_entry(*tree, i as int, language),
{
    match language {
        Language::Rust => {
            if captured_exec(tree, i, "function_item", "identifier", Some("name")) {
                1
            } else if captured_exec(tree, i, "struct_item", "type_identifier", Some("name"))
                || captured_exec(tree, i, "enum_item", "type_identifier", Some("name"))
                || captured_exec(tree, i, "trait_item", "type_identifier", Some("name")) {
                2
            } else if tree.kind_is(i, "use_declaration") {
                4
            } else {
                0
            }
        },
        Language::Python => {
            if captured_exec(tree, i, "function_definition", "identifier", Some("name")) {
                1
            } else if captured_exec(tree, i, "class_definition", "identifier", Some("name")) {
                3
            } else if tree.kind_is(i, "import_statement") || tree.kind_is(
                i,
                "import_from_statement",
            ) {
                4
            } else {
                0
            }
        },
        Language::Swift => {
            if captured_exec(tree, i, "function_declaration", "simple_identifier", None) {
                1
            } else if captured_exec(tree, i, "class_declaration", "type_identifier", None) {
                let p = tree.nodes[i].parent.unwrap();
                if swift_struct_decl(tree, p) {
                    2
                } else {
                    3
                }
            } else if captured_exec(tree, i, "protocol_declaration", "type_identifier", None) {
                2
            } else if tree.kind_is(i, "import_declaration") {
                4
            } else {
                0
            }
        },
        _ => 0,
    }
}

fn build_plain_shape(tree: &SyntaxTree, language: Language) -> (r: FileShape)
    requires
        tree.wf(),
    ensures
        plain_shape_is(r, *tree, language),
{
    let mut functions: Vec<FunctionInfo> = Vec::new();
    let mut structs: Vec<StructInfo> = Vec::new();
    let mut classes: Vec<ClassInfo> = Vec::new();
    let mut imports: Vec<String> = Vec::new();
    let mut i: usize = 0;
    assert(views(imports@) =~= plain_entries(*tree, 0, language, 4).map_values(|e: NameLine| e.0));
    while i < tree.nodes.len()
        invariant
            tree.wf(),
            i <= tree.len(),
            function_lines(functions@) == plain_entries(*tree, i as int, language, 1),
            struct_lines(structs@) == plain_entries(*tree, i as int, language, 2),
            class_lines(classes@) == plain_entries(*tree, i as int, language, 3),
            views(imports@) == plain_entries(*tree, i as int, language, 4).map_values(
                |e: NameLine| e.0,
            ),
        decreases tree.len() - i,
    {
        let e = plain_entry_exec(tree, i, language);
        let ghost nl = name_line(*tree, i as int);
        let ghost f0 = function_lines(functions@);
        let ghost s0 = struct_lines(structs@);
        let ghost c0 = class_lines(classes@);
        let ghost m0 = views(imports@);
        if e != 0 {
            let name = tree.node_text(i);
            let line = tree.nodes[i].start_row + 1;
            if e == 1 {
                functions.push(FunctionInfo { name, line });
            } else if e == 2 {
                structs.push(StructInfo { name, line });
            } else if e == 3 {
                classes.push(ClassInfo { name, line });
            } else {
                imports.push(name);
            }
        }
        proof {
            let t = *tree;
            let ii = i as int;
            assert(plain_entries(t, ii + 1, language, 1) == plain_entries(t, ii, language, 1) + if e == 1 {
                seq![nl]
            } else {
                seq![]
            });
            assert(plain_entries(t, ii + 1, language, 2) == plain_entries(t, ii, language, 2) + if e == 2 {
                seq![nl]
            } else {
                seq![]
            });
            assert(plain_entries(t, ii + 1, language, 3) == plain_entries(t, ii, language, 3) + if e == 3 {
                seq![nl]
            } else {
                seq![]
            });
            assert(plain_entries(t, ii + 1, language, 4) == plain_entries(t, ii, language, 4) + if e == 4 {
                seq![nl]
            } else {
                seq![]
            });
            assert(function_lines(functions@) =~= f0 + if e == 1 {
                seq![nl]
            } else {
                seq![]
            });
            assert(struct_lines(structs@) =~= s0 + if e == 2 {
                seq![nl]
            } else {
                seq![]
            });
            assert(class_lines(classes@) =~= c0 + if e == 3 {
                seq![nl]
            } else {
                seq![]
            });
            assert(views(imports@) =~= m0 + if e == 4 {
                seq![nl.0]
            } else {
                seq![]
            });
            assert((plain_entries(t, ii, language, 4) + if e == 4 {
                seq![nl]
            } else {
                seq![]
            }).map_values(|x: NameLine| x.0) =~= m0 + if e == 4 {
                seq![nl.0]
            } else {
                seq![]
            });
        }
        i = i + 1;
    }
    FileShape {
        path: None,
        functions,
        structs,
        classes,
        imports,
        dependencies: Vec::new(),
    }
}

/// The plain shape of a Rust, Swift or Python file: its functions, its
/// structs (Rust structs, enums and traits; Swift structs and protocols),
/// its classes and its imports, each list in document order, every match
/// anywhere in the tree; other languages are an error.
pub fn extract_shape(tree: &SyntaxTree, language: Language) -> (r: Result<FileShape, FileShapeError>)
    requires
        tree.wf(),
    ensures
        match language {
            Language::Rust | Language::Swift | Language::Python => r matches Ok(s)
                && plain_shape_is(s, *tree, language),
            _ => r == Err::<FileShape, FileShapeError>(FileShapeError::NotImplemented(language)),
        },
{
    match language {
        Language::Rust | Language::Swift | Language::Python => Ok(build_plain_shape(tree, language)),
        _ => Err(FileShapeError::NotImplemented(language)),
    }
}

} // verus!
