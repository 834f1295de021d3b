//! The shape of Python, JavaScript and TypeScript files: top-level
//! functions, classes with their methods, imports and (TypeScript)
//! interfaces.
use vstd::prelude::*;
use crate::analysis::shape::{
    ClassView, EnhancedClassInfo, EnhancedFileShape, EnhancedFunctionInfo, FunctionView,
    ImportInfo, ImportView, InterfaceInfo, InterfaceView, class_methods, class_view, class_views,
    code_if, code_when, declaration_signature, doc_comment, end_line, extract_class_methods,
    extract_doc_comment, extract_signature, field_text, field_text_or, function_entry,
    function_entry_of, function_view, function_views, import_views, inside_class,
    interface_view, interface_views, is_inside_class, is_named_node, named_node, node_end_line,
    node_line, opt_view, property_views, start_line,
};
use crate::parser::Language;
use crate::syntax::SyntaxTree;
use crate::text::views;

verus! {

/// A class entry: the text of its `name` child, lines, doc comment in `l`,
/// code, and the methods of its body in `l`.
pub open spec fn class_entry(t: SyntaxTree, i: int, l: Language, include_code: bool) -> ClassView {
    (
        field_text_or(t, i, "name"@, ""@),
        node_line(t, i),
        node_end_line(t, i),
        doc_comment(t, i, l),
        code_if(t, i, include_code),
        class_methods(t, i, l, include_code),
        seq![],
        seq![],
        seq![],
    )
}

/// Build the class entry of node `i` (see `class_entry`).
pub fn class_entry_of(tree: &SyntaxTree, i: usize, language: Language, include_code: bool) -> (r:
    EnhancedClassInfo)
    requires
        tree.wf(),
        i < tree.len(),
    ensures
        class_view(r) == class_entry(*tree, i as int, language, include_code),
{
    let c = EnhancedClassInfo {
        name: field_text(tree, i, "name", ""),
        line: start_line(tree, i),
        end_line: end_line(tree, i),
        doc: extract_doc_comment(tree, i, language),
        code: code_when(tree, i, include_code),
        methods: extract_class_methods(tree, i, language, include_code),
        properties: Vec::new(),
        fields: Vec::new(),
        implements: Vec::new(),
    };
    assert(opt_view(c.doc) == doc_comment(*tree, i as int, language));
    assert(property_views(c.properties@) =~= seq![]);
    assert(property_views(c.fields@) =~= seq![]);
    assert(views(c.implements@) =~= seq![]);
    c
}

/// An import entry: the text and line of node `i`.
pub open spec fn import_entry(t: SyntaxTree, i: int) -> ImportView {
    (t.text(i), node_line(t, i))
}

/// Python: the functions among the first `k` nodes, named by an
/// `identifier` and outside any class.
pub open spec fn python_functions(t: SyntaxTree, k: int, include_code: bool) -> Seq<FunctionView>
    decreases k,
{
    if k <= 0 {
        seq![]
    } else {
        let r = python_functions(t, k - 1, include_code);
        if named_node(t, k - 1, "function_definition"@, "identifier"@) && !inside_class(t, k - 1) {
            r.push(function_entry(t, k - 1, Language::Python, include_code))
        } else {
            r
        }
    }
}

/// Python: the classes among the first `k` nodes, named by an `identifier`
/// and not nested in a class.
pub open spec fn python_classes(t: SyntaxTree, k: int, include_code: bool) -> Seq<ClassView>
    decreases k,
{
    if k <= 0 {
        seq![]
    } else {
        let r = python_classes(t, k - 1, include_code);
        if named_node(t, k - 1, "class_definition"@, "identifier"@) && !inside_class(t, k - 1) {
            r.push(class_entry(t, k - 1, Language::Python, include_code))
        } else {
            r
        }
    }
}

/// The imports among the first `k` nodes: nodes of kind `a` or `b`.
pub open spec fn imports_of_kinds(t: SyntaxTree, k: int, a: Seq<char>, b: Seq<char>) -> Seq<ImportView>
    decreases k,
{
    if k <= 0 {
        seq![]
    } else {
        let r = imports_of_kinds(t, k - 1, a, b);
        if t.kind(k - 1) == a || t.kind(k - 1) == b {
            r.push(import_entry(t, k - 1))
        } else {
            r
        }
    }
}

/// The lists of `s` are those of a Python file (see `extract_python_enhanced`).
pub open spec fn python_shape_is(s: EnhancedFileShape, t: SyntaxTree, ic: bool) -> bool {
    &&& function_views(s.functions@) == python_functions(t, t.len(), ic)
    &&& class_views(s.classes@) == python_classes(t, t.len(), ic)
    &&& import_views(s.imports@) == imports_of_kinds(
        t,
        t.len(),
        "import_statement"@,
        "import_from_statement"@,
    )
    &&& s.structs@.len() == 0
    &&& s.impl_blocks@.len() == 0
    &&& s.traits@.len() == 0
    &&& s.interfaces@.len() == 0
    &&& s.properties@.len() == 0
    &&& s.dependencies@.len() == 0
}

/// The shape of a Python file: its top-level functions, its classes that
/// are not nested, with their methods, and its `import` and `from`
/// statements, each in source order.
pub fn extract_python_enhanced(tree: &SyntaxTree, include_code: bool) -> (r: EnhancedFileShape)
    requires
        tree.wf(),
    ensures
        r.path is None,
        r.language is None,
        python_shape_is(r, *tree, include_code),
{
    let mut functions: Vec<EnhancedFunctionInfo> = Vec::new();
    let mut classes: Vec<EnhancedClassInfo> = Vec::new();
    let mut imports: Vec<ImportInfo> = Vec::new();
    let mut k: usize = 0;
    while k < tree.nodes.len()
        invariant
            tree.wf(),
            k <= tree.len(),
            function_views(functions@) == python_functions(*tree, k as int, include_code),
            class_views(classes@) == python_classes(*tree, k as int, include_code),
            import_views(imports@) == imports_of_kinds(
                *tree,
                k as int,
                "import_statement"@,
                "import_from_statement"@,
            ),
        decreases tree.nodes.len() - k,
    {
        if is_named_node(tree, k, "function_definition", "identifier") && !is_inside_class(tree, k) {
            let f = function_entry_of(tree, k, Language::Python, include_code);
            let ghost before = functions@;
            functions.push(f);
            assert(function_views(functions@) =~= function_views(before).push(function_view(f)));
        }
        if is_named_node(tree, k, "class_definition", "identifier") && !is_inside_class(tree, k) {
            let c = class_entry_of(tree, k, Language::Python, include_code);
            let ghost before = classes@;
            classes.push(c);
            assert(class_views(classes@) =~= class_views(before).push(class_view(c)));
        }
        if tree.kind_is(k, "import_statement") || tree.kind_is(k, "import_from_statement") {
            let im = ImportInfo { text: tree.node_text(k), line: start_line(tree, k) };
            let ghost before = imports@;
            imports.push(im);
            assert(import_views(imports@) =~= import_views(before).push(
                import_entry(*tree, k as int),
            ));
        }
        k = k + 1;
    }
    EnhancedFileShape {
        path: None,
        language: None,
        functions,
        structs: Vec::new(),
        classes,
        imports,
        impl_blocks: Vec::new(),
        traits: Vec::new(),
        interfaces: Vec::new(),
        properties: Vec::new(),
        dependencies: Vec::new(),
    }
}

/// Node `i` is a declaration of kind `kind` that the JavaScript or
/// TypeScript shape lists: in TypeScript any such node with a `name`
/// child, in JavaScript one named by an `identifier`.
pub open spec fn js_declaration(t: SyntaxTree, i: int, kind: Seq<char>, l: Language) -> bool {
    if l == Language::TypeScript {
        t.kind(i) == kind && t.child_by_field(i, "name"@) is Some
    } else {
        named_node(t, i, kind, "identifier"@)
    }
}

fn is_js_declaration(tree: &SyntaxTree, i: usize, kind: &str, language: Language) -> (r: bool)
    requires
        tree.wf(),
        i < tree.len(),
    ensures
        r == js_declaration(*tree, i as int, kind@, language),
{
    if language == Language::TypeScript {
        tree.kind_is(i, kind) && tree.child_by_field_name(i, "name").is_some()
    } else {
        is_named_node(tree, i, kind, "identifier")
    }
}

/// The language whose comments document JavaScript or TypeScript nodes.
pub open spec fn js_doc_language(l: Language) -> Language {
    if l == Language::TypeScript {
        Language::TypeScript
    } else {
        Language::JavaScript
    }
}

/// JavaScript/TypeScript: the function declarations among the first `k`
/// nodes.
pub open spec fn js_functions(t: SyntaxTree, k: int, l: Language, include_code: bool) -> Seq<
    FunctionView,
>
    decreases k,
{
    if k <= 0 {
        seq![]
    } else {
        let r = js_functions(t, k - 1, l, include_code);
        if js_declaration(t, k - 1, "function_declaration"@, l) {
            r.push(function_entry(t, k - 1, js_doc_language(l), include_code))
        } else {
            r
        }
    }
}

/// JavaScript/TypeScript: the class declarations among the first `k`
/// nodes, with their methods.
pub open spec fn js_classes(t: SyntaxTree, k: int, l: Language, include_code: bool) -> Seq<ClassView>
    decreases k,
{
    if k <= 0 {
        seq![]
    } else {
        let r = js_classes(t, k - 1, l, include_code);
        if js_declaration(t, k - 1, "class_declaration"@, l) {
            r.push(class_entry(t, k - 1, js_doc_language(l), include_code))
        } else {
            r
        }
    }
}

/// The members of a TypeScript interface body among `cs`: method and
/// property signatures with a `name` child.
pub open spec fn interface_members(t: SyntaxTree, cs: Seq<usize>, include_code: bool) -> Seq<
    FunctionView,
>
    decreases cs.len(),
{
    if cs.len() == 0 {
        seq![]
    } else {
        let rest = interface_members(t, cs.drop_last(), include_code);
        let c = cs.last() as int;
        if (t.kind(c) == "method_signature"@ || t.kind(c) == "property_signature"@)
            && t.child_by_field(c, "name"@) is Some {
            rest.push(function_entry(t, c, Language::TypeScript, include_code))
        } else {
            rest
        }
    }
}

/// A TypeScript interface: its name (or `Unknown`), lines, doc comment,
/// code and the members of its body.
pub open spec fn interface_entry(t: SyntaxTree, i: int, include_code: bool) -> InterfaceView {
    (
        field_text_or(t, i, "name"@, "Unknown"@),
        node_line(t, i),
        node_end_line(t, i),
        doc_comment(t, i, Language::TypeScript),
        code_if(t, i, include_code),
        match t.child_by_field(i, "body"@) {
            Some(b) => interface_members(t, t.children(b as int), include_code),
            None => seq![],
        },
        seq![],
    )
}

/// Extract a TypeScript interface (see `interface_entry`).
pub fn extract_interface(tree: &SyntaxTree, i: usize, include_code: bool) -> (r: InterfaceInfo)
    requires
        tree.wf(),
        i < tree.len(),
    ensures
        interface_view(r) == interface_entry(*tree, i as int, include_code),
{
    let mut methods: Vec<EnhancedFunctionInfo> = Vec::new();
    match tree.child_by_field_name(i, "body") {
        Some(body) => {
            let cs = tree.children_of(body);
            let mut k: usize = 0;
            while k < cs.len()
                invariant
                    tree.wf(),
                    cs@ == tree.children(body as int),
                    forall|j: int| 0 <= j < cs@.len() ==> (#[trigger] cs@[j]) < tree.len(),
                    k <= cs.len(),
                    function_views(methods@) == interface_members(
                        *tree,
                        cs@.take(k as int),
                        include_code,
                    ),
                decreases cs.len() - k,
            {
                let c = cs[k];
                assert(cs@.take(k + 1).drop_last() =~= cs@.take(k as int));
                assert(cs@.take(k + 1).last() == c);
                if (tree.kind_is(c, "method_signature") || tree.kind_is(c, "property_signature"))
                    && tree.child_by_field_name(c, "name").is_some() {
                    let f = function_entry_of(tree, c, Language::TypeScript, include_code);
                    let ghost before = methods@;
                    methods.push(f);
                    assert(function_views(methods@) =~= function_views(before).push(
                        function_view(f),
                    ));
                }
                k = k + 1;
            }
            assert(cs@.take(cs@.len() as int) =~= cs@);
        },
        None => {
            assert(function_views(methods@) =~= seq![]);
        },
    }
    let r = InterfaceInfo {
        name: field_text(tree, i, "name", "Unknown"),
        line: start_line(tree, i),
        end_line: end_line(tree, i),
        doc: extract_doc_comment(tree, i, Language::TypeScript),
        code: code_when(tree, i, include_code),
        methods,
        properties: Vec::new(),
    };
    assert(opt_view(r.doc) == doc_comment(*tree, i as int, Language::TypeScript));
    assert(property_views(r.properties@) =~= seq![]);
    r
}

/// TypeScript: the interfaces among the first `k` nodes, named by a
/// `type_identifier`; none in JavaScript.
pub open spec fn js_interfaces(t: SyntaxTree, k: int, l: Language, include_code: bool) -> Seq<
    InterfaceView,
>
    decreases k,
{
    if k <= 0 {
        seq![]
    } else {
        let r = js_interfaces(t, k - 1, l, include_code);
        if l == Language::TypeScript && named_node(
            t,
            k - 1,
            "interface_declaration"@,
            "type_identifier"@,
        ) {
            r.push(interface_entry(t, k - 1, include_code))
        } else {
            r
        }
    }
}

/// The lists of `s` are those of a JavaScript or TypeScript file (see `extract_js_enhanced`).
pub open spec fn js_shape_is(s: EnhancedFileShape, t: SyntaxTree, l: Language, ic: bool) -> bool {
    &&& function_views(s.functions@) == js_functions(t, t.len(), l, ic)
    &&& class_views(s.classes@) == js_classes(t, t.len(), l, ic)
    &&& import_views(s.imports@) == imports_of_kinds(
        t,
        t.len(),
        "import_statement"@,
        "import_statement"@,
    )
    &&& interface_views(s.interfaces@) == js_interfaces(t, t.len(), l, ic)
    &&& s.structs@.len() == 0
    &&& s.impl_blocks@.len() == 0
    &&& s.traits@.len() == 0
    &&& s.properties@.len() == 0
    &&& s.dependencies@.len() == 0
}

/// The shape of a JavaScript or TypeScript file: its function
/// declarations, class declarations with their methods, import
/// statements and (TypeScript) interfaces, each in source order.
pub fn extract_js_enhanced(tree: &SyntaxTree, language: Language, include_code: bool) -> (r:
    EnhancedFileShape)
    requires
        tree.wf(),
    ensures
        r.path is None,
        r.language is None,
        js_shape_is(r, *tree, language, include_code),
{
    let doc_language = if language == Language::TypeScript {
        Language::TypeScript
    } else {
        Language::JavaScript
    };
    let mut functions: Vec<EnhancedFunctionInfo> = Vec::new();
    let mut classes: Vec<EnhancedClassInfo> = Vec::new();
    let mut imports: Vec<ImportInfo> = Vec::new();
    let mut interfaces: Vec<InterfaceInfo> = Vec::new();
    let mut k: usize = 0;
    while k < tree.nodes.len()
        invariant
            tree.wf(),
            k <= tree.len(),
            doc_language == js_doc_language(language),
            function_views(functions@) == js_functions(*tree, k as int, language, include_code),
            class_views(classes@) == js_classes(*tree, k as int, language, include_code),
            import_views(imports@) == imports_of_kinds(
                *tree,
                k as int,
                "import_statement"@,
                "import_statement"@,
            ),
            interface_views(interfaces@) == js_interfaces(*tree, k as int, language, include_code),
        decreases tree.nodes.len() - k,
    {
        if is_js_declaration(tree, k, "function_declaration", language) {
            let f = function_entry_of(tree, k, doc_language, include_code);
            let ghost before = functions@;
            functions.push(f);
            assert(function_views(functions@) =~= function_views(before).push(function_view(f)));
        }
        if is_js_declaration(tree, k, "class_declaration", language) {
            let c = class_entry_of(tree, k, doc_language, include_code);
            let ghost before = classes@;
            classes.push(c);
            assert(class_views(classes@) =~= class_views(before).push(class_view(c)));
        }
        if language == Language::TypeScript && is_named_node(
            tree,
            k,
            "interface_declaration",
            "type_identifier",
        ) {
            let it = extract_interface(tree, k, include_code);
            let ghost before = interfaces@;
            interfaces.push(it);
            assert(interface_views(interfaces@) =~= interface_views(before).push(
                interface_view(it),
            ));
        }
        if tree.kind_is(k, "import_statement") {
            let im = ImportInfo { text: tree.node_text(k), line: start_line(tree, k) };
            let ghost before = imports@;
            imports.push(im);
            assert(import_views(imports@) =~= import_views(before).push(
                import_entry(*tree, k as int),
            ));
        }
        k = k + 1;
    }
    EnhancedFileShape {
        path: None,
        language: None,
        functions,
        structs: Vec::new(),
        classes,
        imports,
        impl_blocks: Vec::new(),
        traits: Vec::new(),
        interfaces,
        properties: Vec::new(),
        dependencies: Vec::new(),
    }
}

} // verus!
