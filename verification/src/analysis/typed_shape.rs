//! The shape of Swift, C#, Java and Go files.
use vstd::prelude::*;
use crate::analysis::script_shape::{class_entry, class_entry_of, import_entry};
use crate::analysis::shape::{
    ClassView, EnhancedClassInfo, EnhancedFileShape, EnhancedFunctionInfo, EnhancedStructInfo,
    FunctionView, ImportInfo, ImportView, InterfaceInfo, InterfaceView, MethodInfo, MethodView,
    PropertyInfo, PropertyView, StructView, TraitInfo, TraitView, class_methods, class_view,
    class_views, code_if, code_when, declaration_signature, doc_comment, end_line,
    extract_class_methods, extract_doc_comment, extract_signature, field_text, field_text_or,
    function_entry, function_entry_of, function_view, function_views, import_views,
    inside_class, interface_view, interface_views, is_inside_class, is_named_node, method_view,
    method_views, named_node, node_end_line, node_line, opt_view, property_view, property_views,
    start_line, struct_views, trait_views,
};
use crate::parser::Language;
use crate::syntax::SyntaxTree;
use crate::text::{chars_of, skip_ws, starts_with, starts_with_lit, trim_start, views};

verus! {

// ---------------------------------------------------------------------------
// Children helpers
// ---------------------------------------------------------------------------

/// The texts of the nodes of `cs` whose kind is `a` or `b`.
pub open spec fn texts_of_kinds(t: SyntaxTree, cs: Seq<usize>, a: Seq<char>, b: Seq<char>) -> Seq<
    Seq<char>,
>
    decreases cs.len(),
{
    if cs.len() == 0 {
        seq![]
    } else {
        let r = texts_of_kinds(t, cs.drop_last(), a, b);
        let c = cs.last() as int;
        if t.kind(c) == a || t.kind(c) == b {
            r.push(t.text(c))
        } else {
            r
        }
    }
}

/// The texts of the children of `p` whose kind is `a` or `b`.
pub fn child_texts(tree: &SyntaxTree, p: usize, a: &str, b: &str) -> (r: Vec<String>)
    requires
        tree.wf(),
    ensures
        views(r@) == texts_of_kinds(*tree, tree.children(p as int), a@, b@),
{
    let cs = tree.children_of(p);
    let mut out: Vec<String> = Vec::new();
    let mut k: usize = 0;
    while k < cs.len()
        invariant
            tree.wf(),
            cs@ == tree.children(p as int),
            forall|j: int| 0 <= j < cs@.len() ==> (#[trigger] cs@[j]) < tree.len(),
            k <= cs.len(),
            views(out@) == texts_of_kinds(*tree, cs@.take(k as int), a@, b@),
        decreases cs.len() - k,
    {
        let c = cs[k];
        assert(cs@.take(k + 1).drop_last() =~= cs@.take(k as int));
        assert(cs@.take(k + 1).last() == c);
        if tree.kind_is(c, a) || tree.kind_is(c, b) {
            let s = tree.node_text(c);
            let ghost before = views(out@);
            out.push(s);
            assert(views(out@) =~= before.push(s@));
        }
        k = k + 1;
    }
    assert(cs@.take(cs@.len() as int) =~= cs@);
    out
}

/// The first node of `cs` whose kind is `kind`.
pub open spec fn first_of_kind(t: SyntaxTree, cs: Seq<usize>, kind: Seq<char>) -> Option<usize>
    decreases cs.len(),
{
    if cs.len() == 0 {
        None
    } else if t.kind(cs[0] as int) == kind {
        Some(cs[0])
    } else {
        first_of_kind(t, cs.drop_first(), kind)
    }
}

/// The first child of `p` whose kind is `kind`.
pub fn first_child_of_kind(tree: &SyntaxTree, p: usize, kind: &str) -> (r: Option<usize>)
    requires
        tree.wf(),
    ensures
        r == first_of_kind(*tree, tree.children(p as int), kind@),
        r matches Some(c) ==> c < tree.len(),
{
    let cs = tree.children_of(p);
    let mut k: usize = 0;
    assert(cs@.skip(0) =~= cs@);
    while k < cs.len()
        invariant
            tree.wf(),
            cs@ == tree.children(p as int),
            forall|j: int| 0 <= j < cs@.len() ==> (#[trigger] cs@[j]) < tree.len(),
            k <= cs.len(),
            first_of_kind(*tree, cs@, kind@) == first_of_kind(*tree, cs@.skip(k as int), kind@),
        decreases cs.len() - k,
    {
        let c = cs[k];
        assert(cs@.skip(k as int)[0] == c);
        if tree.kind_is(c, kind) {
            return Some(c);
        }
        assert(cs@.skip(k as int).drop_first() =~= cs@.skip(k + 1));
        k = k + 1;
    }
    None
}

/// The function entries of the children of `p` of kind `kind` that have a
/// `name` child, documented in `l`.
pub open spec fn named_children_entries(
    t: SyntaxTree,
    cs: Seq<usize>,
    kind: Seq<char>,
    l: Language,
    include_code: bool,
) -> Seq<FunctionView>
    decreases cs.len(),
{
    if cs.len() == 0 {
        seq![]
    } else {
        let r = named_children_entries(t, cs.drop_last(), kind, l, include_code);
        let c = cs.last() as int;
        if t.kind(c) == kind && t.child_by_field(c, "name"@) is Some {
            r.push(member_entry(t, c, l, include_code))
        } else {
            r
        }
    }
}

/// A member function: a Java method carries its annotations, others none.
pub open spec fn member_entry(t: SyntaxTree, i: int, l: Language, include_code: bool) -> FunctionView {
    let f = function_entry(t, i, l, include_code);
    if l == Language::Java {
        (f.0, f.1, f.2, f.3, f.4, f.5, java_annotations(t, i))
    } else {
        f
    }
}

fn member_entry_of(tree: &SyntaxTree, i: usize, language: Language, include_code: bool) -> (r:
    EnhancedFunctionInfo)
    requires
        tree.wf(),
        i < tree.len(),
    ensures
        function_view(r) == member_entry(*tree, i as int, language, include_code),
{
    let mut f = function_entry_of(tree, i, language, include_code);
    if language == Language::Java {
        f.annotations = extract_java_annotations(tree, i);
    }
    f
}

/// The members of kind `kind` in the `body` child of `i`.
pub open spec fn body_members(t: SyntaxTree, i: int, kind: Seq<char>, l: Language, include_code: bool) -> Seq<
    FunctionView,
> {
    match t.child_by_field(i, "body"@) {
        Some(b) => named_children_entries(t, t.children(b as int), kind, l, include_code),
        None => seq![],
    }
}

/// The `method_declaration` members of the body of `i` (C# and Java).
pub fn extract_body_methods(tree: &SyntaxTree, i: usize, language: Language, include_code: bool) -> (r:
    Vec<EnhancedFunctionInfo>)
    requires
        tree.wf(),
    ensures
        function_views(r@) == body_members(
            *tree,
            i as int,
            "method_declaration"@,
            language,
            include_code,
        ),
{
    let mut out: Vec<EnhancedFunctionInfo> = Vec::new();
    let body = match tree.child_by_field_name(i, "body") {
        Some(b) => b,
        None => {
            assert(function_views(out@) =~= seq![]);
            return out;
        },
    };
    let cs = tree.children_of(body);
    let mut k: usize = 0;
    while k < cs.len()
        invariant
            tree.wf(),
            cs@ == tree.children(body as int),
            forall|j: int| 0 <= j < cs@.len() ==> (#[trigger] cs@[j]) < tree.len(),
            k <= cs.len(),
            function_views(out@) == named_children_entries(
                *tree,
                cs@.take(k as int),
                "method_declaration"@,
                language,
                include_code,
            ),
        decreases cs.len() - k,
    {
        let c = cs[k];
        assert(cs@.take(k + 1).drop_last() =~= cs@.take(k as int));
        assert(cs@.take(k + 1).last() == c);
        if tree.kind_is(c, "method_declaration") && tree.child_by_field_name(c, "name").is_some() {
            let f = member_entry_of(tree, c, language, include_code);
            let ghost before = function_views(out@);
            out.push(f);
            assert(function_views(out@) =~= before.push(function_view(f)));
        }
        k = k + 1;
    }
    assert(cs@.take(cs@.len() as int) =~= cs@);
    out
}

// ---------------------------------------------------------------------------
// Java annotations and implemented interfaces, C# base lists
// ---------------------------------------------------------------------------

/// The names of the annotations among `cs`.
pub open spec fn annotation_names(t: SyntaxTree, cs: Seq<usize>) -> Seq<Seq<char>>
    decreases cs.len(),
{
    if cs.len() == 0 {
        seq![]
    } else {
        let r = annotation_names(t, cs.drop_last());
        let c = cs.last() as int;
        if (t.kind(c) == "marker_annotation"@ || t.kind(c) == "annotation"@) && t.child_by_field(
            c,
            "name"@,
        ) is Some {
            r.push(field_text_or(t, c, "name"@, ""@))
        } else {
            r
        }
    }
}

/// The annotations of a Java declaration: the names of the annotations in
/// its first `modifiers` child.
pub open spec fn java_annotations(t: SyntaxTree, i: int) -> Seq<Seq<char>> {
    match first_of_kind(t, t.children(i), "modifiers"@) {
        Some(m) => annotation_names(t, t.children(m as int)),
        None => seq![],
    }
}

/// The annotations of a Java declaration (see `java_annotations`).
pub fn extract_java_annotations(tree: &SyntaxTree, i: usize) -> (r: Vec<String>)
    requires
        tree.wf(),
        i < tree.len(),
    ensures
        views(r@) == java_annotations(*tree, i as int),
{
    let mut out: Vec<String> = Vec::new();
    let m = match first_child_of_kind(tree, i, "modifiers") {
        Some(m) => m,
        None => {
            assert(views(out@) =~= seq![]);
            return out;
        },
    };
    let cs = tree.children_of(m);
    let mut k: usize = 0;
    while k < cs.len()
        invariant
            tree.wf(),
            cs@ == tree.children(m as int),
            forall|j: int| 0 <= j < cs@.len() ==> (#[trigger] cs@[j]) < tree.len(),
            k <= cs.len(),
            views(out@) == annotation_names(*tree, cs@.take(k as int)),
        decreases cs.len() - k,
    {
        let c = cs[k];
        assert(cs@.take(k + 1).drop_last() =~= cs@.take(k as int));
        assert(cs@.take(k + 1).last() == c);
        if (tree.kind_is(c, "marker_annotation") || tree.kind_is(c, "annotation"))
            && tree.child_by_field_name(c, "name").is_some() {
            let s = field_text(tree, c, "name", "");
            let ghost before = views(out@);
            out.push(s);
            assert(views(out@) =~= before.push(s@));
        }
        k = k + 1;
    }
    assert(cs@.take(cs@.len() as int) =~= cs@);
    out
}

/// The interface names among the children `cs` of a Java `interfaces`
/// node: the type identifiers of its type lists, and its own type
/// identifiers.
pub open spec fn java_interface_names(t: SyntaxTree, cs: Seq<usize>) -> Seq<Seq<char>>
    decreases cs.len(),
{
    if cs.len() == 0 {
        seq![]
    } else {
        let r = java_interface_names(t, cs.drop_last());
        let c = cs.last() as int;
        if t.kind(c) == "type_list"@ {
            r + texts_of_kinds(t, t.children(c), "type_identifier"@, "type_identifier"@)
        } else if t.kind(c) == "type_identifier"@ {
            r.push(t.text(c))
        } else {
            r
        }
    }
}

/// The interfaces a Java class implements.
pub open spec fn java_implements(t: SyntaxTree, i: int) -> Seq<Seq<char>> {
    match t.child_by_field(i, "interfaces"@) {
        Some(s) => java_interface_names(t, t.children(s as int)),
        None => seq![],
    }
}

fn extract_java_implemented_interfaces(tree: &SyntaxTree, i: usize) -> (r: Vec<String>)
    requires
        tree.wf(),
    ensures
        views(r@) == java_implements(*tree, i as int),
{
    let mut out: Vec<String> = Vec::new();
    let s = match tree.child_by_field_name(i, "interfaces") {
        Some(s) => s,
        None => {
            assert(views(out@) =~= seq![]);
            return out;
        },
    };
    let cs = tree.children_of(s);
    let mut k: usize = 0;
    while k < cs.len()
        invariant
            tree.wf(),
            cs@ == tree.children(s as int),
            forall|j: int| 0 <= j < cs@.len() ==> (#[trigger] cs@[j]) < tree.len(),
            k <= cs.len(),
            views(out@) == java_interface_names(*tree, cs@.take(k as int)),
        decreases cs.len() - k,
    {
        let c = cs[k];
        assert(cs@.take(k + 1).drop_last() =~= cs@.take(k as int));
        assert(cs@.take(k + 1).last() == c);
        if tree.kind_is(c, "type_list") {
            let names = child_texts(tree, c, "type_identifier", "type_identifier");
            let ghost before = views(out@);
            let mut q: usize = 0;
            while q < names.len()
                invariant
                    q <= names.len(),
                    views(out@) == before + views(names@).take(q as int),
                decreases names.len() - q,
            {
                let nm = names[q].clone();
                assert(nm@ == views(names@)[q as int]);
                let ghost pre = views(out@);
                out.push(nm);
                assert(views(out@) =~= pre.push(nm@));
                assert(views(names@).take(q + 1) =~= views(names@).take(q as int).push(
                    names@[q as int]@,
                ));
                assert(views(out@) =~= before + views(names@).take(q + 1));
                q = q + 1;
            }
            assert(views(names@).take(names@.len() as int) =~= views(names@));
        } else if tree.kind_is(c, "type_identifier") {
            let t = tree.node_text(c);
            let ghost before = views(out@);
            out.push(t);
            assert(views(out@) =~= before.push(t@));
        }
        k = k + 1;
    }
    assert(cs@.take(cs@.len() as int) =~= cs@);
    out
}

/// The interfaces a C# class implements: the identifiers and generic names
/// of its first `base_list` child.
pub open spec fn csharp_implements(t: SyntaxTree, i: int) -> Seq<Seq<char>> {
    match first_of_kind(t, t.children(i), "base_list"@) {
        Some(b) => texts_of_kinds(t, t.children(b as int), "identifier"@, "generic_name"@),
        None => seq![],
    }
}

fn extract_csharp_implemented_interfaces(tree: &SyntaxTree, i: usize) -> (r: Vec<String>)
    requires
        tree.wf(),
    ensures
        views(r@) == csharp_implements(*tree, i as int),
{
    match first_child_of_kind(tree, i, "base_list") {
        Some(b) => child_texts(tree, b, "identifier", "generic_name"),
        None => {
            let out: Vec<String> = Vec::new();
            assert(views(out@) =~= seq![]);
            out
        },
    }
}

// ---------------------------------------------------------------------------
// Swift
// ---------------------------------------------------------------------------

/// A Swift `class_declaration` that declares a struct: its first child's
/// text starts (after whitespace) with `struct`.
pub open spec fn swift_struct(t: SyntaxTree, i: int) -> bool {
    let cs = t.children(i);
    cs.len() > 0 && starts_with(trim_start(t.text(cs[0] as int)), "struct"@)
}

fn is_swift_struct(tree: &SyntaxTree, i: usize) -> (r: bool)
    requires
        tree.wf(),
        i < tree.len(),
    ensures
        r == swift_struct(*tree, i as int),
{
    let cs = tree.children_of(i);
    if cs.len() == 0 {
        return false;
    }
    let text = chars_of(tree.node_text(cs[0]).as_str());
    let k = skip_ws(text.as_slice(), 0, text.len());
    assert(text@.subrange(0, text@.len() as int) =~= text@);
    let rest = crate::text::slice_range(text.as_slice(), k, text.len());
    assert(rest@ =~= trim_start(text@));
    starts_with_lit(rest.as_slice(), "struct")
}

/// Swift: the top-level function declarations among the first `k` nodes.
pub open spec fn swift_functions(t: SyntaxTree, k: int, include_code: bool) -> Seq<FunctionView>
    decreases k,
{
    if k <= 0 {
        seq![]
    } else {
        let r = swift_functions(t, k - 1, include_code);
        if named_node(t, k - 1, "function_declaration"@, "simple_identifier"@) && !inside_class(
            t,
            k - 1,
        ) {
            r.push(function_entry(t, k - 1, Language::Swift, include_code))
        } else {
            r
        }
    }
}

/// A Swift class declaration that is listed: named by a type identifier
/// and not nested.
pub open spec fn swift_class_decl(t: SyntaxTree, i: int) -> bool {
    named_node(t, i, "class_declaration"@, "type_identifier"@) && !inside_class(t, i)
}

/// Swift: the structs among the first `k` nodes.
pub open spec fn swift_structs(t: SyntaxTree, k: int, include_code: bool) -> Seq<StructView>
    decreases k,
{
    if k <= 0 {
        seq![]
    } else {
        let r = swift_structs(t, k - 1, include_code);
        if swift_class_decl(t, k - 1) && swift_struct(t, k - 1) {
            r.push(
                (
                    field_text_or(t, k - 1, "name"@, ""@),
                    node_line(t, k - 1),
                    node_end_line(t, k - 1),
                    doc_comment(t, k - 1, Language::Swift),
                    code_if(t, k - 1, include_code),
                ),
            )
        } else {
            r
        }
    }
}

/// Swift: the classes (not structs) among the first `k` nodes.
pub open spec fn swift_classes(t: SyntaxTree, k: int, include_code: bool) -> Seq<ClassView>
    decreases k,
{
    if k <= 0 {
        seq![]
    } else {
        let r = swift_classes(t, k - 1, include_code);
        if swift_class_decl(t, k - 1) && !swift_struct(t, k - 1) {
            r.push(class_entry(t, k - 1, Language::Swift, include_code))
        } else {
            r
        }
    }
}

/// A function entry as a method.
pub open spec fn as_method(f: FunctionView) -> MethodView {
    (f.0, f.1, f.2, f.3, f.4, f.5)
}

/// Swift: the protocols among the first `k` nodes, as traits with the
/// methods of their bodies.
pub open spec fn swift_traits(t: SyntaxTree, k: int, include_code: bool) -> Seq<TraitView>
    decreases k,
{
    if k <= 0 {
        seq![]
    } else {
        let r = swift_traits(t, k - 1, include_code);
        if named_node(t, k - 1, "protocol_declaration"@, "type_identifier"@) && !inside_class(
            t,
            k - 1,
        ) {
            r.push(
                (
                    field_text_or(t, k - 1, "name"@, ""@),
                    node_line(t, k - 1),
                    node_end_line(t, k - 1),
                    doc_comment(t, k - 1, Language::Swift),
                    class_methods(t, k - 1, Language::Swift, include_code).map_values(
                        |f: FunctionView| as_method(f),
                    ),
                ),
            )
        } else {
            r
        }
    }
}

/// The imports among the first `k` nodes: nodes of kind `kind`.
pub open spec fn imports_of_kind(t: SyntaxTree, k: int, kind: Seq<char>) -> Seq<ImportView>
    decreases k,
{
    if k <= 0 {
        seq![]
    } else {
        let r = imports_of_kind(t, k - 1, kind);
        if t.kind(k - 1) == kind {
            r.push(import_entry(t, k - 1))
        } else {
            r
        }
    }
}

fn as_methods(fs: Vec<EnhancedFunctionInfo>) -> (r: Vec<MethodInfo>)
    ensures
        method_views(r@) == function_views(fs@).map_values(|f: FunctionView| as_method(f)),
{
    let mut out: Vec<MethodInfo> = Vec::new();
    let ghost mut k: int = 0;
    let mut rest = fs;
    let ghost all = function_views(rest@);
    assert(all.map_values(|f: FunctionView| as_method(f)).take(0) =~= seq![]);
    assert(all.skip(0) =~= all);
    while rest.len() > 0
        invariant
            0 <= k <= all.len(),
            k + rest@.len() == all.len(),
            function_views(rest@) == all.skip(k),
            method_views(out@) == all.map_values(|f: FunctionView| as_method(f)).take(k),
        decreases rest@.len(),
    {
        let ghost old_rest = rest@;
        let f = rest.remove(0);
        assert(all.skip(k)[0] == function_view(old_rest[0]));
        assert(function_view(f) == all[k]);
        assert forall|j: int| 0 <= j < rest@.len() implies #[trigger] function_views(rest@)[j]
            == all.skip(k + 1)[j] by {
            assert(rest@[j] == old_rest[j + 1]);
            assert(function_views(old_rest)[j + 1] == all.skip(k)[j + 1]);
        }
        assert(function_views(rest@) =~= all.skip(k + 1));
        let m = MethodInfo {
            name: f.name,
            signature: f.signature,
            line: f.line,
            end_line: f.end_line,
            doc: f.doc,
            code: f.code,
        };
        let ghost before = method_views(out@);
        out.push(m);
        assert(method_views(out@) =~= before.push(method_view(m)));
        assert(all.map_values(|f: FunctionView| as_method(f)).take(k + 1) =~= all.map_values(
            |f: FunctionView| as_method(f),
        ).take(k).push(as_method(all[k])));
        proof {
            k = k + 1;
        }
    }
    assert(all.map_values(|f: FunctionView| as_method(f)).take(k) =~= all.map_values(
        |f: FunctionView| as_method(f),
    ));
    out
}

/// The lists of `s` are those of a Swift file (see `extract_swift_enhanced`).
pub open spec fn swift_shape_is(s: EnhancedFileShape, t: SyntaxTree, ic: bool) -> bool {
    &&& function_views(s.functions@) == swift_functions(t, t.len(), ic)
    &&& struct_views(s.structs@) == swift_structs(t, t.len(), ic)
    &&& class_views(s.classes@) == swift_classes(t, t.len(), ic)
    &&& trait_views(s.traits@) == swift_traits(t, t.len(), ic)
    &&& import_views(s.imports@) == imports_of_kind(t, t.len(), "import_declaration"@)
    &&& s.impl_blocks@.len() == 0
    &&& s.interfaces@.len() == 0
    &&& s.properties@.len() == 0
    &&& s.dependencies@.len() == 0
}

/// The shape of a Swift file: its top-level functions, structs, classes
/// with their methods, protocols and imports.
pub fn extract_swift_enhanced(tree: &SyntaxTree, include_code: bool) -> (r: EnhancedFileShape)
    requires
        tree.wf(),
    ensures
        r.path is None,
        r.language is None,
        swift_shape_is(r, *tree, include_code),
{
    let mut functions: Vec<EnhancedFunctionInfo> = Vec::new();
    let mut structs: Vec<EnhancedStructInfo> = Vec::new();
    let mut classes: Vec<EnhancedClassInfo> = Vec::new();
    let mut traits: Vec<TraitInfo> = Vec::new();
    let mut imports: Vec<ImportInfo> = Vec::new();
    let mut k: usize = 0;
    while k < tree.nodes.len()
        invariant
            tree.wf(),
            k <= tree.len(),
            function_views(functions@) == swift_functions(*tree, k as int, include_code),
            struct_views(structs@) == swift_structs(*tree, k as int, include_code),
            class_views(classes@) == swift_classes(*tree, k as int, include_code),
            trait_views(traits@) == swift_traits(*tree, k as int, include_code),
            import_views(imports@) == imports_of_kind(*tree, k as int, "import_declaration"@),
        decreases tree.nodes.len() - k,
    {
        if is_named_node(tree, k, "function_declaration", "simple_identifier") && !is_inside_class(
            tree,
            k,
        ) {
            let f = function_entry_of(tree, k, Language::Swift, include_code);
            let ghost before = function_views(functions@);
            functions.push(f);
            assert(function_views(functions@) =~= before.push(function_view(f)));
        }
        if is_named_node(tree, k, "class_declaration", "type_identifier") && !is_inside_class(
            tree,
            k,
        ) {
            if is_swift_struct(tree, k) {
                let s = EnhancedStructInfo {
                    name: field_text(tree, k, "name", ""),
                    line: start_line(tree, k),
                    end_line: end_line(tree, k),
                    doc: extract_doc_comment(tree, k, Language::Swift),
                    code: code_when(tree, k, include_code),
                };
                assert(opt_view(s.doc) == doc_comment(*tree, k as int, Language::Swift));
                let ghost before = struct_views(structs@);
                structs.push(s);
                assert(struct_views(structs@) =~= before.push(
                    (
                        field_text_or(*tree, k as int, "name"@, ""@),
                        node_line(*tree, k as int),
                        node_end_line(*tree, k as int),
                        doc_comment(*tree, k as int, Language::Swift),
                        code_if(*tree, k as int, include_code),
                    ),
                ));
            } else {
                let c = class_entry_of(tree, k, Language::Swift, include_code);
                let ghost before = class_views(classes@);
                classes.push(c);
                assert(class_views(classes@) =~= before.push(class_view(c)));
            }
        }
        if is_named_node(tree, k, "protocol_declaration", "type_identifier") && !is_inside_class(
            tree,
            k,
        ) {
            let methods = as_methods(extract_class_methods(tree, k, Language::Swift, include_code));
            let tr = TraitInfo {
                name: field_text(tree, k, "name", ""),
                line: start_line(tree, k),
                end_line: end_line(tree, k),
                doc: extract_doc_comment(tree, k, Language::Swift),
                methods,
            };
            assert(opt_view(tr.doc) == doc_comment(*tree, k as int, Language::Swift));
            let ghost before = trait_views(traits@);
            traits.push(tr);
            assert(trait_views(traits@) =~= before.push(
                (
                    field_text_or(*tree, k as int, "name"@, ""@),
                    node_line(*tree, k as int),
                    node_end_line(*tree, k as int),
                    doc_comment(*tree, k as int, Language::Swift),
                    class_methods(*tree, k as int, Language::Swift, include_code).map_values(
                        |f: FunctionView| as_method(f),
                    ),
                ),
            ));
        }
        if tree.kind_is(k, "import_declaration") {
            let im = ImportInfo { text: tree.node_text(k), line: start_line(tree, k) };
            let ghost before = import_views(imports@);
            imports.push(im);
            assert(import_views(imports@) =~= before.push(import_entry(*tree, k as int)));
        }
        k = k + 1;
    }
    EnhancedFileShape {
        path: None,
        language: None,
        functions,
        structs,
        classes,
        imports,
        impl_blocks: Vec::new(),
        traits,
        interfaces: Vec::new(),
        properties: Vec::new(),
        dependencies: Vec::new(),
    }
}

// ---------------------------------------------------------------------------
// C# and Java
// ---------------------------------------------------------------------------

/// Node `i` is of kind `kind` and has a `name` child.
pub open spec fn has_name(t: SyntaxTree, i: int, kind: Seq<char>) -> bool {
    t.kind(i) == kind && t.child_by_field(i, "name"@) is Some
}

fn is_with_name(tree: &SyntaxTree, i: usize, kind: &str) -> (r: bool)
    requires
        tree.wf(),
        i < tree.len(),
    ensures
        r == has_name(*tree, i as int, kind@),
{
    tree.kind_is(i, kind) && tree.child_by_field_name(i, "name").is_some()
}

/// C# or Java: the methods among the first `k` nodes (every method
/// declaration with a name, wherever it stands).
pub open spec fn member_functions(t: SyntaxTree, k: int, l: Language, include_code: bool) -> Seq<
    FunctionView,
>
    decreases k,
{
    if k <= 0 {
        seq![]
    } else {
        let r = member_functions(t, k - 1, l, include_code);
        if has_name(t, k - 1, "method_declaration"@) {
            r.push(member_entry(t, k - 1, l, include_code))
        } else {
            r
        }
    }
}

/// A C# or Java class: name, lines, doc, code, methods of its body and the
/// interfaces it implements.
pub open spec fn typed_class(t: SyntaxTree, i: int, l: Language, include_code: bool) -> ClassView {
    (
        field_text_or(t, i, "name"@, ""@),
        node_line(t, i),
        node_end_line(t, i),
        doc_comment(t, i, l),
        code_if(t, i, include_code),
        body_members(t, i, "method_declaration"@, l, include_code),
        seq![],
        seq![],
        if l == Language::Java {
            java_implements(t, i)
        } else {
            csharp_implements(t, i)
        },
    )
}

/// C# or Java: the classes among the first `k` nodes.
pub open spec fn member_classes(t: SyntaxTree, k: int, l: Language, include_code: bool) -> Seq<ClassView>
    decreases k,
{
    if k <= 0 {
        seq![]
    } else {
        let r = member_classes(t, k - 1, l, include_code);
        if has_name(t, k - 1, "class_declaration"@) {
            r.push(typed_class(t, k - 1, l, include_code))
        } else {
            r
        }
    }
}

/// A C# or Java interface: name, lines, doc, code and methods of its body.
pub open spec fn typed_interface(t: SyntaxTree, i: int, l: Language, include_code: bool) -> InterfaceView {
    (
        field_text_or(t, i, "name"@, ""@),
        node_line(t, i),
        node_end_line(t, i),
        doc_comment(t, i, l),
        code_if(t, i, include_code),
        body_members(t, i, "method_declaration"@, l, include_code),
        seq![],
    )
}

/// C# or Java: the interfaces among the first `k` nodes.
pub open spec fn member_interfaces(t: SyntaxTree, k: int, l: Language, include_code: bool) -> Seq<
    InterfaceView,
>
    decreases k,
{
    if k <= 0 {
        seq![]
    } else {
        let r = member_interfaces(t, k - 1, l, include_code);
        if has_name(t, k - 1, "interface_declaration"@) {
            r.push(typed_interface(t, k - 1, l, include_code))
        } else {
            r
        }
    }
}

/// C#: the properties among the first `k` nodes, with their types.
pub open spec fn csharp_properties(t: SyntaxTree, k: int) -> Seq<PropertyView>
    decreases k,
{
    if k <= 0 {
        seq![]
    } else {
        let r = csharp_properties(t, k - 1);
        if has_name(t, k - 1, "property_declaration"@) {
            r.push(
                (
                    field_text_or(t, k - 1, "name"@, ""@),
                    node_line(t, k - 1),
                    node_end_line(t, k - 1),
                    match t.child_by_field(k - 1, "type"@) {
                        Some(n) => Some(t.text(n as int)),
                        None => None,
                    },
                    doc_comment(t, k - 1, Language::CSharp),
                ),
            )
        } else {
            r
        }
    }
}

fn typed_class_of(tree: &SyntaxTree, i: usize, language: Language, include_code: bool) -> (r:
    EnhancedClassInfo)
    requires
        tree.wf(),
        i < tree.len(),
    ensures
        class_view(r) == typed_class(*tree, i as int, language, include_code),
{
    let implements = if language == Language::Java {
        extract_java_implemented_interfaces(tree, i)
    } else {
        extract_csharp_implemented_interfaces(tree, i)
    };
    let c = EnhancedClassInfo {
        name: field_text(tree, i, "name", ""),
        line: start_line(tree, i),
        end_line: end_line(tree, i),
        doc: extract_doc_comment(tree, i, language),
        code: code_when(tree, i, include_code),
        methods: extract_body_methods(tree, i, language, include_code),
        properties: Vec::new(),
        fields: Vec::new(),
        implements,
    };
    assert(opt_view(c.doc) == doc_comment(*tree, i as int, language));
    assert(property_views(c.properties@) =~= seq![]);
    assert(property_views(c.fields@) =~= seq![]);
    c
}

fn typed_interface_of(tree: &SyntaxTree, i: usize, language: Language, include_code: bool) -> (r:
    InterfaceInfo)
    requires
        tree.wf(),
        i < tree.len(),
    ensures
        interface_view(r) == typed_interface(*tree, i as int, language, include_code),
{
    let it = InterfaceInfo {
        name: field_text(tree, i, "name", ""),
        line: start_line(tree, i),
        end_line: end_line(tree, i),
        doc: extract_doc_comment(tree, i, language),
        code: code_when(tree, i, include_code),
        methods: extract_body_methods(tree, i, language, include_code),
        properties: Vec::new(),
    };
    assert(opt_view(it.doc) == doc_comment(*tree, i as int, language));
    assert(property_views(it.properties@) =~= seq![]);
    it
}

/// The lists of `s` are those of a C# or Java file (see `extract_member_enhanced`).
pub open spec fn member_shape_is(s: EnhancedFileShape, t: SyntaxTree, l: Language, ic: bool) -> bool {
    &&& function_views(s.functions@) == member_functions(t, t.len(), l, ic)
    &&& class_views(s.classes@) == member_classes(t, t.len(), l, ic)
    &&& interface_views(s.interfaces@) == member_interfaces(t, t.len(), l, ic)
    &&& property_views(s.properties@) == (if l == Language::CSharp {
        csharp_properties(t, t.len())
    } else {
        seq![]
    })
    &&& import_views(s.imports@) == imports_of_kind(
        t,
        t.len(),
        if l == Language::CSharp {
            "using_directive"@
        } else {
            "import_declaration"@
        },
    )
    &&& s.structs@.len() == 0
    &&& s.impl_blocks@.len() == 0
    &&& s.traits@.len() == 0
    &&& s.dependencies@.len() == 0
}

/// The shape of a C# or Java file: every method declaration as a function
/// (Java ones with their annotations), the classes with their methods and
/// implemented interfaces, the interfaces with their methods, the C#
/// properties, and the `using` (C#) or `import` (Java) declarations.
#[verifier::spinoff_prover]
#[verifier::rlimit(40)]
pub fn extract_member_enhanced(tree: &SyntaxTree, language: Language, include_code: bool) -> (r:
    EnhancedFileShape)
    requires
        tree.wf(),
        language == Language::CSharp || language == Language::Java,
    ensures
        r.path is None,
        r.language is None,
        member_shape_is(r, *tree, language, include_code),
{
    let csharp = language == Language::CSharp;
    let import_kind = if csharp {
        "using_directive"
    } else {
        "import_declaration"
    };
    proof {
        reveal_strlit("using_directive");
        reveal_strlit("import_declaration");
    }
    let ghost ik = if csharp {
        "using_directive"@
    } else {
        "import_declaration"@
    };
    assert(import_kind@ == ik);
    let mut functions: Vec<EnhancedFunctionInfo> = Vec::new();
    let mut classes: Vec<EnhancedClassInfo> = Vec::new();
    let mut interfaces: Vec<InterfaceInfo> = Vec::new();
    let mut properties: Vec<PropertyInfo> = Vec::new();
    let mut imports: Vec<ImportInfo> = Vec::new();
    let mut k: usize = 0;
    while k < tree.nodes.len()
        invariant
            tree.wf(),
            k <= tree.len(),
            csharp == (language == Language::CSharp),
            import_kind@ == ik,
            ik == (if language == Language::CSharp {
                "using_directive"@
            } else {
                "import_declaration"@
            }),
            function_views(functions@) == member_functions(*tree, k as int, language, include_code),
            class_views(classes@) == member_classes(*tree, k as int, language, include_code),
            interface_views(interfaces@) == member_interfaces(
                *tree,
                k as int,
                language,
                include_code,
            ),
            property_views(properties@) == (if csharp {
                csharp_properties(*tree, k as int)
            } else {
                seq![]
            }),
            import_views(imports@) == imports_of_kind(*tree, k as int, ik),
        decreases tree.nodes.len() - k,
    {
        if is_with_name(tree, k, "method_declaration") {
            let f = member_entry_of(tree, k, language, include_code);
            let ghost before = function_views(functions@);
            functions.push(f);
            assert(function_views(functions@) =~= before.push(function_view(f)));
        }
        if is_with_name(tree, k, "class_declaration") {
            let c = typed_class_of(tree, k, language, include_code);
            let ghost before = class_views(classes@);
            classes.push(c);
            assert(class_views(classes@) =~= before.push(class_view(c)));
        }
        if is_with_name(tree, k, "interface_declaration") {
            let it = typed_interface_of(tree, k, language, include_code);
            let ghost before = interface_views(interfaces@);
            interfaces.push(it);
            assert(interface_views(interfaces@) =~= before.push(interface_view(it)));
        }
        if csharp && is_with_name(tree, k, "property_declaration") {
            let property_type = match tree.child_by_field_name(k, "type") {
                Some(n) => Some(tree.node_text(n)),
                None => None,
            };
            let p = PropertyInfo {
                name: field_text(tree, k, "name", ""),
                line: start_line(tree, k),
                end_line: end_line(tree, k),
                property_type,
                doc: extract_doc_comment(tree, k, Language::CSharp),
            };
            assert(opt_view(p.doc) == doc_comment(*tree, k as int, Language::CSharp));
            let ghost before = property_views(properties@);
            properties.push(p);
            assert(property_views(properties@) =~= before.push(property_view(p)));
        }
        if tree.kind_is(k, import_kind) {
            let im = ImportInfo { text: tree.node_text(k), line: start_line(tree, k) };
            let ghost before = import_views(imports@);
            imports.push(im);
            assert(import_views(imports@) =~= before.push(import_entry(*tree, k as int)));
        }
        k = k + 1;
    }
    EnhancedFileShape {
        path: None,
        language: None,
        functions,
        structs: Vec::new(),
        classes,
        imports,
        impl_blocks: Vec::new(),
        traits: Vec::new(),
        interfaces,
        properties,
        dependencies: Vec::new(),
    }
}


// ---------------------------------------------------------------------------
// Go
// ---------------------------------------------------------------------------

/// A Go `type_spec` named by a `type_identifier` whose `type` child is of
/// kind `type_kind`.
pub open spec fn go_type_spec(t: SyntaxTree, i: int, type_kind: Seq<char>) -> bool {
    &&& named_node(t, i, "type_spec"@, "type_identifier"@)
    &&& t.child_by_field(i, "type"@) matches Some(ty) && t.kind(ty as int) == type_kind
}

fn is_go_type_spec(tree: &SyntaxTree, i: usize, type_kind: &str) -> (r: bool)
    requires
        tree.wf(),
        i < tree.len(),
    ensures
        r == go_type_spec(*tree, i as int, type_kind@),
{
    if !is_named_node(tree, i, "type_spec", "type_identifier") {
        return false;
    }
    match tree.child_by_field_name(i, "type") {
        Some(ty) => tree.kind_is(ty, type_kind),
        None => false,
    }
}

/// Go: the struct and interface types among the first `k` nodes, each
/// listed under its `type_declaration` (its code and lines are those of the
/// whole declaration), only the first of a declaration; with the
/// declarations seen.
pub open spec fn go_types(t: SyntaxTree, k: int, include_code: bool) -> (
    Seq<StructView>,
    Seq<TraitView>,
    Seq<usize>,
)
    decreases k,
{
    if k <= 0 {
        (seq![], seq![], seq![])
    } else {
        let r = go_types(t, k - 1, include_code);
        let i = k - 1;
        let is_struct = go_type_spec(t, i, "struct_type"@);
        let is_iface = go_type_spec(t, i, "interface_type"@);
        if is_struct || is_iface {
            match t.ancestor_of_kind(i, "type_declaration"@) {
                Some(d) => if r.2.contains(d) {
                    r
                } else {
                    let name = field_text_or(t, i, "name"@, ""@);
                    let line = node_line(t, d as int);
                    let end = node_end_line(t, d as int);
                    let doc = doc_comment(t, d as int, Language::Go);
                    if is_struct {
                        (
                            r.0.push((name, line, end, doc, code_if(t, d as int, include_code))),
                            r.1,
                            r.2.push(d),
                        )
                    } else {
                        (r.0, r.1.push((name, line, end, doc, seq![])), r.2.push(d))
                    }
                },
                None => r,
            }
        } else {
            r
        }
    }
}

/// The line of a Go function: that of a comment ending on the line just
/// before it, if its previous sibling is one; else its own.
pub open spec fn go_function_line(t: SyntaxTree, i: int) -> usize {
    let sb = t.siblings_before(i);
    if sb.len() > 0 && t.kind(sb.last() as int) == "comment"@ && t.nodes@[sb.last() as int].end_row
        + 1 == t.nodes@[i].start_row {
        node_line(t, sb.last() as int)
    } else {
        node_line(t, i)
    }
}

/// Go: the function declarations among the first `k` nodes.
pub open spec fn go_functions(t: SyntaxTree, k: int, include_code: bool) -> Seq<FunctionView>
    decreases k,
{
    if k <= 0 {
        seq![]
    } else {
        let r = go_functions(t, k - 1, include_code);
        if named_node(t, k - 1, "function_declaration"@, "identifier"@) {
            let f = function_entry(t, k - 1, Language::Go, include_code);
            r.push((f.0, f.1, go_function_line(t, k - 1), f.3, f.4, f.5, f.6))
        } else {
            r
        }
    }
}

/// The import path node `i`: an interpreted string literal in the `path`
/// of an `import_spec`.
pub open spec fn go_import_path(t: SyntaxTree, i: int) -> bool {
    &&& t.kind(i) == "interpreted_string_literal"@
    &&& t.parent(i) matches Some(p) && t.kind(p as int) == "import_spec"@ && t.child_by_field(
        p as int,
        "path"@,
    ) == Some(i as usize)
}

/// Go: the import paths among the first `k` nodes, with their lines.
pub open spec fn go_imports(t: SyntaxTree, k: int) -> Seq<ImportView>
    decreases k,
{
    if k <= 0 {
        seq![]
    } else {
        let r = go_imports(t, k - 1);
        if go_import_path(t, k - 1) {
            r.push(import_entry(t, k - 1))
        } else {
            r
        }
    }
}

fn contains_index(v: &Vec<usize>, x: usize) -> (r: bool)
    ensures
        r == v@.contains(x),
{
    let mut k: usize = 0;
    while k < v.len()
        invariant
            k <= v.len(),
            forall|j: int| 0 <= j < k ==> v@[j] != x,
        decreases v.len() - k,
    {
        if v[k] == x {
            assert(v@[k as int] == x);
            return true;
        }
        k = k + 1;
    }
    false
}

fn go_function_line_of(tree: &SyntaxTree, i: usize) -> (r: usize)
    requires
        tree.wf(),
        i < tree.len(),
    ensures
        r == go_function_line(*tree, i as int),
{
    let sb = tree.prev_siblings(i);
    if sb.len() > 0 {
        let p = sb[sb.len() - 1];
        if tree.kind_is(p, "comment") && tree.nodes[p].end_row + 1 == tree.nodes[i].start_row {
            return start_line(tree, p);
        }
    }
    start_line(tree, i)
}

/// The lists of `s` are those of a Go file (see `extract_go_enhanced`).
pub open spec fn go_shape_is(s: EnhancedFileShape, t: SyntaxTree, ic: bool) -> bool {
    &&& function_views(s.functions@) == go_functions(t, t.len(), ic)
    &&& struct_views(s.structs@) == go_types(t, t.len(), ic).0
    &&& trait_views(s.traits@) == go_types(t, t.len(), ic).1
    &&& import_views(s.imports@) == go_imports(t, t.len())
    &&& s.classes@.len() == 0
    &&& s.impl_blocks@.len() == 0
    &&& s.interfaces@.len() == 0
    &&& s.properties@.len() == 0
    &&& s.dependencies@.len() == 0
}

/// The shape of a Go file: its functions (a comment just above a function
/// moves its line up), its struct types, its interfaces (as traits) and its
/// import paths.
pub fn extract_go_enhanced(tree: &SyntaxTree, include_code: bool) -> (r: EnhancedFileShape)
    requires
        tree.wf(),
    ensures
        r.path is None,
        r.language is None,
        go_shape_is(r, *tree, include_code),
{
    let mut functions: Vec<EnhancedFunctionInfo> = Vec::new();
    let mut structs: Vec<EnhancedStructInfo> = Vec::new();
    let mut traits: Vec<TraitInfo> = Vec::new();
    let mut imports: Vec<ImportInfo> = Vec::new();
    let mut seen: Vec<usize> = Vec::new();
    let mut k: usize = 0;
    while k < tree.nodes.len()
        invariant
            tree.wf(),
            k <= tree.len(),
            function_views(functions@) == go_functions(*tree, k as int, include_code),
            struct_views(structs@) == go_types(*tree, k as int, include_code).0,
            trait_views(traits@) == go_types(*tree, k as int, include_code).1,
            seen@ == go_types(*tree, k as int, include_code).2,
            import_views(imports@) == go_imports(*tree, k as int),
        decreases tree.nodes.len() - k,
    {
        if is_named_node(tree, k, "function_declaration", "identifier") {
            let mut f = function_entry_of(tree, k, Language::Go, include_code);
            f.line = go_function_line_of(tree, k);
            let ghost before = function_views(functions@);
            functions.push(f);
            assert(function_views(functions@) =~= before.push(function_view(f)));
        }
        let is_struct = is_go_type_spec(tree, k, "struct_type");
        let is_iface = is_go_type_spec(tree, k, "interface_type");
        if is_struct || is_iface {
            if let Some(d) = tree.find_parent_by_type(k, "type_declaration") {
                if !contains_index(&seen, d) {
                    let name = field_text(tree, k, "name", "");
                    let doc = extract_doc_comment(tree, d, Language::Go);
                    assert(opt_view(doc) == doc_comment(*tree, d as int, Language::Go));
                    if is_struct {
                        let s = EnhancedStructInfo {
                            name,
                            line: start_line(tree, d),
                            end_line: end_line(tree, d),
                            doc,
                            code: code_when(tree, d, include_code),
                        };
                        let ghost before = struct_views(structs@);
                        structs.push(s);
                        assert(struct_views(structs@) =~= before.push(
                            (
                                field_text_or(*tree, k as int, "name"@, ""@),
                                node_line(*tree, d as int),
                                node_end_line(*tree, d as int),
                                doc_comment(*tree, d as int, Language::Go),
                                code_if(*tree, d as int, include_code),
                            ),
                        ));
                    } else {
                        let tr = TraitInfo {
                            name,
                            line: start_line(tree, d),
                            end_line: end_line(tree, d),
                            doc,
                            methods: Vec::new(),
                        };
                        assert(method_views(tr.methods@) =~= seq![]);
                        let ghost before = trait_views(traits@);
                        traits.push(tr);
                        assert(trait_views(traits@) =~= before.push(
                            (
                                field_text_or(*tree, k as int, "name"@, ""@),
                                node_line(*tree, d as int),
                                node_end_line(*tree, d as int),
                                doc_comment(*tree, d as int, Language::Go),
                                seq![],
                            ),
                        ));
                    }
                    seen.push(d);
                }
            }
        }
        let is_path = match tree.nodes[k].parent {
            Some(p) => tree.kind_is(k, "interpreted_string_literal") && tree.kind_is(
                p,
                "import_spec",
            ) && tree.child_by_field_name(p, "path") == Some(k),
            None => false,
        };
        if is_path {
            let im = ImportInfo { text: tree.node_text(k), line: start_line(tree, k) };
            let ghost before = import_views(imports@);
            imports.push(im);
            assert(import_views(imports@) =~= before.push(import_entry(*tree, k as int)));
        }
        k = k + 1;
    }
    EnhancedFileShape {
        path: None,
        language: None,
        functions,
        structs,
        classes: Vec::new(),
        imports,
        impl_blocks: Vec::new(),
        traits,
        interfaces: Vec::new(),
        properties: Vec::new(),
        dependencies: Vec::new(),
    }
}
} // verus!
