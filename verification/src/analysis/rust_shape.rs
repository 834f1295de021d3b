//! The shape of a Rust file: functions, structs, `use` declarations, impl
//! blocks with their methods, and traits.
use vstd::prelude::*;
use crate::analysis::shape::{
    EnhancedFileShape, EnhancedFunctionInfo, EnhancedStructInfo, FunctionView, ImplBlockInfo,
    ImplView, ImportInfo, ImportView, MethodInfo, MethodView, StructView, TraitInfo, TraitView,
    code_if, code_when, declaration_signature, doc_comment, end_line, extract_doc_comment,
    extract_signature, field_text, field_text_or, function_views, impl_views, import_views,
    is_named_node, method_views, named_node, node_end_line, node_line, opt_view, start_line,
    struct_views, trait_views,
};
use crate::parser::Language;
use crate::syntax::SyntaxTree;
use crate::text::{chars_of, split_last, split_str, string_of, views};

verus! {

/// A method of an impl block or trait: its name (or `unknown`),
/// signature, lines, doc comment and (when asked for) code.
pub open spec fn rust_method(t: SyntaxTree, i: int, include_code: bool) -> MethodView {
    (
        field_text_or(t, i, "name"@, "unknown"@),
        declaration_signature(t, i),
        node_line(t, i),
        node_end_line(t, i),
        doc_comment(t, i, Language::Rust),
        code_if(t, i, include_code),
    )
}

/// Extract a method from a `function_item` (or `function_signature_item`)
/// node (see `rust_method`).
pub fn extract_method(tree: &SyntaxTree, i: usize, include_code: bool) -> (r: MethodInfo)
    requires
        tree.wf(),
        i < tree.len(),
    ensures
        method_views(seq![r]) == seq![rust_method(*tree, i as int, include_code)],
{
    let r = MethodInfo {
        name: field_text(tree, i, "name", "unknown"),
        signature: extract_signature(tree, i),
        line: start_line(tree, i),
        end_line: end_line(tree, i),
        doc: extract_doc_comment(tree, i, Language::Rust),
        code: code_when(tree, i, include_code),
    };
    proof {
        assert(opt_view(r.doc) == doc_comment(*tree, i as int, Language::Rust));
    }
    assert(method_views(seq![r]) =~= seq![rust_method(*tree, i as int, include_code)]);
    r
}

/// The methods among the nodes `cs`: the `function_item` nodes, and the
/// `function_signature_item` nodes too when `signatures` holds.
pub open spec fn body_methods(
    t: SyntaxTree,
    cs: Seq<usize>,
    signatures: bool,
    include_code: bool,
) -> Seq<MethodView>
    decreases cs.len(),
{
    if cs.len() == 0 {
        seq![]
    } else {
        let rest = body_methods(t, cs.drop_last(), signatures, include_code);
        let c = cs.last() as int;
        if t.kind(c) == "function_item"@ || (signatures && t.kind(c)
            == "function_signature_item"@) {
            rest.push(rust_method(t, c, include_code))
        } else {
            rest
        }
    }
}

/// The methods in the `body` child of node `i` (see `body_methods`).
pub open spec fn methods_in_body(t: SyntaxTree, i: int, signatures: bool, include_code: bool) -> Seq<
    MethodView,
> {
    match t.child_by_field(i, "body"@) {
        Some(b) => body_methods(t, t.children(b as int), signatures, include_code),
        None => seq![],
    }
}

fn collect_body_methods(tree: &SyntaxTree, i: usize, signatures: bool, include_code: bool) -> (r:
    Vec<MethodInfo>)
    requires
        tree.wf(),
    ensures
        method_views(r@) == methods_in_body(*tree, i as int, signatures, include_code),
{
    let mut out: Vec<MethodInfo> = Vec::new();
    let body = match tree.child_by_field_name(i, "body") {
        Some(b) => b,
        None => {
            assert(method_views(out@) =~= seq![]);
            return out;
        },
    };
    let cs = tree.children_of(body);
    let mut k: usize = 0;
    while k < cs.len()
        invariant
            tree.wf(),
            cs@ == tree.children(body as int),
            forall|j: int| 0 <= j < cs@.len() ==> (#[trigger] cs@[j]) < tree.len(),
            k <= cs.len(),
            method_views(out@) == body_methods(*tree, cs@.take(k as int), signatures, include_code),
        decreases cs.len() - k,
    {
        let c = cs[k];
        assert(cs@.take(k + 1).drop_last() =~= cs@.take(k as int));
        assert(cs@.take(k + 1).last() == c);
        if tree.kind_is(c, "function_item") || (signatures && tree.kind_is(
            c,
            "function_signature_item",
        )) {
            let m = extract_method(tree, c, include_code);
            let ghost before = out@;
            out.push(m);
            assert(method_views(out@) =~= method_views(before) + method_views(seq![m]));
        }
        k = k + 1;
    }
    assert(cs@.take(cs@.len() as int) =~= cs@);
    out
}

/// The trait of an impl block, without its path: the last `::` piece of
/// the `trait` child's text.
pub open spec fn impl_trait_name(t: SyntaxTree, i: int) -> Option<Seq<char>> {
    match t.child_by_field(i, "trait"@) {
        Some(n) => Some(split_str(t.text(n as int), "::"@).last()),
        None => None,
    }
}

/// An impl block: its type (or `Unknown`), its trait, its lines and the
/// functions of its body.
pub open spec fn rust_impl(t: SyntaxTree, i: int, include_code: bool) -> ImplView {
    (
        field_text_or(t, i, "type"@, "Unknown"@),
        impl_trait_name(t, i),
        node_line(t, i),
        node_end_line(t, i),
        methods_in_body(t, i, false, include_code),
    )
}

/// Extract an impl block from an `impl_item` node (see `rust_impl`).
pub fn extract_impl_block(tree: &SyntaxTree, i: usize, include_code: bool) -> (r: ImplBlockInfo)
    requires
        tree.wf(),
        i < tree.len(),
    ensures
        impl_views(seq![r]) == seq![rust_impl(*tree, i as int, include_code)],
{
    let trait_name = match tree.child_by_field_name(i, "trait") {
        Some(n) => {
            let text = chars_of(tree.node_text(n).as_str());
            let sep = chars_of("::");
            proof {
                reveal_strlit("::");
            }
            Some(string_of(split_last(text.as_slice(), sep.as_slice()).as_slice()))
        },
        None => None,
    };
    let r = ImplBlockInfo {
        impl_type: field_text(tree, i, "type", "Unknown"),
        trait_name,
        line: start_line(tree, i),
        end_line: end_line(tree, i),
        methods: collect_body_methods(tree, i, false, include_code),
    };
    assert(opt_view(r.trait_name) == impl_trait_name(*tree, i as int));
    assert(impl_views(seq![r]) =~= seq![rust_impl(*tree, i as int, include_code)]);
    r
}

/// A trait: its name (or `Unknown`), lines, doc comment and the functions
/// and function signatures of its body.
pub open spec fn rust_trait(t: SyntaxTree, i: int, include_code: bool) -> TraitView {
    (
        field_text_or(t, i, "name"@, "Unknown"@),
        node_line(t, i),
        node_end_line(t, i),
        doc_comment(t, i, Language::Rust),
        methods_in_body(t, i, true, include_code),
    )
}

/// Extract a trait from a `trait_item` node (see `rust_trait`).
pub fn extract_trait(tree: &SyntaxTree, i: usize, include_code: bool) -> (r: TraitInfo)
    requires
        tree.wf(),
        i < tree.len(),
    ensures
        trait_views(seq![r]) == seq![rust_trait(*tree, i as int, include_code)],
{
    let r = TraitInfo {
        name: field_text(tree, i, "name", "Unknown"),
        line: start_line(tree, i),
        end_line: end_line(tree, i),
        doc: extract_doc_comment(tree, i, Language::Rust),
        methods: collect_body_methods(tree, i, true, include_code),
    };
    assert(opt_view(r.doc) == doc_comment(*tree, i as int, Language::Rust));
    assert(trait_views(seq![r]) =~= seq![rust_trait(*tree, i as int, include_code)]);
    r
}

/// A function item: the text of its name, signature, lines, doc comment
/// and (when asked for) code.
pub open spec fn rust_function(t: SyntaxTree, i: int, include_code: bool) -> FunctionView {
    (
        field_text_or(t, i, "name"@, ""@),
        declaration_signature(t, i),
        node_line(t, i),
        node_end_line(t, i),
        doc_comment(t, i, Language::Rust),
        code_if(t, i, include_code),
        seq![],
    )
}

/// A struct item: the text of its name, lines, doc comment and code.
pub open spec fn rust_struct(t: SyntaxTree, i: int, include_code: bool) -> StructView {
    (
        field_text_or(t, i, "name"@, ""@),
        node_line(t, i),
        node_end_line(t, i),
        doc_comment(t, i, Language::Rust),
        code_if(t, i, include_code),
    )
}

/// The functions among the first `k` nodes: `function_item` nodes named
/// by an `identifier`, in preorder.
pub open spec fn rust_functions(t: SyntaxTree, k: int, include_code: bool) -> Seq<FunctionView>
    decreases k,
{
    if k <= 0 {
        seq![]
    } else {
        let r = rust_functions(t, k - 1, include_code);
        if named_node(t, k - 1, "function_item"@, "identifier"@) {
            r.push(rust_function(t, k - 1, include_code))
        } else {
            r
        }
    }
}

/// The structs among the first `k` nodes: `struct_item` nodes named by a
/// `type_identifier`, in preorder.
pub open spec fn rust_structs(t: SyntaxTree, k: int, include_code: bool) -> Seq<StructView>
    decreases k,
{
    if k <= 0 {
        seq![]
    } else {
        let r = rust_structs(t, k - 1, include_code);
        if named_node(t, k - 1, "struct_item"@, "type_identifier"@) {
            r.push(rust_struct(t, k - 1, include_code))
        } else {
            r
        }
    }
}

/// The `use` declarations among the first `k` nodes, with their lines.
pub open spec fn rust_imports(t: SyntaxTree, k: int) -> Seq<ImportView>
    decreases k,
{
    if k <= 0 {
        seq![]
    } else {
        let r = rust_imports(t, k - 1);
        if t.kind(k - 1) == "use_declaration"@ {
            r.push((t.text(k - 1), node_line(t, k - 1)))
        } else {
            r
        }
    }
}

/// The impl blocks among the first `k` nodes.
pub open spec fn rust_impls(t: SyntaxTree, k: int, include_code: bool) -> Seq<ImplView>
    decreases k,
{
    if k <= 0 {
        seq![]
    } else {
        let r = rust_impls(t, k - 1, include_code);
        if t.kind(k - 1) == "impl_item"@ {
            r.push(rust_impl(t, k - 1, include_code))
        } else {
            r
        }
    }
}

/// The traits among the first `k` nodes: `trait_item` nodes named by a
/// `type_identifier`.
pub open spec fn rust_traits(t: SyntaxTree, k: int, include_code: bool) -> Seq<TraitView>
    decreases k,
{
    if k <= 0 {
        seq![]
    } else {
        let r = rust_traits(t, k - 1, include_code);
        if named_node(t, k - 1, "trait_item"@, "type_identifier"@) {
            r.push(rust_trait(t, k - 1, include_code))
        } else {
            r
        }
    }
}

/// The lists of `s` are those of a Rust file (see `extract_rust_enhanced`).
pub open spec fn rust_shape_is(s: EnhancedFileShape, t: SyntaxTree, ic: bool) -> bool {
    &&& function_views(s.functions@) == rust_functions(t, t.len(), ic)
    &&& struct_views(s.structs@) == rust_structs(t, t.len(), ic)
    &&& import_views(s.imports@) == rust_imports(t, t.len())
    &&& impl_views(s.impl_blocks@) == rust_impls(t, t.len(), ic)
    &&& trait_views(s.traits@) == rust_traits(t, t.len(), ic)
    &&& s.classes@.len() == 0
    &&& s.interfaces@.len() == 0
    &&& s.properties@.len() == 0
    &&& s.dependencies@.len() == 0
}

/// The shape of a Rust file: its functions (methods included), structs,
/// `use` declarations, impl blocks and traits, each in source order.
pub fn extract_rust_enhanced(tree: &SyntaxTree, include_code: bool) -> (r: EnhancedFileShape)
    requires
        tree.wf(),
    ensures
        r.path is None,
        r.language is None,
        rust_shape_is(r, *tree, include_code),
{
    let mut functions: Vec<EnhancedFunctionInfo> = Vec::new();
    let mut structs: Vec<EnhancedStructInfo> = Vec::new();
    let mut imports: Vec<ImportInfo> = Vec::new();
    let mut impl_blocks: Vec<ImplBlockInfo> = Vec::new();
    let mut traits: Vec<TraitInfo> = Vec::new();
    let mut k: usize = 0;
    while k < tree.nodes.len()
        invariant
            tree.wf(),
            k <= tree.len(),
            function_views(functions@) == rust_functions(*tree, k as int, include_code),
            struct_views(structs@) == rust_structs(*tree, k as int, include_code),
            import_views(imports@) == rust_imports(*tree, k as int),
            impl_views(impl_blocks@) == rust_impls(*tree, k as int, include_code),
            trait_views(traits@) == rust_traits(*tree, k as int, include_code),
        decreases tree.nodes.len() - k,
    {
        if is_named_node(tree, k, "function_item", "identifier") {
            let f = EnhancedFunctionInfo {
                name: field_text(tree, k, "name", ""),
                signature: extract_signature(tree, k),
                line: start_line(tree, k),
                end_line: end_line(tree, k),
                doc: extract_doc_comment(tree, k, Language::Rust),
                code: code_when(tree, k, include_code),
                annotations: Vec::new(),
            };
            assert(opt_view(f.doc) == doc_comment(*tree, k as int, Language::Rust));
            assert(views(f.annotations@) =~= seq![]);
            let ghost before = functions@;
            functions.push(f);
            assert(function_views(functions@) =~= function_views(before).push(
                rust_function(*tree, k as int, include_code),
            ));
        }
        if is_named_node(tree, k, "struct_item", "type_identifier") {
            let s = EnhancedStructInfo {
                name: field_text(tree, k, "name", ""),
                line: start_line(tree, k),
                end_line: end_line(tree, k),
                doc: extract_doc_comment(tree, k, Language::Rust),
                code: code_when(tree, k, include_code),
            };
            assert(opt_view(s.doc) == doc_comment(*tree, k as int, Language::Rust));
            let ghost before = structs@;
            structs.push(s);
            assert(struct_views(structs@) =~= struct_views(before).push(
                rust_struct(*tree, k as int, include_code),
            ));
        }
        if tree.kind_is(k, "use_declaration") {
            let im = ImportInfo { text: tree.node_text(k), line: start_line(tree, k) };
            let ghost before = imports@;
            imports.push(im);
            assert(import_views(imports@) =~= import_views(before).push(
                (tree.text(k as int), node_line(*tree, k as int)),
            ));
        }
        if tree.kind_is(k, "impl_item") {
            let b = extract_impl_block(tree, k, include_code);
            let ghost before = impl_blocks@;
            impl_blocks.push(b);
            assert(impl_views(seq![b])[0] == rust_impl(*tree, k as int, include_code));
            assert(impl_views(impl_blocks@) =~= impl_views(before).push(
                rust_impl(*tree, k as int, include_code),
            ));
        }
        if is_named_node(tree, k, "trait_item", "type_identifier") {
            let tr = extract_trait(tree, k, include_code);
            let ghost before = traits@;
            traits.push(tr);
            assert(trait_views(seq![tr])[0] == rust_trait(*tree, k as int, include_code));
            assert(trait_views(traits@) =~= trait_views(before).push(
                rust_trait(*tree, k as int, include_code),
            ));
        }
        k = k + 1;
    }
    EnhancedFileShape {
        path: None,
        language: None,
        functions,
        structs,
        classes: Vec::new(),
        imports,
        impl_blocks,
        traits,
        interfaces: Vec::new(),
        properties: Vec::new(),
        dependencies: Vec::new(),
    }
}

} // verus!
