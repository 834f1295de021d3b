//! Type definitions of a Rust file: structs with their fields, enums with
//! their variants, traits with their members, type aliases; methods of
//! `impl` blocks join the members of their type.
use vstd::prelude::*;
use crate::analysis::shape::{field_text, field_text_or, named_node, start_line};
use crate::analysis::typed_shape::{first_child_of_kind, first_of_kind};
use crate::extraction::types::{
    Field, FieldView, Member, MemberView, TypeDefinition, TypeKind, TypeView, Variant,
    VariantView, def_index, field_views, find_definition, first_line_trimmed, lemma_def_index,
    member_views, opt_members, signature_for, type_view, type_views, variant_views,
};
use crate::analysis::shape::node_line;
use crate::parser::{Language, ParseError, parse_code};
use crate::syntax::SyntaxTree;
use crate::text::push_str;

verus! {

/// The kind of definition a Rust node declares, if it is one of the
/// definitions listed (named by a `type_identifier`).
pub open spec fn rust_def_kind(t: SyntaxTree, i: int) -> Option<TypeKind> {
    if named_node(t, i, "struct_item"@, "type_identifier"@) {
        Some(TypeKind::Struct)
    } else if named_node(t, i, "enum_item"@, "type_identifier"@) {
        Some(TypeKind::Enum)
    } else if named_node(t, i, "trait_item"@, "type_identifier"@) {
        Some(TypeKind::Trait)
    } else if named_node(t, i, "type_item"@, "type_identifier"@) {
        Some(TypeKind::TypeAlias)
    } else {
        None
    }
}

/// The children of the `body` child of `i`; none without a body.
pub open spec fn body_children(t: SyntaxTree, i: int) -> Seq<usize> {
    match t.child_by_field(i, "body"@) {
        Some(b) => t.children(b as int),
        None => seq![],
    }
}

/// The named fields among `cs`.
pub open spec fn struct_fields(t: SyntaxTree, cs: Seq<usize>) -> Seq<FieldView>
    decreases cs.len(),
{
    if cs.len() == 0 {
        seq![]
    } else {
        let r = struct_fields(t, cs.drop_last());
        let c = cs.last() as int;
        let name = field_text_or(t, c, "name"@, ""@);
        if t.kind(c) == "field_declaration"@ && name.len() > 0 {
            r.push((name, field_text_or(t, c, "type"@, ""@)))
        } else {
            r
        }
    }
}

/// The named variants among `cs`.
pub open spec fn enum_variants(t: SyntaxTree, cs: Seq<usize>) -> Seq<VariantView>
    decreases cs.len(),
{
    if cs.len() == 0 {
        seq![]
    } else {
        let r = enum_variants(t, cs.drop_last());
        let c = cs.last() as int;
        let name = field_text_or(t, c, "name"@, ""@);
        if t.kind(c) == "enum_variant"@ && name.len() > 0 {
            r.push((name, None))
        } else {
            r
        }
    }
}

/// Kinds of associated type declarations.
pub open spec fn associated_type_kind(k: Seq<char>) -> bool {
    k == "associated_type_declaration"@ || k == "associated_type"@ || k == "associated_type_item"@
}

/// The name of an associated type: its `name` child, else its first type
/// identifier.
pub open spec fn associated_type_name(t: SyntaxTree, c: int) -> Seq<char> {
    match t.child_by_field(c, "name"@) {
        Some(n) => t.text(n as int),
        None => match first_of_kind(t, t.children(c), "type_identifier"@) {
            Some(x) => t.text(x as int),
            None => seq![],
        },
    }
}

/// The members among the children `cs` of a trait body: named associated
/// types, and named functions and function signatures with their
/// signatures.
pub open spec fn trait_members(t: SyntaxTree, cs: Seq<usize>) -> Seq<MemberView>
    decreases cs.len(),
{
    if cs.len() == 0 {
        seq![]
    } else {
        let r = trait_members(t, cs.drop_last());
        let c = cs.last() as int;
        if associated_type_kind(t.kind(c)) {
            let name = associated_type_name(t, c);
            if name.len() > 0 {
                r.push((name, "associated_type"@))
            } else {
                r
            }
        } else if t.kind(c) == "function_item"@ || t.kind(c) == "function_signature_item"@ {
            let name = field_text_or(t, c, "name"@, ""@);
            if name.len() > 0 {
                r.push((name, first_line_trimmed(t.text(c))))
            } else {
                r
            }
        } else {
            r
        }
    }
}

/// A list, or none when it is empty.
pub open spec fn nonempty<A>(s: Seq<A>) -> Option<Seq<A>> {
    if s.len() > 0 {
        Some(s)
    } else {
        None
    }
}

/// The definition declared by node `i` of kind `kind` in `file`.
pub open spec fn rust_definition(t: SyntaxTree, i: int, kind: TypeKind, file: Seq<char>) -> TypeView {
    (
        field_text_or(t, i, "name"@, ""@),
        kind,
        file,
        node_line(t, i),
        first_line_trimmed(t.text(i)),
        0,
        if kind == TypeKind::Struct {
            nonempty(struct_fields(t, body_children(t, i)))
        } else {
            None
        },
        if kind == TypeKind::Enum {
            nonempty(enum_variants(t, body_children(t, i)))
        } else {
            None
        },
        if kind == TypeKind::Trait {
            nonempty(trait_members(t, body_children(t, i)))
        } else {
            None
        },
    )
}

/// The definitions among the first `k` nodes, in source order, the first
/// of each name only.
pub open spec fn rust_definitions(t: SyntaxTree, k: int, file: Seq<char>) -> Seq<TypeView>
    decreases k,
{
    if k <= 0 {
        seq![]
    } else {
        let r = rust_definitions(t, k - 1, file);
        match rust_def_kind(t, k - 1) {
            Some(kind) => {
                let name = field_text_or(t, k - 1, "name"@, ""@);
                if name.len() > 0 && def_index(r, name) < 0 {
                    r.push(rust_definition(t, k - 1, kind, file))
                } else {
                    r
                }
            },
            None => r,
        }
    }
}

/// The named functions among the children `cs` of an impl body, as members.
pub open spec fn impl_members(t: SyntaxTree, cs: Seq<usize>) -> Seq<MemberView>
    decreases cs.len(),
{
    if cs.len() == 0 {
        seq![]
    } else {
        let r = impl_members(t, cs.drop_last());
        let c = cs.last() as int;
        let name = field_text_or(t, c, "name"@, ""@);
        if t.kind(c) == "function_item"@ && name.len() > 0 {
            r.push((name, first_line_trimmed(t.text(c))))
        } else {
            r
        }
    }
}

/// Add the methods of impl node `i` (an `impl_item` whose `type` child is
/// a type identifier naming a definition, with a body) to the members of
/// that definition.
pub open spec fn add_impl(t: SyntaxTree, defs: Seq<TypeView>, i: int) -> Seq<TypeView> {
    if t.kind(i) == "impl_item"@ && (t.child_by_field(i, "type"@) matches Some(ty) && t.kind(
        ty as int,
    ) == "type_identifier"@) && t.child_by_field(i, "body"@) is Some {
        let name = field_text_or(t, i, "type"@, ""@);
        let idx = def_index(defs, name);
        if name.len() > 0 && idx >= 0 {
            let d = defs[idx];
            let old = match d.8 {
                Some(m) => m,
                None => seq![],
            };
            let all = old + impl_members(t, body_children(t, i));
            defs.update(idx, (d.0, d.1, d.2, d.3, d.4, d.5, d.6, d.7, nonempty(all)))
        } else {
            defs
        }
    } else {
        defs
    }
}

/// The definitions with the impl blocks among the first `k` nodes added.
pub open spec fn with_impls(t: SyntaxTree, defs: Seq<TypeView>, k: int) -> Seq<TypeView>
    decreases k,
{
    if k <= 0 {
        defs
    } else {
        add_impl(t, with_impls(t, defs, k - 1), k - 1)
    }
}

/// The type definitions of a Rust file.
pub open spec fn rust_types(t: SyntaxTree, file: Seq<char>) -> Seq<TypeView> {
    with_impls(t, rust_definitions(t, t.len(), file), t.len())
}

fn collect_struct_fields(tree: &SyntaxTree, i: usize) -> (r: Vec<Field>)
    requires
        tree.wf(),
    ensures
        field_views(r@) == struct_fields(*tree, body_children(*tree, i as int)),
{
    let mut out: Vec<Field> = Vec::new();
    let body = match tree.child_by_field_name(i, "body") {
        Some(b) => b,
        None => {
            assert(field_views(out@) =~= seq![]);
            return out;
        },
    };
    let cs = tree.children_of(body);
    let mut k: usize = 0;
    while k < cs.len()
        invariant
            tree.wf(),
            cs@ == tree.children(body as int),
            forall|j: int| 0 <= j < cs@.len() ==> (#[trigger] cs@[j]) < tree.len(),
            k <= cs.len(),
            field_views(out@) == struct_fields(*tree, cs@.take(k as int)),
        decreases cs.len() - k,
    {
        let c = cs[k];
        assert(cs@.take(k + 1).drop_last() =~= cs@.take(k as int));
        assert(cs@.take(k + 1).last() == c);
        if tree.kind_is(c, "field_declaration") {
            let name = field_text(tree, c, "name", "");
            if !name.as_str().is_empty() {
                let f = Field { name, type_annotation: field_text(tree, c, "type", "") };
                let ghost before = field_views(out@);
                out.push(f);
                assert(field_views(out@) =~= before.push((f.name@, f.type_annotation@)));
            }
        }
        k = k + 1;
    }
    assert(cs@.take(cs@.len() as int) =~= cs@);
    out
}

fn collect_enum_variants(tree: &SyntaxTree, i: usize) -> (r: Vec<Variant>)
    requires
        tree.wf(),
    ensures
        variant_views(r@) == enum_variants(*tree, body_children(*tree, i as int)),
{
    let mut out: Vec<Variant> = Vec::new();
    let body = match tree.child_by_field_name(i, "body") {
        Some(b) => b,
        None => {
            assert(variant_views(out@) =~= seq![]);
            return out;
        },
    };
    let cs = tree.children_of(body);
    let mut k: usize = 0;
    while k < cs.len()
        invariant
            tree.wf(),
            cs@ == tree.children(body as int),
            forall|j: int| 0 <= j < cs@.len() ==> (#[trigger] cs@[j]) < tree.len(),
            k <= cs.len(),
            variant_views(out@) == enum_variants(*tree, cs@.take(k as int)),
        decreases cs.len() - k,
    {
        let c = cs[k];
        assert(cs@.take(k + 1).drop_last() =~= cs@.take(k as int));
        assert(cs@.take(k + 1).last() == c);
        if tree.kind_is(c, "enum_variant") {
            let name = field_text(tree, c, "name", "");
            if !name.as_str().is_empty() {
                let v = Variant { name, type_annotation: None };
                let ghost before = variant_views(out@);
                out.push(v);
                assert(variant_views(out@) =~= before.push((v.name@, None)));
            }
        }
        k = k + 1;
    }
    assert(cs@.take(cs@.len() as int) =~= cs@);
    out
}

fn associated_type_name_of(tree: &SyntaxTree, c: usize) -> (r: String)
    requires
        tree.wf(),
    ensures
        r@ == associated_type_name(*tree, c as int),
{
    match tree.child_by_field_name(c, "name") {
        Some(n) => tree.node_text(n),
        None => match first_child_of_kind(tree, c, "type_identifier") {
            Some(x) => tree.node_text(x),
            None => String::new(),
        },
    }
}

fn collect_members(tree: &SyntaxTree, i: usize, of_trait: bool) -> (r: Vec<Member>)
    requires
        tree.wf(),
    ensures
        member_views(r@) == (if of_trait {
            trait_members(*tree, body_children(*tree, i as int))
        } else {
            impl_members(*tree, body_children(*tree, i as int))
        }),
{
    let mut out: Vec<Member> = Vec::new();
    let body = match tree.child_by_field_name(i, "body") {
        Some(b) => b,
        None => {
            assert(member_views(out@) =~= seq![]);
            return out;
        },
    };
    let cs = tree.children_of(body);
    let mut k: usize = 0;
    while k < cs.len()
        invariant
            tree.wf(),
            cs@ == tree.children(body as int),
            forall|j: int| 0 <= j < cs@.len() ==> (#[trigger] cs@[j]) < tree.len(),
            k <= cs.len(),
            member_views(out@) == (if of_trait {
                trait_members(*tree, cs@.take(k as int))
            } else {
                impl_members(*tree, cs@.take(k as int))
            }),
        decreases cs.len() - k,
    {
        let c = cs[k];
        assert(cs@.take(k + 1).drop_last() =~= cs@.take(k as int));
        assert(cs@.take(k + 1).last() == c);
        let ghost before = member_views(out@);
        let assoc = tree.kind_is(c, "associated_type_declaration") || tree.kind_is(
            c,
            "associated_type",
        ) || tree.kind_is(c, "associated_type_item");
        if of_trait && assoc {
            let name = associated_type_name_of(tree, c);
            if !name.as_str().is_empty() {
                let mut ty = String::new();
                push_str(&mut ty, "associated_type");
                let m = Member { name, type_annotation: ty };
                out.push(m);
                assert(member_views(out@) =~= before.push((m.name@, m.type_annotation@)));
            }
        } else if tree.kind_is(c, "function_item") || (of_trait && tree.kind_is(
            c,
            "function_signature_item",
        )) {
            let name = field_text(tree, c, "name", "");
            if !name.as_str().is_empty() {
                let m = Member { name, type_annotation: signature_for(tree, c) };
                out.push(m);
                assert(member_views(out@) =~= before.push((m.name@, m.type_annotation@)));
            }
        }
        k = k + 1;
    }
    assert(cs@.take(cs@.len() as int) =~= cs@);
    out
}

fn rust_def_kind_of(tree: &SyntaxTree, i: usize) -> (r: Option<TypeKind>)
    requires
        tree.wf(),
        i < tree.len(),
    ensures
        r == rust_def_kind(*tree, i as int),
{
    if crate::analysis::shape::is_named_node(tree, i, "struct_item", "type_identifier") {
        Some(TypeKind::Struct)
    } else if crate::analysis::shape::is_named_node(tree, i, "enum_item", "type_identifier") {
        Some(TypeKind::Enum)
    } else if crate::analysis::shape::is_named_node(tree, i, "trait_item", "type_identifier") {
        Some(TypeKind::Trait)
    } else if crate::analysis::shape::is_named_node(tree, i, "type_item", "type_identifier") {
        Some(TypeKind::TypeAlias)
    } else {
        None
    }
}

fn some_if_nonempty<A>(v: Vec<A>) -> (r: Option<Vec<A>>)
    ensures
        match r {
            Some(x) => x@ == v@ && v@.len() > 0,
            None => v@.len() == 0,
        },
{
    if v.len() > 0 {
        Some(v)
    } else {
        None
    }
}

fn rust_definition_of(tree: &SyntaxTree, i: usize, kind: TypeKind, file: &str) -> (r: TypeDefinition)
    requires
        tree.wf(),
        i < tree.len(),
    ensures
        type_view(r) == rust_definition(*tree, i as int, kind, file@),
{
    let fields = if kind == TypeKind::Struct {
        some_if_nonempty(collect_struct_fields(tree, i))
    } else {
        None
    };
    let variants = if kind == TypeKind::Enum {
        some_if_nonempty(collect_enum_variants(tree, i))
    } else {
        None
    };
    let members = if kind == TypeKind::Trait {
        some_if_nonempty(collect_members(tree, i, true))
    } else {
        None
    };
    let mut path = String::new();
    push_str(&mut path, file);
    TypeDefinition {
        name: field_text(tree, i, "name", ""),
        kind,
        file: path,
        line: start_line(tree, i),
        signature: signature_for(tree, i),
        usage_count: 0,
        fields,
        variants,
        members,
    }
}

fn add_impl_members(tree: &SyntaxTree, defs: &mut Vec<TypeDefinition>, i: usize)
    requires
        tree.wf(),
        i < tree.len(),
    ensures
        type_views(final(defs)@) == add_impl(*tree, type_views(old(defs)@), i as int),
{
    let ghost old_views = type_views(defs@);
    if !tree.kind_is(i, "impl_item") {
        return;
    }
    let ty = match tree.child_by_field_name(i, "type") {
        Some(ty) => ty,
        None => return,
    };
    if !tree.kind_is(ty, "type_identifier") || tree.child_by_field_name(i, "body").is_none() {
        return;
    }
    let name = field_text(tree, i, "type", "");
    if name.as_str().is_empty() {
        return;
    }
    let idx = match find_definition(defs, name.as_str()) {
        Some(j) => j,
        None => return,
    };
    let added = collect_members(tree, i, false);
    let mut members: Vec<Member> = Vec::new();
    let ghost oldm = match old_views[idx as int].8 {
        Some(m) => m,
        None => seq![],
    };
    match &defs[idx].members {
        Some(m) => {
            let mut q: usize = 0;
            while q < m.len()
                invariant
                    q <= m@.len(),
                    member_views(members@) == member_views(m@).take(q as int),
                decreases m@.len() - q,
            {
                let x = Member { name: m[q].name.clone(), type_annotation: m[q].type_annotation.clone() };
                let ghost before = member_views(members@);
                members.push(x);
                assert(member_views(members@) =~= before.push((x.name@, x.type_annotation@)));
                assert(member_views(m@).take(q + 1) =~= member_views(m@).take(q as int).push(
                    member_views(m@)[q as int],
                ));
                q = q + 1;
            }
            assert(member_views(m@).take(m@.len() as int) =~= member_views(m@));
        },
        None => {
            assert(member_views(members@) =~= seq![]);
        },
    }
    assert(member_views(members@) == oldm);
    let mut q: usize = 0;
    while q < added.len()
        invariant
            q <= added@.len(),
            member_views(members@) == oldm + member_views(added@).take(q as int),
        decreases added@.len() - q,
    {
        let x = Member {
            name: added[q].name.clone(),
            type_annotation: added[q].type_annotation.clone(),
        };
        let ghost before = member_views(members@);
        members.push(x);
        assert(member_views(members@) =~= before.push((x.name@, x.type_annotation@)));
        assert(member_views(added@).take(q + 1) =~= member_views(added@).take(q as int).push(
            member_views(added@)[q as int],
        ));
        q = q + 1;
    }
    assert(member_views(added@).take(added@.len() as int) =~= member_views(added@));
    let d = &defs[idx];
    let updated = TypeDefinition {
        name: d.name.clone(),
        kind: d.kind,
        file: d.file.clone(),
        line: d.line,
        signature: d.signature.clone(),
        usage_count: d.usage_count,
        fields: clone_fields(&d.fields),
        variants: clone_variants(&d.variants),
        members: some_if_nonempty(members),
    };
    defs.set(idx, updated);
    assert(type_views(defs@) =~= old_views.update(idx as int, type_view(updated)));
}

fn clone_fields(o: &Option<Vec<Field>>) -> (r: Option<Vec<Field>>)
    ensures
        crate::extraction::types::opt_fields(r) == crate::extraction::types::opt_fields(*o),
{
    match o {
        None => None,
        Some(v) => {
            let mut out: Vec<Field> = Vec::new();
            let mut q: usize = 0;
            while q < v.len()
                invariant
                    q <= v@.len(),
                    field_views(out@) == field_views(v@).take(q as int),
                decreases v@.len() - q,
            {
                let x = Field { name: v[q].name.clone(), type_annotation: v[q].type_annotation.clone() };
                let ghost before = field_views(out@);
                out.push(x);
                assert(field_views(out@) =~= before.push((x.name@, x.type_annotation@)));
                assert(field_views(v@).take(q + 1) =~= field_views(v@).take(q as int).push(
                    field_views(v@)[q as int],
                ));
                q = q + 1;
            }
            assert(field_views(v@).take(v@.len() as int) =~= field_views(v@));
            Some(out)
        },
    }
}

fn clone_variants(o: &Option<Vec<Variant>>) -> (r: Option<Vec<Variant>>)
    ensures
        crate::extraction::types::opt_variants(r) == crate::extraction::types::opt_variants(*o),
{
    match o {
        None => None,
        Some(v) => {
            let mut out: Vec<Variant> = Vec::new();
            let mut q: usize = 0;
            while q < v.len()
                invariant
                    q <= v@.len(),
                    variant_views(out@) == variant_views(v@).take(q as int),
                decreases v@.len() - q,
            {
                let ty = match &v[q].type_annotation {
                    Some(s) => Some(s.clone()),
                    None => None,
                };
                let x = Variant { name: v[q].name.clone(), type_annotation: ty };
                let ghost before = variant_views(out@);
                out.push(x);
                assert(variant_views(out@) =~= before.push(variant_views(v@)[q as int]));
                assert(variant_views(v@).take(q + 1) =~= variant_views(v@).take(q as int).push(
                    variant_views(v@)[q as int],
                ));
                q = q + 1;
            }
            assert(variant_views(v@).take(v@.len() as int) =~= variant_views(v@));
            Some(out)
        },
    }
}

/// The type definitions of a parsed Rust file (see `rust_types`): the
/// structs, enums, traits and type aliases in source order, the first of
/// each name, each with the methods of the impl blocks of its name.
pub fn rust_types_of(tree: &SyntaxTree, file: &str) -> (r: Vec<TypeDefinition>)
    requires
        tree.wf(),
    ensures
        type_views(r@) == rust_types(*tree, file@),
{
    let mut defs: Vec<TypeDefinition> = Vec::new();
    let mut k: usize = 0;
    assert(type_views(defs@) =~= seq![]);
    while k < tree.nodes.len()
        invariant
            tree.wf(),
            k <= tree.len(),
            type_views(defs@) == rust_definitions(*tree, k as int, file@),
        decreases tree.nodes.len() - k,
    {
        if let Some(kind) = rust_def_kind_of(tree, k) {
            let name = field_text(tree, k, "name", "");
            if !name.as_str().is_empty() && find_definition(&defs, name.as_str()).is_none() {
                let d = rust_definition_of(tree, k, kind, file);
                let ghost before = type_views(defs@);
                defs.push(d);
                assert(type_views(defs@) =~= before.push(type_view(d)));
            }
        }
        k = k + 1;
    }
    let ghost base = rust_definitions(*tree, tree.len(), file@);
    let mut k: usize = 0;
    while k < tree.nodes.len()
        invariant
            tree.wf(),
            k <= tree.len(),
            type_views(defs@) == with_impls(*tree, base, k as int),
        decreases tree.nodes.len() - k,
    {
        add_impl_members(tree, &mut defs, k);
        k = k + 1;
    }
    defs
}

/// Parse a Rust file and list its type definitions; `Err` when it cannot be
/// parsed.
pub fn extract_rust_types(source: &str, file: &str) -> (r: Result<Vec<TypeDefinition>, ParseError>)
    ensures
        r is Ok <==> crate::parser::parse_nodes(Language::Rust, source@) is Some,
        r matches Ok(v) ==> exists|t: SyntaxTree|
            t.wf() && crate::parser::tree_is_parse(t, Language::Rust, source@) && type_views(v@) == #[trigger] rust_types(
                t,
                file@,
            ),
{
    match parse_code(source, Language::Rust) {
        Ok(tree) => Ok(rust_types_of(&tree, file)),
        Err(e) => Err(e),
    }
}

} // verus!
