//! Type definitions of TypeScript and JavaScript files: classes with their
//! fields, interfaces with their members, enums with their variants and
//! type aliases.
use vstd::prelude::*;
use crate::analysis::shape::{
    field_text, field_text_or, is_named_node, named_node, node_line, start_line,
};
use crate::extraction::rust_types::nonempty;
use crate::extraction::types::{
    Field, FieldView, Member, MemberView, TypeDefinition, TypeKind, TypeView, Variant,
    VariantView, clean_annotation, clean_type_annotation, field_views, first_line_trimmed,
    member_views, signature_for, type_view, type_views, variant_views,
};
use crate::parser::{Language, ParseError, parse_code};
use crate::syntax::SyntaxTree;
use crate::text::push_str;

verus! {

/// The kind of definition a node declares: in TypeScript classes,
/// interfaces and type aliases named by a type identifier and enums named
/// by an identifier; in JavaScript classes named by an identifier.
pub open spec fn ts_def_kind(t: SyntaxTree, i: int, typescript: bool) -> Option<TypeKind> {
    if typescript {
        if named_node(t, i, "class_declaration"@, "type_identifier"@) {
            Some(TypeKind::Class)
        } else if named_node(t, i, "interface_declaration"@, "type_identifier"@) {
            Some(TypeKind::Interface)
        } else if named_node(t, i, "type_alias_declaration"@, "type_identifier"@) {
            Some(TypeKind::TypeAlias)
        } else if named_node(t, i, "enum_declaration"@, "identifier"@) {
            Some(TypeKind::Enum)
        } else {
            None
        }
    } else if named_node(t, i, "class_declaration"@, "identifier"@) {
        Some(TypeKind::Class)
    } else {
        None
    }
}

/// The cleaned type of node `c`'s `type` child, or empty.
pub open spec fn cleaned_type(t: SyntaxTree, c: int) -> Seq<char> {
    match t.child_by_field(c, "type"@) {
        Some(n) => clean_annotation(t.text(n as int)),
        None => seq![],
    }
}

/// The fields among the body children `cs` of a class.
pub open spec fn ts_fields(t: SyntaxTree, cs: Seq<usize>) -> Seq<FieldView>
    decreases cs.len(),
{
    if cs.len() == 0 {
        seq![]
    } else {
        let r = ts_fields(t, cs.drop_last());
        let c = cs.last() as int;
        let k = t.kind(c);
        let name = field_text_or(t, c, "name"@, ""@);
        if (k == "public_field_definition"@ || k == "field_definition"@ || k
            == "property_signature"@) && name.len() > 0 {
            r.push((name, cleaned_type(t, c)))
        } else {
            r
        }
    }
}

/// The members among the body children `cs` of an interface: properties
/// with their cleaned types, methods with their signatures.
pub open spec fn ts_members(t: SyntaxTree, cs: Seq<usize>) -> Seq<MemberView>
    decreases cs.len(),
{
    if cs.len() == 0 {
        seq![]
    } else {
        let r = ts_members(t, cs.drop_last());
        let c = cs.last() as int;
        let k = t.kind(c);
        let name = field_text_or(t, c, "name"@, ""@);
        if k == "property_signature"@ && name.len() > 0 {
            r.push((name, cleaned_type(t, c)))
        } else if k == "method_signature"@ && name.len() > 0 {
            r.push((name, first_line_trimmed(t.text(c))))
        } else {
            r
        }
    }
}

/// The variants among the body children `cs` of an enum.
pub open spec fn ts_variants(t: SyntaxTree, cs: Seq<usize>) -> Seq<VariantView>
    decreases cs.len(),
{
    if cs.len() == 0 {
        seq![]
    } else {
        let r = ts_variants(t, cs.drop_last());
        let c = cs.last() as int;
        let name = field_text_or(t, c, "name"@, ""@);
        if t.kind(c) == "enum_member"@ && name.len() > 0 {
            r.push((name, None))
        } else {
            r
        }
    }
}

/// The body children of `i`, if it has a body.
pub open spec fn body_of(t: SyntaxTree, i: int) -> Option<Seq<usize>> {
    match t.child_by_field(i, "body"@) {
        Some(b) => Some(t.children(b as int)),
        None => None,
    }
}

/// The definition declared by node `i` of kind `kind`.
pub open spec fn ts_definition(t: SyntaxTree, i: int, kind: TypeKind, file: Seq<char>) -> TypeView {
    (
        field_text_or(t, i, "name"@, ""@),
        kind,
        file,
        node_line(t, i),
        first_line_trimmed(t.text(i)),
        0,
        if kind == TypeKind::Class {
            match body_of(t, i) {
                Some(cs) => nonempty(ts_fields(t, cs)),
                None => None,
            }
        } else {
            None
        },
        if kind == TypeKind::Enum {
            match body_of(t, i) {
                Some(cs) => nonempty(ts_variants(t, cs)),
                None => None,
            }
        } else {
            None
        },
        if kind == TypeKind::Interface {
            match body_of(t, i) {
                Some(cs) => nonempty(ts_members(t, cs)),
                None => None,
            }
        } else {
            None
        },
    )
}

/// The type definitions among the first `k` nodes.
pub open spec fn ts_types_upto(t: SyntaxTree, k: int, typescript: bool, file: Seq<char>) -> Seq<
    TypeView,
>
    decreases k,
{
    if k <= 0 {
        seq![]
    } else {
        let r = ts_types_upto(t, k - 1, typescript, file);
        match ts_def_kind(t, k - 1, typescript) {
            Some(kind) => r.push(ts_definition(t, k - 1, kind, file)),
            None => r,
        }
    }
}

/// The type definitions of a TypeScript (or JavaScript) file.
pub open spec fn ts_types(t: SyntaxTree, typescript: bool, file: Seq<char>) -> Seq<TypeView> {
    ts_types_upto(t, t.len(), typescript, file)
}

fn ts_def_kind_of(tree: &SyntaxTree, i: usize, typescript: bool) -> (r: Option<TypeKind>)
    requires
        tree.wf(),
        i < tree.len(),
    ensures
        r == ts_def_kind(*tree, i as int, typescript),
{
    if typescript {
        if is_named_node(tree, i, "class_declaration", "type_identifier") {
            Some(TypeKind::Class)
        } else if is_named_node(tree, i, "interface_declaration", "type_identifier") {
            Some(TypeKind::Interface)
        } else if is_named_node(tree, i, "type_alias_declaration", "type_identifier") {
            Some(TypeKind::TypeAlias)
        } else if is_named_node(tree, i, "enum_declaration", "identifier") {
            Some(TypeKind::Enum)
        } else {
            None
        }
    } else if is_named_node(tree, i, "class_declaration", "identifier") {
        Some(TypeKind::Class)
    } else {
        None
    }
}

fn cleaned_type_of(tree: &SyntaxTree, c: usize) -> (r: String)
    requires
        tree.wf(),
    ensures
        r@ == cleaned_type(*tree, c as int),
{
    match tree.child_by_field_name(c, "type") {
        Some(n) => clean_type_annotation(tree.node_text(n).as_str()),
        None => String::new(),
    }
}

fn collect_ts_fields(tree: &SyntaxTree, cs: &Vec<usize>) -> (r: Vec<Field>)
    requires
        tree.wf(),
        forall|j: int| 0 <= j < cs@.len() ==> (#[trigger] cs@[j]) < tree.len(),
    ensures
        field_views(r@) == ts_fields(*tree, cs@),
{
    let mut out: Vec<Field> = Vec::new();
    let mut k: usize = 0;
    assert(field_views(out@) =~= seq![]);
    while k < cs.len()
        invariant
            tree.wf(),
            forall|j: int| 0 <= j < cs@.len() ==> (#[trigger] cs@[j]) < tree.len(),
            k <= cs.len(),
            field_views(out@) == ts_fields(*tree, cs@.take(k as int)),
        decreases cs.len() - k,
    {
        let c = cs[k];
        assert(cs@.take(k + 1).drop_last() =~= cs@.take(k as int));
        assert(cs@.take(k + 1).last() == c);
        let kind_ok = tree.kind_is(c, "public_field_definition") || tree.kind_is(
            c,
            "field_definition",
        ) || tree.kind_is(c, "property_signature");
        let name = field_text(tree, c, "name", "");
        if kind_ok && !name.as_str().is_empty() {
            let f = Field { name, type_annotation: cleaned_type_of(tree, c) };
            let ghost before = field_views(out@);
            out.push(f);
            assert(field_views(out@) =~= before.push((f.name@, f.type_annotation@)));
        }
        k = k + 1;
    }
    assert(cs@.take(cs@.len() as int) =~= cs@);
    out
}

fn collect_ts_members(tree: &SyntaxTree, cs: &Vec<usize>) -> (r: Vec<Member>)
    requires
        tree.wf(),
        forall|j: int| 0 <= j < cs@.len() ==> (#[trigger] cs@[j]) < tree.len(),
    ensures
        member_views(r@) == ts_members(*tree, cs@),
{
    let mut out: Vec<Member> = Vec::new();
    let mut k: usize = 0;
    assert(member_views(out@) =~= seq![]);
    while k < cs.len()
        invariant
            tree.wf(),
            forall|j: int| 0 <= j < cs@.len() ==> (#[trigger] cs@[j]) < tree.len(),
            k <= cs.len(),
            member_views(out@) == ts_members(*tree, cs@.take(k as int)),
        decreases cs.len() - k,
    {
        let c = cs[k];
        assert(cs@.take(k + 1).drop_last() =~= cs@.take(k as int));
        assert(cs@.take(k + 1).last() == c);
        let name = field_text(tree, c, "name", "");
        if !name.as_str().is_empty() {
            let ghost before = member_views(out@);
            if tree.kind_is(c, "property_signature") {
                let m = Member { name, type_annotation: cleaned_type_of(tree, c) };
                out.push(m);
                assert(member_views(out@) =~= before.push((m.name@, m.type_annotation@)));
            } else if tree.kind_is(c, "method_signature") {
                let m = Member { name, type_annotation: signature_for(tree, c) };
                out.push(m);
                assert(member_views(out@) =~= before.push((m.name@, m.type_annotation@)));
            }
        }
        k = k + 1;
    }
    assert(cs@.take(cs@.len() as int) =~= cs@);
    out
}

fn collect_ts_variants(tree: &SyntaxTree, cs: &Vec<usize>) -> (r: Vec<Variant>)
    requires
        tree.wf(),
        forall|j: int| 0 <= j < cs@.len() ==> (#[trigger] cs@[j]) < tree.len(),
    ensures
        variant_views(r@) == ts_variants(*tree, cs@),
{
    let mut out: Vec<Variant> = Vec::new();
    let mut k: usize = 0;
    assert(variant_views(out@) =~= seq![]);
    while k < cs.len()
        invariant
            tree.wf(),
            forall|j: int| 0 <= j < cs@.len() ==> (#[trigger] cs@[j]) < tree.len(),
            k <= cs.len(),
            variant_views(out@) == ts_variants(*tree, cs@.take(k as int)),
        decreases cs.len() - k,
    {
        let c = cs[k];
        assert(cs@.take(k + 1).drop_last() =~= cs@.take(k as int));
        assert(cs@.take(k + 1).last() == c);
        let name = field_text(tree, c, "name", "");
        if tree.kind_is(c, "enum_member") && !name.as_str().is_empty() {
            let v = Variant { name, type_annotation: None };
            let ghost before = variant_views(out@);
            out.push(v);
            assert(variant_views(out@) =~= before.push((v.name@, None)));
        }
        k = k + 1;
    }
    assert(cs@.take(cs@.len() as int) =~= cs@);
    out
}

fn ts_definition_of(tree: &SyntaxTree, i: usize, kind: TypeKind, file: &str) -> (r: TypeDefinition)
    requires
        tree.wf(),
        i < tree.len(),
    ensures
        type_view(r) == ts_definition(*tree, i as int, kind, file@),
{
    let body = match tree.child_by_field_name(i, "body") {
        Some(b) => Some(tree.children_of(b)),
        None => None,
    };
    let mut fields: Option<Vec<Field>> = None;
    let mut variants: Option<Vec<Variant>> = None;
    let mut members: Option<Vec<Member>> = None;
    if let Some(cs) = &body {
        if kind == TypeKind::Class {
            let f = collect_ts_fields(tree, cs);
            if f.len() > 0 {
                fields = Some(f);
            }
        } else if kind == TypeKind::Enum {
            let v = collect_ts_variants(tree, cs);
            if v.len() > 0 {
                variants = Some(v);
            }
        } else if kind == TypeKind::Interface {
            let m = collect_ts_members(tree, cs);
            if m.len() > 0 {
                members = Some(m);
            }
        }
    }
    let mut path = String::new();
    push_str(&mut path, file);
    TypeDefinition {
        name: field_text(tree, i, "name", ""),
        kind,
        file: path,
        line: start_line(tree, i),
        signature: signature_for(tree, i),
        usage_count: 0,
        fields,
        variants,
        members,
    }
}

/// The type definitions of a parsed TypeScript (or JavaScript) file (see
/// `ts_types`).
pub fn ts_types_of(tree: &SyntaxTree, typescript: bool, file: &str) -> (r: Vec<TypeDefinition>)
    requires
        tree.wf(),
    ensures
        type_views(r@) == ts_types(*tree, typescript, file@),
{
    let mut defs: Vec<TypeDefinition> = Vec::new();
    let mut k: usize = 0;
    assert(type_views(defs@) =~= seq![]);
    while k < tree.nodes.len()
        invariant
            tree.wf(),
            k <= tree.len(),
            type_views(defs@) == ts_types_upto(*tree, k as int, typescript, file@),
        decreases tree.nodes.len() - k,
    {
        if let Some(kind) = ts_def_kind_of(tree, k, typescript) {
            let d = ts_definition_of(tree, k, kind, file);
            let ghost before = type_views(defs@);
            defs.push(d);
            assert(type_views(defs@) =~= before.push(type_view(d)));
        }
        k = k + 1;
    }
    defs
}

/// The grammar of TypeScript, or of JavaScript when `typescript` is false.
pub open spec fn ts_language(typescript: bool) -> Language {
    if typescript {
        Language::TypeScript
    } else {
        Language::JavaScript
    }
}

/// Parse a TypeScript file (JavaScript when `typescript` is false) and list
/// its type definitions; `Err` when it cannot be parsed.
pub fn extract_typescript_types(source: &str, file: &str, typescript: bool) -> (r: Result<
    Vec<TypeDefinition>,
    ParseError,
>)
    ensures
        r is Ok <==> crate::parser::parse_nodes(ts_language(typescript), source@) is Some,
        r matches Ok(v) ==> exists|t: SyntaxTree|
            t.wf() && crate::parser::tree_is_parse(t, ts_language(typescript), source@) && type_views(v@)
                == #[trigger] ts_types(
                t,
                typescript,
                file@,
            ),
{
    let language = if typescript {
        Language::TypeScript
    } else {
        Language::JavaScript
    };
    match parse_code(source, language) {
        Ok(tree) => Ok(ts_types_of(&tree, typescript, file)),
        Err(e) => Err(e),
    }
}

} // verus!
