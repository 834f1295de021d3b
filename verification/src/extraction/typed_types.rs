//! Type definitions of C#, Java and Go files.
use vstd::prelude::*;
use crate::analysis::shape::{
    field_text, field_text_or, is_named_node, named_node, node_line, start_line,
};
use crate::analysis::typed_shape::{first_child_of_kind, first_of_kind, texts_of_kinds, child_texts};
use crate::extraction::rust_types::nonempty;
use crate::extraction::types::{
    Field, FieldView, Member, MemberView, TypeDefinition, TypeKind, TypeView, Variant,
    VariantView, field_views, first_line_trimmed, member_views, signature_for, type_view,
    type_views, variant_views,
};
use crate::parser::{Language, ParseError, parse_code};
use crate::syntax::SyntaxTree;
use crate::text::{push_str, views};

verus! {

// ---------------------------------------------------------------------------
// C#
// ---------------------------------------------------------------------------

/// The kind of definition a C# node declares (named by an `identifier`).
/// `using` aliases are not among them: the grammar has no `name_equals`
/// node to find them by.
pub open spec fn csharp_def_kind(t: SyntaxTree, i: int) -> Option<TypeKind> {
    if named_node(t, i, "class_declaration"@, "identifier"@) {
        Some(TypeKind::Class)
    } else if named_node(t, i, "interface_declaration"@, "identifier"@) {
        Some(TypeKind::Interface)
    } else if named_node(t, i, "struct_declaration"@, "identifier"@) {
        Some(TypeKind::Struct)
    } else if named_node(t, i, "enum_declaration"@, "identifier"@) {
        Some(TypeKind::Enum)
    } else if named_node(t, i, "record_declaration"@, "identifier"@) {
        Some(TypeKind::Record)
    } else {
        None
    }
}

/// The fields of the variable declarators among `cs`, all of type `ty`.
pub open spec fn declarator_fields(t: SyntaxTree, cs: Seq<usize>, ty: Seq<char>) -> Seq<FieldView>
    decreases cs.len(),
{
    if cs.len() == 0 {
        seq![]
    } else {
        let r = declarator_fields(t, cs.drop_last(), ty);
        let c = cs.last() as int;
        match t.child_by_field(c, "name"@) {
            Some(n) => if t.kind(c) == "variable_declarator"@ {
                r.push((t.text(n as int), ty))
            } else {
                r
            },
            None => r,
        }
    }
}

/// The fields of a C# field declaration: one per declarator, with the
/// declaration's type.
pub open spec fn csharp_declaration_fields(t: SyntaxTree, c: int) -> Seq<FieldView> {
    match (t.child_by_field(c, "type"@), t.child_by_field(c, "declarators"@)) {
        (Some(ty), Some(ds)) => declarator_fields(t, t.children(ds as int), t.text(ty as int)),
        _ => seq![],
    }
}

/// What the body children `cs` of a C# type of kind `kind` gather: fields
/// (of field and property declarations), members (methods of an
/// interface) and variants (enum members).
pub open spec fn csharp_body(t: SyntaxTree, cs: Seq<usize>, kind: TypeKind) -> (
    Seq<FieldView>,
    Seq<MemberView>,
    Seq<VariantView>,
)
    decreases cs.len(),
{
    if cs.len() == 0 {
        (seq![], seq![], seq![])
    } else {
        let r = csharp_body(t, cs.drop_last(), kind);
        let c = cs.last() as int;
        let k = t.kind(c);
        let named = t.child_by_field(c, "name"@) is Some;
        if k == "field_declaration"@ {
            (r.0 + csharp_declaration_fields(t, c), r.1, r.2)
        } else if k == "property_declaration"@ && named {
            (
                r.0.push((field_text_or(t, c, "name"@, ""@), field_text_or(t, c, "type"@, ""@))),
                r.1,
                r.2,
            )
        } else if k == "method_declaration"@ && kind == TypeKind::Interface && named {
            (r.0, r.1.push((field_text_or(t, c, "name"@, ""@), first_line_trimmed(t.text(c)))), r.2)
        } else if k == "enum_member_declaration"@ && named {
            (r.0, r.1, r.2.push((field_text_or(t, c, "name"@, ""@), None)))
        } else {
            r
        }
    }
}

/// The definition declared by C# node `i` of kind `kind`.
pub open spec fn csharp_definition(t: SyntaxTree, i: int, kind: TypeKind, file: Seq<char>) -> TypeView {
    let body = match t.child_by_field(i, "body"@) {
        Some(b) => {
            let g = csharp_body(t, t.children(b as int), kind);
            (nonempty(g.0), nonempty(g.2), nonempty(g.1))
        },
        None => (None, None, None),
    };
    (
        field_text_or(t, i, "name"@, ""@),
        kind,
        file,
        node_line(t, i),
        first_line_trimmed(t.text(i)),
        0,
        body.0,
        body.1,
        body.2,
    )
}

/// The type definitions among the first `k` nodes of a C# file.
pub open spec fn csharp_types_upto(t: SyntaxTree, k: int, file: Seq<char>) -> Seq<TypeView>
    decreases k,
{
    if k <= 0 {
        seq![]
    } else {
        let r = csharp_types_upto(t, k - 1, file);
        match csharp_def_kind(t, k - 1) {
            Some(kind) => r.push(csharp_definition(t, k - 1, kind, file)),
            None => r,
        }
    }
}

/// The type definitions of a C# file.
pub open spec fn csharp_types(t: SyntaxTree, file: Seq<char>) -> Seq<TypeView> {
    csharp_types_upto(t, t.len(), file)
}

fn csharp_def_kind_of(tree: &SyntaxTree, i: usize) -> (r: Option<TypeKind>)
    requires
        tree.wf(),
        i < tree.len(),
    ensures
        r == csharp_def_kind(*tree, i as int),
{
    if is_named_node(tree, i, "class_declaration", "identifier") {
        Some(TypeKind::Class)
    } else if is_named_node(tree, i, "interface_declaration", "identifier") {
        Some(TypeKind::Interface)
    } else if is_named_node(tree, i, "struct_declaration", "identifier") {
        Some(TypeKind::Struct)
    } else if is_named_node(tree, i, "enum_declaration", "identifier") {
        Some(TypeKind::Enum)
    } else if is_named_node(tree, i, "record_declaration", "identifier") {
        Some(TypeKind::Record)
    } else {
        None
    }
}

fn push_declarator_fields(tree: &SyntaxTree, c: usize, out: &mut Vec<Field>)
    requires
        tree.wf(),
    ensures
        field_views(final(out)@) == field_views(old(out)@) + csharp_declaration_fields(
            *tree,
            c as int,
        ),
{
    let ghost start = field_views(out@);
    let (ty, ds) = match (tree.child_by_field_name(c, "type"), tree.child_by_field_name(c, "declarators")) {
        (Some(ty), Some(ds)) => (ty, ds),
        _ => {
            assert(start + seq![] =~= start);
            return;
        },
    };
    let ty_text = tree.node_text(ty);
    let cs = tree.children_of(ds);
    let mut k: usize = 0;
    assert(start + declarator_fields(*tree, cs@.take(0), ty_text@) =~= start);
    while k < cs.len()
        invariant
            tree.wf(),
            cs@ == tree.children(ds as int),
            forall|j: int| 0 <= j < cs@.len() ==> (#[trigger] cs@[j]) < tree.len(),
            k <= cs.len(),
            field_views(out@) == start + declarator_fields(*tree, cs@.take(k as int), ty_text@),
        decreases cs.len() - k,
    {
        let d = cs[k];
        assert(cs@.take(k + 1).drop_last() =~= cs@.take(k as int));
        assert(cs@.take(k + 1).last() == d);
        if let Some(n) = tree.child_by_field_name(d, "name") {
            if tree.kind_is(d, "variable_declarator") {
                let f = Field { name: tree.node_text(n), type_annotation: ty_text.clone() };
                let ghost before = field_views(out@);
                out.push(f);
                assert(field_views(out@) =~= before.push((f.name@, f.type_annotation@)));
            }
        }
        k = k + 1;
    }
    assert(cs@.take(cs@.len() as int) =~= cs@);
}

fn csharp_definition_of(tree: &SyntaxTree, i: usize, kind: TypeKind, file: &str) -> (r: TypeDefinition)
    requires
        tree.wf(),
        i < tree.len(),
    ensures
        type_view(r) == csharp_definition(*tree, i as int, kind, file@),
{
    let mut fields: Option<Vec<Field>> = None;
    let mut variants: Option<Vec<Variant>> = None;
    let mut members: Option<Vec<Member>> = None;
    if let Some(b) = tree.child_by_field_name(i, "body") {
        let cs = tree.children_of(b);
        let mut f: Vec<Field> = Vec::new();
        let mut m: Vec<Member> = Vec::new();
        let mut v: Vec<Variant> = Vec::new();
        let mut k: usize = 0;
        assert(field_views(f@) =~= seq![]);
        assert(member_views(m@) =~= seq![]);
        assert(variant_views(v@) =~= seq![]);
        while k < cs.len()
            invariant
                tree.wf(),
                cs@ == tree.children(b as int),
                forall|j: int| 0 <= j < cs@.len() ==> (#[trigger] cs@[j]) < tree.len(),
                k <= cs.len(),
                csharp_body(*tree, cs@.take(k as int), kind) == (
                    field_views(f@),
                    member_views(m@),
                    variant_views(v@),
                ),
            decreases cs.len() - k,
        {
            let c = cs[k];
            assert(cs@.take(k + 1).drop_last() =~= cs@.take(k as int));
            assert(cs@.take(k + 1).last() == c);
            let named = tree.child_by_field_name(c, "name").is_some();
            if tree.kind_is(c, "field_declaration") {
                push_declarator_fields(tree, c, &mut f);
            } else if tree.kind_is(c, "property_declaration") && named {
                let x = Field {
                    name: field_text(tree, c, "name", ""),
                    type_annotation: field_text(tree, c, "type", ""),
                };
                let ghost before = field_views(f@);
                f.push(x);
                assert(field_views(f@) =~= before.push((x.name@, x.type_annotation@)));
            } else if tree.kind_is(c, "method_declaration") && kind == TypeKind::Interface && named {
                let x = Member {
                    name: field_text(tree, c, "name", ""),
                    type_annotation: signature_for(tree, c),
                };
                let ghost before = member_views(m@);
                m.push(x);
                assert(member_views(m@) =~= before.push((x.name@, x.type_annotation@)));
            } else if tree.kind_is(c, "enum_member_declaration") && named {
                let x = Variant { name: field_text(tree, c, "name", ""), type_annotation: None };
                let ghost before = variant_views(v@);
                v.push(x);
                assert(variant_views(v@) =~= before.push((x.name@, None)));
            }
            k = k + 1;
        }
        assert(cs@.take(cs@.len() as int) =~= cs@);
        if f.len() > 0 {
            fields = Some(f);
        }
        if m.len() > 0 {
            members = Some(m);
        }
        if v.len() > 0 {
            variants = Some(v);
        }
    }
    let mut path = String::new();
    push_str(&mut path, file);
    TypeDefinition {
        name: field_text(tree, i, "name", ""),
        kind,
        file: path,
        line: start_line(tree, i),
        signature: signature_for(tree, i),
        usage_count: 0,
        fields,
        variants,
        members,
    }
}

/// The type definitions of a parsed C# file (see `csharp_types`).
pub fn csharp_types_of(tree: &SyntaxTree, file: &str) -> (r: Vec<TypeDefinition>)
    requires
        tree.wf(),
    ensures
        type_views(r@) == csharp_types(*tree, file@),
{
    let mut defs: Vec<TypeDefinition> = Vec::new();
    let mut k: usize = 0;
    assert(type_views(defs@) =~= seq![]);
    while k < tree.nodes.len()
        invariant
            tree.wf(),
            k <= tree.len(),
            type_views(defs@) == csharp_types_upto(*tree, k as int, file@),
        decreases tree.nodes.len() - k,
    {
        if let Some(kind) = csharp_def_kind_of(tree, k) {
            let d = csharp_definition_of(tree, k, kind, file);
            let ghost before = type_views(defs@);
            defs.push(d);
            assert(type_views(defs@) =~= before.push(type_view(d)));
        }
        k = k + 1;
    }
    defs
}

/// Parse a C# file and list its type definitions; `Err` when it cannot be
/// parsed.
pub fn extract_csharp_types(source: &str, file: &str) -> (r: Result<Vec<TypeDefinition>, ParseError>)
    ensures
        r is Ok <==> crate::parser::parse_nodes(Language::CSharp, source@) is Some,
        r matches Ok(v) ==> exists|t: SyntaxTree|
            t.wf() && crate::parser::tree_is_parse(t, Language::CSharp, source@) && type_views(v@) == #[trigger] csharp_types(
                t,
                file@,
            ),
{
    match parse_code(source, Language::CSharp) {
        Ok(tree) => Ok(csharp_types_of(&tree, file)),
        Err(e) => Err(e),
    }
}

// ---------------------------------------------------------------------------
// Go
// ---------------------------------------------------------------------------

/// A Go `type_spec` named by a type identifier whose `type` child is a
/// struct or an interface: its kind and that child.
pub open spec fn go_def(t: SyntaxTree, i: int) -> Option<(TypeKind, usize)> {
    if named_node(t, i, "type_spec"@, "type_identifier"@) {
        match t.child_by_field(i, "type"@) {
            Some(ty) => if t.kind(ty as int) == "struct_type"@ {
                Some((TypeKind::Struct, ty))
            } else if t.kind(ty as int) == "interface_type"@ {
                Some((TypeKind::Interface, ty))
            } else {
                None
            },
            None => None,
        }
    } else {
        None
    }
}

/// The fields of the field declarations among `cs`: each field identifier
/// with the declaration's type (declarations without a type left out).
pub open spec fn go_struct_fields(t: SyntaxTree, cs: Seq<usize>) -> Seq<FieldView>
    decreases cs.len(),
{
    if cs.len() == 0 {
        seq![]
    } else {
        let r = go_struct_fields(t, cs.drop_last());
        let c = cs.last() as int;
        let ty = field_text_or(t, c, "type"@, ""@);
        if t.kind(c) == "field_declaration"@ && ty.len() > 0 {
            r + nonempty_names(texts_of_kinds(t, t.children(c), "field_identifier"@, "field_identifier"@)).map_values(
                |n: Seq<char>| (n, ty),
            )
        } else {
            r
        }
    }
}

/// The non-empty entries of `s`.
pub open spec fn nonempty_names(s: Seq<Seq<char>>) -> Seq<Seq<char>>
    decreases s.len(),
{
    if s.len() == 0 {
        seq![]
    } else {
        let r = nonempty_names(s.drop_last());
        if s.last().len() > 0 {
            r.push(s.last())
        } else {
            r
        }
    }
}

/// The field list of a struct type: its `fields` child, else its first
/// `field_declaration_list`.
pub open spec fn go_field_list(t: SyntaxTree, s: int) -> Option<usize> {
    match t.child_by_field(s, "fields"@) {
        Some(f) => Some(f),
        None => first_of_kind(t, t.children(s), "field_declaration_list"@),
    }
}

/// The named nodes among `cs`.
pub open spec fn named_of(t: SyntaxTree, cs: Seq<usize>) -> Seq<usize>
    decreases cs.len(),
{
    if cs.len() == 0 {
        seq![]
    } else {
        let r = named_of(t, cs.drop_last());
        if t.nodes@[cs.last() as int].named {
            r.push(cs.last())
        } else {
            r
        }
    }
}

/// The named method elements among `cs`, as members.
pub open spec fn method_elems(t: SyntaxTree, cs: Seq<usize>) -> Seq<MemberView>
    decreases cs.len(),
{
    if cs.len() == 0 {
        seq![]
    } else {
        let r = method_elems(t, cs.drop_last());
        let c = cs.last() as int;
        let name = field_text_or(t, c, "name"@, ""@);
        if t.kind(c) == "method_elem"@ && t.child_by_field(c, "name"@) is Some && name.len() > 0 {
            r.push((name, first_line_trimmed(t.text(c))))
        } else {
            r
        }
    }
}

/// The members found under node `n`, visiting as a stack does: the method
/// elements among the named children of `n`, then, for each named child
/// from the last to the first, the members found under it.
pub open spec fn members_under(t: SyntaxTree, n: int) -> Seq<MemberView>
    decreases t.len() - n, 1int, 0int,
{
    let cs = named_of(t, t.children(n));
    method_elems(t, cs) + members_under_list(t, n, cs)
}

/// The members found under each of `cs` (children of `n`), from the last to
/// the first.
pub open spec fn members_under_list(t: SyntaxTree, n: int, cs: Seq<usize>) -> Seq<MemberView>
    decreases t.len() - n, 0int, cs.len(),
{
    if cs.len() == 0 || n < 0 || n >= t.len() {
        seq![]
    } else if n < cs.last() < t.len() {
        members_under(t, cs.last() as int) + members_under_list(t, n, cs.drop_last())
    } else {
        members_under_list(t, n, cs.drop_last())
    }
}

/// The definition declared by Go `type_spec` node `i`.
pub open spec fn go_definition(t: SyntaxTree, i: int, kind: TypeKind, ty: int, file: Seq<char>) -> TypeView {
    (
        field_text_or(t, i, "name"@, ""@),
        kind,
        file,
        node_line(t, i),
        first_line_trimmed(t.text(i)),
        0,
        if kind == TypeKind::Struct {
            match go_field_list(t, ty) {
                Some(l) => nonempty(go_struct_fields(t, t.children(l as int))),
                None => None,
            }
        } else {
            None
        },
        None,
        if kind == TypeKind::Interface {
            nonempty(members_under(t, ty))
        } else {
            None
        },
    )
}

/// The type definitions among the first `k` nodes of a Go file.
pub open spec fn go_types_upto(t: SyntaxTree, k: int, file: Seq<char>) -> Seq<TypeView>
    decreases k,
{
    if k <= 0 {
        seq![]
    } else {
        let r = go_types_upto(t, k - 1, file);
        match go_def(t, k - 1) {
            Some((kind, ty)) => r.push(go_definition(t, k - 1, kind, ty as int, file)),
            None => r,
        }
    }
}

/// The type definitions of a Go file.
pub open spec fn go_types(t: SyntaxTree, file: Seq<char>) -> Seq<TypeView> {
    go_types_upto(t, t.len(), file)
}

/// The named children of `p`, in order.
pub fn named_children_of(tree: &SyntaxTree, p: usize) -> (r: Vec<usize>)
    requires
        tree.wf(),
    ensures
        r@ == named_of(*tree, tree.children(p as int)),
        forall|j: int| 0 <= j < r@.len() ==> (#[trigger] r@[j]) < tree.len(),
{
    let cs = tree.children_of(p);
    let mut out: Vec<usize> = Vec::new();
    let mut k: usize = 0;
    while k < cs.len()
        invariant
            tree.wf(),
            cs@ == tree.children(p as int),
            forall|j: int| 0 <= j < cs@.len() ==> (#[trigger] cs@[j]) < tree.len(),
            k <= cs.len(),
            out@ == named_of(*tree, cs@.take(k as int)),
            forall|j: int| 0 <= j < out@.len() ==> (#[trigger] out@[j]) < tree.len(),
        decreases cs.len() - k,
    {
        let c = cs[k];
        assert(cs@.take(k + 1).drop_last() =~= cs@.take(k as int));
        assert(cs@.take(k + 1).last() == c);
        if tree.nodes[c].named {
            out.push(c);
        }
        k = k + 1;
    }
    assert(cs@.take(cs@.len() as int) =~= cs@);
    out
}

/// The named children of `p` come after it.
pub proof fn lemma_named_of_children(t: SyntaxTree, p: int, cs: Seq<usize>)
    requires
        t.wf(),
        0 <= p < t.len(),
        forall|j: int| 0 <= j < cs.len() ==> t.is_child(p, #[trigger] cs[j] as int) && cs[j] < t.len(),
    ensures
        forall|j: int| 0 <= j < named_of(t, cs).len() ==> p < #[trigger] named_of(t, cs)[j] < t.len(),
    decreases cs.len(),
{
    if cs.len() > 0 {
        let d = cs.drop_last();
        assert forall|j: int| 0 <= j < d.len() implies t.is_child(p, #[trigger] d[j] as int) && d[j]
            < t.len() by {
            assert(d[j] == cs[j]);
        }
        lemma_named_of_children(t, p, d);
        let c = cs.last();
        assert(t.is_child(p, cs[cs.len() - 1] as int));
        assert(t.nodes@[c as int].parent == Some(p as usize));
        if c == 0 {
            assert(t.nodes@[0].parent is None);
        }
        assert(p < c);
        let r = named_of(t, cs);
        let rd = named_of(t, d);
        assert forall|j: int| 0 <= j < r.len() implies p < #[trigger] r[j] < t.len() by {
            if j < rd.len() {
                assert(r[j] == rd[j]);
            }
        }
    }
}

/// Append the members found under `n` (see `members_under`).
fn collect_members_under(tree: &SyntaxTree, n: usize, out: &mut Vec<Member>)
    requires
        tree.wf(),
        n < tree.len(),
    ensures
        member_views(final(out)@) == member_views(old(out)@) + members_under(*tree, n as int),
    decreases tree.len() - n,
{
    let ghost start = member_views(out@);
    let cs = named_children_of(tree, n);
    proof {
        tree.lemma_children(n as int, tree.len());
        lemma_named_of_children(*tree, n as int, tree.children(n as int));
    }
    let mut k: usize = 0;
    assert(start + method_elems(*tree, cs@.take(0)) =~= start);
    while k < cs.len()
        invariant
            tree.wf(),
            cs@ == named_of(*tree, tree.children(n as int)),
            forall|j: int| 0 <= j < cs@.len() ==> (#[trigger] cs@[j]) < tree.len(),
            k <= cs.len(),
            member_views(out@) == start + method_elems(*tree, cs@.take(k as int)),
        decreases cs.len() - k,
    {
        let c = cs[k];
        assert(cs@.take(k + 1).drop_last() =~= cs@.take(k as int));
        assert(cs@.take(k + 1).last() == c);
        if tree.kind_is(c, "method_elem") && tree.child_by_field_name(c, "name").is_some() {
            let name = field_text(tree, c, "name", "");
            if !name.as_str().is_empty() {
                let m = Member { name, type_annotation: signature_for(tree, c) };
                let ghost before = member_views(out@);
                out.push(m);
                assert(member_views(out@) =~= before.push((m.name@, m.type_annotation@)));
            }
        }
        k = k + 1;
    }
    assert(cs@.take(cs@.len() as int) =~= cs@);
    let ghost mid = member_views(out@);
    let mut j = cs.len();
    assert(cs@.take(j as int) =~= cs@);
    assert(mid + members_under_list(*tree, n as int, seq![]) =~= mid);
    while j > 0
        invariant
            tree.wf(),
            n < tree.len(),
            cs@ == named_of(*tree, tree.children(n as int)),
            forall|q: int| 0 <= q < cs@.len() ==> n < (#[trigger] cs@[q]) < tree.len(),
            j <= cs.len(),
            member_views(out@) + members_under_list(*tree, n as int, cs@.take(j as int)) == mid
                + members_under_list(*tree, n as int, cs@),
        decreases j,
    {
        let c = cs[j - 1];
        let ghost pre = cs@.take(j as int);
        assert(pre.last() == c);
        assert(pre.drop_last() =~= cs@.take(j - 1));
        let ghost before = member_views(out@);
        collect_members_under(tree, c, out);
        assert(members_under_list(*tree, n as int, pre) == members_under(*tree, c as int)
            + members_under_list(*tree, n as int, cs@.take(j - 1)));
        assert(member_views(out@) + members_under_list(*tree, n as int, cs@.take(j - 1)) =~= before
            + members_under_list(*tree, n as int, pre));
        j = j - 1;
    }
    assert(cs@.take(0) =~= Seq::<usize>::empty());
    assert(member_views(out@) == mid + members_under_list(*tree, n as int, cs@));
}

fn go_struct_fields_of(tree: &SyntaxTree, l: usize) -> (r: Vec<Field>)
    requires
        tree.wf(),
    ensures
        field_views(r@) == go_struct_fields(*tree, tree.children(l as int)),
{
    let cs = tree.children_of(l);
    let mut out: Vec<Field> = Vec::new();
    let mut k: usize = 0;
    assert(field_views(out@) =~= seq![]);
    while k < cs.len()
        invariant
            tree.wf(),
            cs@ == tree.children(l as int),
            forall|j: int| 0 <= j < cs@.len() ==> (#[trigger] cs@[j]) < tree.len(),
            k <= cs.len(),
            field_views(out@) == go_struct_fields(*tree, cs@.take(k as int)),
        decreases cs.len() - k,
    {
        let c = cs[k];
        assert(cs@.take(k + 1).drop_last() =~= cs@.take(k as int));
        assert(cs@.take(k + 1).last() == c);
        let ty = field_text(tree, c, "type", "");
        if tree.kind_is(c, "field_declaration") && !ty.as_str().is_empty() {
            let names = child_texts(tree, c, "field_identifier", "field_identifier");
            let ghost base = field_views(out@);
            let ghost ns = views(names@);
            let mut q: usize = 0;
            assert(nonempty_names(ns.take(0)) =~= seq![]);
            assert(base + nonempty_names(ns.take(0)).map_values(|n: Seq<char>| (n, ty@)) =~= base);
            while q < names.len()
                invariant
                    q <= names@.len(),
                    ns == views(names@),
                    field_views(out@) == base + nonempty_names(ns.take(q as int)).map_values(
                        |n: Seq<char>| (n, ty@),
                    ),
                decreases names@.len() - q,
            {
                assert(ns.take(q + 1).drop_last() =~= ns.take(q as int));
                assert(ns.take(q + 1).last() == names@[q as int]@);
                if !names[q].as_str().is_empty() {
                    let f = Field { name: names[q].clone(), type_annotation: ty.clone() };
                    let ghost before = field_views(out@);
                    out.push(f);
                    assert(field_views(out@) =~= before.push((f.name@, f.type_annotation@)));
                    assert(nonempty_names(ns.take(q + 1)) =~= nonempty_names(ns.take(q as int)).push(
                        names@[q as int]@,
                    ));
                    assert(field_views(out@) =~= base + nonempty_names(ns.take(q + 1)).map_values(
                        |n: Seq<char>| (n, ty@),
                    ));
                }
                q = q + 1;
            }
            assert(ns.take(names@.len() as int) =~= ns);
            assert(field_views(out@) =~= base + nonempty_names(ns).map_values(
                |n: Seq<char>| (n, ty@),
            ));
        }
        k = k + 1;
    }
    assert(cs@.take(cs@.len() as int) =~= cs@);
    out
}

fn go_def_of(tree: &SyntaxTree, i: usize) -> (r: Option<(TypeKind, usize)>)
    requires
        tree.wf(),
        i < tree.len(),
    ensures
        r == go_def(*tree, i as int),
        r matches Some((_, ty)) ==> ty < tree.len(),
{
    if !crate::analysis::shape::is_named_node(tree, i, "type_spec", "type_identifier") {
        return None;
    }
    match tree.child_by_field_name(i, "type") {
        Some(ty) => if tree.kind_is(ty, "struct_type") {
            Some((TypeKind::Struct, ty))
        } else if tree.kind_is(ty, "interface_type") {
            Some((TypeKind::Interface, ty))
        } else {
            None
        },
        None => None,
    }
}

/// The type definitions of a parsed Go file (see `go_types`): its struct
/// types with their fields and its interfaces with their methods.
pub fn go_types_of(tree: &SyntaxTree, file: &str) -> (r: Vec<TypeDefinition>)
    requires
        tree.wf(),
    ensures
        type_views(r@) == go_types(*tree, file@),
{
    let mut defs: Vec<TypeDefinition> = Vec::new();
    let mut k: usize = 0;
    assert(type_views(defs@) =~= seq![]);
    while k < tree.nodes.len()
        invariant
            tree.wf(),
            k <= tree.len(),
            type_views(defs@) == go_types_upto(*tree, k as int, file@),
        decreases tree.nodes.len() - k,
    {
        if let Some((kind, ty)) = go_def_of(tree, k) {
            let fields = if kind == TypeKind::Struct {
                let list = match tree.child_by_field_name(ty, "fields") {
                    Some(f) => Some(f),
                    None => first_child_of_kind(tree, ty, "field_declaration_list"),
                };
                match list {
                    Some(l) => {
                        let fs = go_struct_fields_of(tree, l);
                        if fs.len() > 0 {
                            Some(fs)
                        } else {
                            None
                        }
                    },
                    None => None,
                }
            } else {
                None
            };
            let members = if kind == TypeKind::Interface {
                let mut ms: Vec<Member> = Vec::new();
                assert(member_views(ms@) =~= seq![]);
                collect_members_under(tree, ty, &mut ms);
                assert(member_views(ms@) =~= members_under(*tree, ty as int));
                if ms.len() > 0 {
                    Some(ms)
                } else {
                    None
                }
            } else {
                None
            };
            let mut path = String::new();
            push_str(&mut path, file);
            let d = TypeDefinition {
                name: field_text(tree, k, "name", ""),
                kind,
                file: path,
                line: start_line(tree, k),
                signature: signature_for(tree, k),
                usage_count: 0,
                fields,
                variants: None,
                members,
            };
            let ghost before = type_views(defs@);
            defs.push(d);
            assert(type_views(defs@) =~= before.push(
                go_definition(*tree, k as int, kind, ty as int, file@),
            ));
        }
        k = k + 1;
    }
    defs
}

/// Parse a Go file and list its type definitions; `Err` when it cannot be
/// parsed.
pub fn extract_go_types(source: &str, file: &str) -> (r: Result<Vec<TypeDefinition>, ParseError>)
    ensures
        r is Ok <==> crate::parser::parse_nodes(Language::Go, source@) is Some,
        r matches Ok(v) ==> exists|t: SyntaxTree|
            t.wf() && crate::parser::tree_is_parse(t, Language::Go, source@) && type_views(v@) == #[trigger] go_types(
                t,
                file@,
            ),
{
    match parse_code(source, Language::Go) {
        Ok(tree) => Ok(go_types_of(&tree, file)),
        Err(e) => Err(e),
    }
}


// ---------------------------------------------------------------------------
// Java
// ---------------------------------------------------------------------------

/// The kind of definition a Java node declares (named by an `identifier`).
pub open spec fn java_def_kind(t: SyntaxTree, i: int) -> Option<TypeKind> {
    if named_node(t, i, "class_declaration"@, "identifier"@) {
        Some(TypeKind::Class)
    } else if named_node(t, i, "interface_declaration"@, "identifier"@) {
        Some(TypeKind::Interface)
    } else if named_node(t, i, "enum_declaration"@, "identifier"@) {
        Some(TypeKind::Enum)
    } else if named_node(t, i, "record_declaration"@, "identifier"@) {
        Some(TypeKind::Record)
    } else {
        None
    }
}

/// What the body children `cs` of a Java type of kind `kind` gather:
/// fields (one per declarator of a field declaration with a type), members
/// (methods of an interface) and variants (enum constants).
pub open spec fn java_body(t: SyntaxTree, cs: Seq<usize>, kind: TypeKind) -> (
    Seq<FieldView>,
    Seq<MemberView>,
    Seq<VariantView>,
)
    decreases cs.len(),
{
    if cs.len() == 0 {
        (seq![], seq![], seq![])
    } else {
        let r = java_body(t, cs.drop_last(), kind);
        let c = cs.last() as int;
        let k = t.kind(c);
        let named = t.child_by_field(c, "name"@) is Some;
        if k == "field_declaration"@ {
            match t.child_by_field(c, "type"@) {
                Some(ty) => (r.0 + declarator_fields(t, t.children(c), t.text(ty as int)), r.1, r.2),
                None => r,
            }
        } else if k == "method_declaration"@ && kind == TypeKind::Interface && named {
            (r.0, r.1.push((field_text_or(t, c, "name"@, ""@), first_line_trimmed(t.text(c)))), r.2)
        } else if k == "enum_constant"@ && named {
            (r.0, r.1, r.2.push((field_text_or(t, c, "name"@, ""@), None)))
        } else {
            r
        }
    }
}

/// The definition declared by Java node `i` of kind `kind`.
pub open spec fn java_definition(t: SyntaxTree, i: int, kind: TypeKind, file: Seq<char>) -> TypeView {
    let body = match t.child_by_field(i, "body"@) {
        Some(b) => {
            let g = java_body(t, t.children(b as int), kind);
            (nonempty(g.0), nonempty(g.2), nonempty(g.1))
        },
        None => (None, None, None),
    };
    (
        field_text_or(t, i, "name"@, ""@),
        kind,
        file,
        node_line(t, i),
        first_line_trimmed(t.text(i)),
        0,
        body.0,
        body.1,
        body.2,
    )
}

/// The type definitions among the first `k` nodes of a Java file.
pub open spec fn java_types_upto(t: SyntaxTree, k: int, file: Seq<char>) -> Seq<TypeView>
    decreases k,
{
    if k <= 0 {
        seq![]
    } else {
        let r = java_types_upto(t, k - 1, file);
        match java_def_kind(t, k - 1) {
            Some(kind) => r.push(java_definition(t, k - 1, kind, file)),
            None => r,
        }
    }
}

/// The type definitions of a Java file.
pub open spec fn java_types(t: SyntaxTree, file: Seq<char>) -> Seq<TypeView> {
    java_types_upto(t, t.len(), file)
}

fn java_def_kind_of(tree: &SyntaxTree, i: usize) -> (r: Option<TypeKind>)
    requires
        tree.wf(),
        i < tree.len(),
    ensures
        r == java_def_kind(*tree, i as int),
{
    if is_named_node(tree, i, "class_declaration", "identifier") {
        Some(TypeKind::Class)
    } else if is_named_node(tree, i, "interface_declaration", "identifier") {
        Some(TypeKind::Interface)
    } else if is_named_node(tree, i, "enum_declaration", "identifier") {
        Some(TypeKind::Enum)
    } else if is_named_node(tree, i, "record_declaration", "identifier") {
        Some(TypeKind::Record)
    } else {
        None
    }
}

fn push_child_declarators(tree: &SyntaxTree, c: usize, ty: &String, out: &mut Vec<Field>)
    requires
        tree.wf(),
    ensures
        field_views(final(out)@) == field_views(old(out)@) + declarator_fields(
            *tree,
            tree.children(c as int),
            ty@,
        ),
{
    let ghost start = field_views(out@);
    let cs = tree.children_of(c);
    let mut k: usize = 0;
    assert(start + declarator_fields(*tree, cs@.take(0), ty@) =~= start);
    while k < cs.len()
        invariant
            tree.wf(),
            cs@ == tree.children(c as int),
            forall|j: int| 0 <= j < cs@.len() ==> (#[trigger] cs@[j]) < tree.len(),
            k <= cs.len(),
            field_views(out@) == start + declarator_fields(*tree, cs@.take(k as int), ty@),
        decreases cs.len() - k,
    {
        let d = cs[k];
        assert(cs@.take(k + 1).drop_last() =~= cs@.take(k as int));
        assert(cs@.take(k + 1).last() == d);
        if let Some(n) = tree.child_by_field_name(d, "name") {
            if tree.kind_is(d, "variable_declarator") {
                let f = Field { name: tree.node_text(n), type_annotation: ty.clone() };
                let ghost before = field_views(out@);
                out.push(f);
                assert(field_views(out@) =~= before.push((f.name@, f.type_annotation@)));
            }
        }
        k = k + 1;
    }
    assert(cs@.take(cs@.len() as int) =~= cs@);
}

fn java_definition_of(tree: &SyntaxTree, i: usize, kind: TypeKind, file: &str) -> (r: TypeDefinition)
    requires
        tree.wf(),
        i < tree.len(),
    ensures
        type_view(r) == java_definition(*tree, i as int, kind, file@),
{
    let mut fields: Option<Vec<Field>> = None;
    let mut variants: Option<Vec<Variant>> = None;
    let mut members: Option<Vec<Member>> = None;
    if let Some(b) = tree.child_by_field_name(i, "body") {
        let cs = tree.children_of(b);
        let mut f: Vec<Field> = Vec::new();
        let mut m: Vec<Member> = Vec::new();
        let mut v: Vec<Variant> = Vec::new();
        let mut k: usize = 0;
        assert(field_views(f@) =~= seq![]);
        assert(member_views(m@) =~= seq![]);
        assert(variant_views(v@) =~= seq![]);
        while k < cs.len()
            invariant
                tree.wf(),
                cs@ == tree.children(b as int),
                forall|j: int| 0 <= j < cs@.len() ==> (#[trigger] cs@[j]) < tree.len(),
                k <= cs.len(),
                java_body(*tree, cs@.take(k as int), kind) == (
                    field_views(f@),
                    member_views(m@),
                    variant_views(v@),
                ),
            decreases cs.len() - k,
        {
            let c = cs[k];
            assert(cs@.take(k + 1).drop_last() =~= cs@.take(k as int));
            assert(cs@.take(k + 1).last() == c);
            let named = tree.child_by_field_name(c, "name").is_some();
            if tree.kind_is(c, "field_declaration") {
                if let Some(ty) = tree.child_by_field_name(c, "type") {
                    let ty_text = tree.node_text(ty);
                    push_child_declarators(tree, c, &ty_text, &mut f);
                }
            } else if tree.kind_is(c, "method_declaration") && kind == TypeKind::Interface && named {
                let x = Member {
                    name: field_text(tree, c, "name", ""),
                    type_annotation: signature_for(tree, c),
                };
                let ghost before = member_views(m@);
                m.push(x);
                assert(member_views(m@) =~= before.push((x.name@, x.type_annotation@)));
            } else if tree.kind_is(c, "enum_constant") && named {
                let x = Variant { name: field_text(tree, c, "name", ""), type_annotation: None };
                let ghost before = variant_views(v@);
                v.push(x);
                assert(variant_views(v@) =~= before.push((x.name@, None)));
            }
            k = k + 1;
        }
        assert(cs@.take(cs@.len() as int) =~= cs@);
        if f.len() > 0 {
            fields = Some(f);
        }
        if m.len() > 0 {
            members = Some(m);
        }
        if v.len() > 0 {
            variants = Some(v);
        }
    }
    let mut path = String::new();
    push_str(&mut path, file);
    TypeDefinition {
        name: field_text(tree, i, "name", ""),
        kind,
        file: path,
        line: start_line(tree, i),
        signature: signature_for(tree, i),
        usage_count: 0,
        fields,
        variants,
        members,
    }
}

/// The type definitions of a parsed Java file (see `java_types`).
pub fn java_types_of(tree: &SyntaxTree, file: &str) -> (r: Vec<TypeDefinition>)
    requires
        tree.wf(),
    ensures
        type_views(r@) == java_types(*tree, file@),
{
    let mut defs: Vec<TypeDefinition> = Vec::new();
    let mut k: usize = 0;
    assert(type_views(defs@) =~= seq![]);
    while k < tree.nodes.len()
        invariant
            tree.wf(),
            k <= tree.len(),
            type_views(defs@) == java_types_upto(*tree, k as int, file@),
        decreases tree.nodes.len() - k,
    {
        if let Some(kind) = java_def_kind_of(tree, k) {
            let d = java_definition_of(tree, k, kind, file);
            let ghost before = type_views(defs@);
            defs.push(d);
            assert(type_views(defs@) =~= before.push(type_view(d)));
        }
        k = k + 1;
    }
    defs
}

/// Parse a Java file and list its type definitions; `Err` when it cannot
/// be parsed.
pub fn extract_java_types(source: &str, file: &str) -> (r: Result<Vec<TypeDefinition>, ParseError>)
    ensures
        r is Ok <==> crate::parser::parse_nodes(Language::Java, source@) is Some,
        r matches Ok(v) ==> exists|t: SyntaxTree|
            t.wf() && crate::parser::tree_is_parse(t, Language::Java, source@) && type_views(v@) == #[trigger] java_types(
                t,
                file@,
            ),
{
    match parse_code(source, Language::Java) {
        Ok(tree) => Ok(java_types_of(&tree, file)),
        Err(e) => Err(e),
    }
}
} // verus!
