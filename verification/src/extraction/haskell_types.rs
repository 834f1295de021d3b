//! Type definitions of a Haskell file: data types (sum types as enums, a
//! single record constructor as a struct), newtypes, type synonyms and
//! classes with their method signatures.
use vstd::prelude::*;
use crate::analysis::haskell_shape::{hs_declaration, signature_text};
use crate::analysis::shape::{field_text, field_text_or, node_line, start_line};
use crate::extraction::rust_types::nonempty;
use crate::extraction::types::{
    Field, FieldView, Member, MemberView, TypeDefinition, TypeKind, TypeView, Variant,
    VariantView, field_views, first_line_trimmed, member_views, signature_for, type_view,
    type_views, variant_views,
};
use crate::parser::{Language, ParseError, parse_code};
use crate::syntax::SyntaxTree;
use crate::text::{chars_of, first_token, first_token_of, push_str, string_of, trim, trim_chars};

verus! {

// ---------------------------------------------------------------------------
// Constructors and record fields
// ---------------------------------------------------------------------------

pub open spec fn constructor_kind(k: Seq<char>) -> bool {
    k == "data_constructor"@ || k == "newtype_constructor"@
}

/// The constructor nodes under `n`, depth first, not looking inside a
/// constructor.
pub open spec fn constructor_nodes(t: SyntaxTree, n: int) -> Seq<usize>
    decreases t.len() - n, 1int, 0int,
{
    constructor_list(t, n, t.children(n))
}

/// The constructor nodes of the children `cs` of `n` and under them, in
/// order.
pub open spec fn constructor_list(t: SyntaxTree, n: int, cs: Seq<usize>) -> Seq<usize>
    decreases t.len() - n, 0int, cs.len(),
{
    if cs.len() == 0 || n < 0 || n >= t.len() {
        seq![]
    } else {
        let r = constructor_list(t, n, cs.drop_last());
        let c = cs.last();
        if constructor_kind(t.kind(c as int)) {
            r.push(c)
        } else if n < c < t.len() {
            r + constructor_nodes(t, c as int)
        } else {
            r
        }
    }
}

/// The field nodes of a record: those under its `fields` child, then its
/// own.
pub open spec fn record_field_nodes(t: SyntaxTree, r: int) -> Seq<usize> {
    let inner = match t.child_by_field(r, "fields"@) {
        Some(f) => kids_of_kind(t, t.children(f as int), "field"@),
        None => seq![],
    };
    inner + kids_of_kind(t, t.children(r), "field"@)
}

/// The nodes of `cs` of kind `kind`.
pub open spec fn kids_of_kind(t: SyntaxTree, cs: Seq<usize>, kind: Seq<char>) -> Seq<usize>
    decreases cs.len(),
{
    if cs.len() == 0 {
        seq![]
    } else {
        let r = kids_of_kind(t, cs.drop_last(), kind);
        if t.kind(cs.last() as int) == kind {
            r.push(cs.last())
        } else {
            r
        }
    }
}

/// The trimmed texts of the nodes `ns`.
pub open spec fn trimmed_texts(t: SyntaxTree, ns: Seq<usize>) -> Seq<Seq<char>> {
    ns.map_values(|n: usize| trim(t.text(n as int)))
}

/// The fields a `field` node binds: each field name (or its `name` child)
/// with its trimmed type.
pub open spec fn field_bindings(t: SyntaxTree, f: int) -> Seq<FieldView> {
    let ty = match t.child_by_field(f, "type"@) {
        Some(n) => trim(t.text(n as int)),
        None => seq![],
    };
    let names = kids_of_kind(t, t.children(f), "field_name"@);
    if names.len() == 0 {
        match t.child_by_field(f, "name"@) {
            Some(n) => seq![(trim(t.text(n as int)), ty)],
            None => seq![],
        }
    } else {
        trimmed_texts(t, names).map_values(|n: Seq<char>| (n, ty))
    }
}

/// The fields bound by the field nodes `fs`.
pub open spec fn bindings_of(t: SyntaxTree, fs: Seq<usize>) -> Seq<FieldView>
    decreases fs.len(),
{
    if fs.len() == 0 {
        seq![]
    } else {
        bindings_of(t, fs.drop_last()) + field_bindings(t, fs.last() as int)
    }
}

/// The record fields of a `record` node; none when it binds none.
pub open spec fn record_fields(t: SyntaxTree, r: int) -> Option<Seq<FieldView>> {
    nonempty(bindings_of(t, record_field_nodes(t, r)))
}

/// The name and record fields of the inner shape of a data constructor: a
/// prefix constructor's name; a record's name and fields; else the first
/// token of its text.
pub open spec fn constructor_shape(t: SyntaxTree, inner: int) -> Option<(Seq<char>, Option<Seq<FieldView>>)> {
    let k = t.kind(inner);
    if k == "prefix"@ {
        match t.child_by_field(inner, "name"@) {
            Some(n) => Some((t.text(n as int), None)),
            None => None,
        }
    } else if k == "record"@ {
        let name = field_text_or(t, inner, "name"@, ""@);
        if name.len() == 0 {
            None
        } else {
            Some((name, record_fields(t, inner)))
        }
    } else {
        match first_token(t.text(inner)) {
            Some(tok) => Some((tok, None)),
            None => None,
        }
    }
}

/// The constructors among the nodes `cs`, with their record fields.
pub open spec fn constructors_of(t: SyntaxTree, cs: Seq<usize>) -> Seq<(Seq<char>, Option<Seq<FieldView>>)>
    decreases cs.len(),
{
    if cs.len() == 0 {
        seq![]
    } else {
        let r = constructors_of(t, cs.drop_last());
        let c = cs.last() as int;
        if t.kind(c) == "data_constructor"@ {
            match t.child_by_field(c, "constructor"@) {
                Some(inner) => match constructor_shape(t, inner as int) {
                    Some(p) => r.push(p),
                    None => r,
                },
                None => r,
            }
        } else if t.kind(c) == "newtype_constructor"@ {
            let name = field_text_or(t, c, "name"@, ""@);
            if name.len() == 0 {
                r
            } else {
                let fields = match t.child_by_field(c, "field"@) {
                    Some(f) => if t.kind(f as int) == "record"@ {
                        record_fields(t, f as int)
                    } else {
                        None
                    },
                    None => None,
                };
                r.push((name, fields))
            }
        } else {
            r
        }
    }
}

/// The constructors of a `data_type` or `newtype` node.
pub open spec fn constructors(t: SyntaxTree, i: int) -> Seq<(Seq<char>, Option<Seq<FieldView>>)> {
    constructors_of(t, constructor_nodes(t, i))
}

/// The members of a class: for each signature of its declarations, each
/// variable it declares (or its `name`) with the signature's text.
pub open spec fn class_members(t: SyntaxTree, cs: Seq<usize>) -> Seq<MemberView>
    decreases cs.len(),
{
    if cs.len() == 0 {
        seq![]
    } else {
        let r = class_members(t, cs.drop_last());
        let d = cs.last() as int;
        if t.kind(d) != "signature"@ {
            r
        } else {
            let sig = signature_text(t, d);
            let vars = kids_of_kind(t, t.children(d), "variable"@);
            let names = if vars.len() == 0 {
                match t.child_by_field(d, "name"@) {
                    Some(n) => seq![t.text(n as int)],
                    None => seq![],
                }
            } else {
                vars.map_values(|v: usize| t.text(v as int))
            };
            r + names.map_values(|n: Seq<char>| (n, sig))
        }
    }
}

/// The methods of a class node; none without declarations or methods.
pub open spec fn class_methods_of(t: SyntaxTree, i: int) -> Option<Seq<MemberView>> {
    match t.child_by_field(i, "declarations"@) {
        Some(d) => nonempty(class_members(t, t.children(d as int))),
        None => None,
    }
}

// ---------------------------------------------------------------------------
// Definitions
// ---------------------------------------------------------------------------

/// The kind of definition a top-level Haskell declaration is named for.
pub open spec fn hs_def_kind(t: SyntaxTree, i: int) -> Option<TypeKind> {
    if hs_declaration(t, i, "data_type"@, "name"@) {
        Some(TypeKind::Enum)
    } else if hs_declaration(t, i, "newtype"@, "name"@) {
        Some(TypeKind::Struct)
    } else if hs_declaration(t, i, "type_synomym"@, "name"@) {
        Some(TypeKind::TypeAlias)
    } else if hs_declaration(t, i, "class"@, "name"@) {
        Some(TypeKind::Trait)
    } else {
        None
    }
}

/// The definition of a Haskell declaration of kind `kind`: a `data` with a
/// single record constructor is a struct with its fields, another `data`
/// an enum with its constructors as variants; a `newtype` a struct with the
/// fields of its record; a class a trait with its methods.
pub open spec fn hs_definition(t: SyntaxTree, i: int, kind: TypeKind, file: Seq<char>) -> TypeView {
    let cs = constructors(t, i);
    let single_record = kind == TypeKind::Enum && cs.len() == 1 && cs[0].1 is Some;
    (
        field_text_or(t, i, "name"@, ""@),
        if single_record {
            TypeKind::Struct
        } else {
            kind
        },
        file,
        node_line(t, i),
        first_line_trimmed(t.text(i)),
        0,
        if single_record {
            cs[0].1
        } else if kind == TypeKind::Struct && cs.len() > 0 {
            cs[0].1
        } else {
            None
        },
        if kind == TypeKind::Enum && !single_record && cs.len() > 0 {
            Some(cs.map_values(|p: (Seq<char>, Option<Seq<FieldView>>)| (p.0, None::<Seq<char>>)))
        } else {
            None
        },
        if kind == TypeKind::Trait {
            class_methods_of(t, i)
        } else {
            None
        },
    )
}

/// The type definitions among the first `k` nodes of a Haskell file.
pub open spec fn hs_types_upto(t: SyntaxTree, k: int, file: Seq<char>) -> Seq<TypeView>
    decreases k,
{
    if k <= 0 {
        seq![]
    } else {
        let r = hs_types_upto(t, k - 1, file);
        match hs_def_kind(t, k - 1) {
            Some(kind) => r.push(hs_definition(t, k - 1, kind, file)),
            None => r,
        }
    }
}

/// The type definitions of a Haskell file.
pub open spec fn haskell_types(t: SyntaxTree, file: Seq<char>) -> Seq<TypeView> {
    hs_types_upto(t, t.len(), file)
}

// ---------------------------------------------------------------------------
// Execution
// ---------------------------------------------------------------------------

proof fn lemma_children_after(t: SyntaxTree, n: int)
    requires
        t.wf(),
        0 <= n < t.len(),
    ensures
        forall|j: int|
            0 <= j < t.children(n).len() ==> n < #[trigger] t.children(n)[j] < t.len(),
{
    t.lemma_children(n, t.len());
    assert forall|j: int| 0 <= j < t.children(n).len() implies n < #[trigger] t.children(n)[j]
        < t.len() by {
        let c = t.children(n)[j];
        assert(t.is_child(n, c as int));
        if c == 0 {
            assert(t.nodes@[0].parent is None);
        }
    }
}

fn collect_constructor_nodes(tree: &SyntaxTree, n: usize, out: &mut Vec<usize>)
    requires
        tree.wf(),
        n < tree.len(),
        forall|j: int| 0 <= j < old(out)@.len() ==> (#[trigger] old(out)@[j]) < tree.len(),
    ensures
        final(out)@ == old(out)@ + constructor_nodes(*tree, n as int),
        forall|j: int| 0 <= j < final(out)@.len() ==> (#[trigger] final(out)@[j]) < tree.len(),
    decreases tree.len() - n,
{
    let ghost start = out@;
    let cs = tree.children_of(n);
    proof {
        lemma_children_after(*tree, n as int);
    }
    let mut k: usize = 0;
    assert(start + constructor_list(*tree, n as int, cs@.take(0)) =~= start);
    while k < cs.len()
        invariant
            tree.wf(),
            n < tree.len(),
            cs@ == tree.children(n as int),
            forall|j: int| 0 <= j < cs@.len() ==> n < (#[trigger] cs@[j]) < tree.len(),
            k <= cs.len(),
            out@ == start + constructor_list(*tree, n as int, cs@.take(k as int)),
            forall|j: int| 0 <= j < out@.len() ==> (#[trigger] out@[j]) < tree.len(),
        decreases cs.len() - k,
    {
        let c = cs[k];
        assert(cs@.take(k + 1).drop_last() =~= cs@.take(k as int));
        assert(cs@.take(k + 1).last() == c);
        let ghost before = out@;
        if tree.kind_is(c, "data_constructor") || tree.kind_is(c, "newtype_constructor") {
            out.push(c);
            assert(out@ =~= start + constructor_list(*tree, n as int, cs@.take(k + 1)));
        } else {
            collect_constructor_nodes(tree, c, out);
            assert(out@ =~= start + constructor_list(*tree, n as int, cs@.take(k + 1)));
        }
        k = k + 1;
    }
    assert(cs@.take(cs@.len() as int) =~= cs@);
}

fn kids_of(tree: &SyntaxTree, p: usize, kind: &str) -> (r: Vec<usize>)
    requires
        tree.wf(),
    ensures
        r@ == kids_of_kind(*tree, tree.children(p as int), kind@),
        forall|j: int| 0 <= j < r@.len() ==> (#[trigger] r@[j]) < tree.len(),
{
    let cs = tree.children_of(p);
    let mut out: Vec<usize> = Vec::new();
    let mut k: usize = 0;
    while k < cs.len()
        invariant
            tree.wf(),
            cs@ == tree.children(p as int),
            forall|j: int| 0 <= j < cs@.len() ==> (#[trigger] cs@[j]) < tree.len(),
            k <= cs.len(),
            out@ == kids_of_kind(*tree, cs@.take(k as int), kind@),
            forall|j: int| 0 <= j < out@.len() ==> (#[trigger] out@[j]) < tree.len(),
        decreases cs.len() - k,
    {
        let c = cs[k];
        assert(cs@.take(k + 1).drop_last() =~= cs@.take(k as int));
        assert(cs@.take(k + 1).last() == c);
        if tree.kind_is(c, kind) {
            out.push(c);
        }
        k = k + 1;
    }
    assert(cs@.take(cs@.len() as int) =~= cs@);
    out
}

fn trimmed_text(tree: &SyntaxTree, n: usize) -> (r: String)
    requires
        tree.wf(),
        n < tree.len(),
    ensures
        r@ == trim(tree.text(n as int)),
{
    string_of(trim_chars(chars_of(tree.node_text(n).as_str()).as_slice()).as_slice())
}

fn push_field_bindings(tree: &SyntaxTree, f: usize, out: &mut Vec<Field>)
    requires
        tree.wf(),
        f < tree.len(),
    ensures
        field_views(final(out)@) == field_views(old(out)@) + field_bindings(*tree, f as int),
{
    let ghost start = field_views(out@);
    let ty = match tree.child_by_field_name(f, "type") {
        Some(n) => trimmed_text(tree, n),
        None => String::new(),
    };
    let names = kids_of(tree, f, "field_name");
    if names.len() == 0 {
        if let Some(n) = tree.child_by_field_name(f, "name") {
            let x = Field { name: trimmed_text(tree, n), type_annotation: ty };
            out.push(x);
            assert(field_views(out@) =~= start + seq![(x.name@, x.type_annotation@)]);
        } else {
            assert(field_views(out@) =~= start + seq![]);
        }
        return;
    }
    let ghost tt = trimmed_texts(*tree, names@);
    let mut q: usize = 0;
    assert(start + tt.take(0).map_values(|n: Seq<char>| (n, ty@)) =~= start);
    while q < names.len()
        invariant
            tree.wf(),
            forall|j: int| 0 <= j < names@.len() ==> (#[trigger] names@[j]) < tree.len(),
            q <= names@.len(),
            tt == trimmed_texts(*tree, names@),
            field_views(out@) == start + tt.take(q as int).map_values(|n: Seq<char>| (n, ty@)),
        decreases names@.len() - q,
    {
        let x = Field { name: trimmed_text(tree, names[q]), type_annotation: ty.clone() };
        let ghost before = field_views(out@);
        out.push(x);
        assert(field_views(out@) =~= before.push((x.name@, x.type_annotation@)));
        assert(tt.take(q + 1) =~= tt.take(q as int).push(tt[q as int]));
        assert(field_views(out@) =~= start + tt.take(q + 1).map_values(|n: Seq<char>| (n, ty@)));
        q = q + 1;
    }
    assert(tt.take(names@.len() as int) =~= tt);
}

fn haskell_record_fields(tree: &SyntaxTree, r: usize) -> (res: Option<Vec<Field>>)
    requires
        tree.wf(),
        r < tree.len(),
    ensures
        crate::extraction::types::opt_fields(res) == record_fields(*tree, r as int),
{
    let mut nodes: Vec<usize> = match tree.child_by_field_name(r, "fields") {
        Some(f) => kids_of(tree, f, "field"),
        None => Vec::new(),
    };
    let own = kids_of(tree, r, "field");
    let mut q: usize = 0;
    let ghost inner = nodes@;
    while q < own.len()
        invariant
            q <= own@.len(),
            nodes@ == inner + own@.take(q as int),
        decreases own@.len() - q,
    {
        nodes.push(own[q]);
        assert(own@.take(q + 1) =~= own@.take(q as int).push(own@[q as int]));
        q = q + 1;
    }
    assert(own@.take(own@.len() as int) =~= own@);
    assert(nodes@ =~= record_field_nodes(*tree, r as int));
    let mut out: Vec<Field> = Vec::new();
    let mut k: usize = 0;
    assert(field_views(out@) =~= seq![]);
    while k < nodes.len()
        invariant
            tree.wf(),
            nodes@ == record_field_nodes(*tree, r as int),
            forall|j: int| 0 <= j < nodes@.len() ==> (#[trigger] nodes@[j]) < tree.len(),
            k <= nodes@.len(),
            field_views(out@) == bindings_of(*tree, nodes@.take(k as int)),
        decreases nodes@.len() - k,
    {
        assert(nodes@.take(k + 1).drop_last() =~= nodes@.take(k as int));
        assert(nodes@.take(k + 1).last() == nodes@[k as int]);
        push_field_bindings(tree, nodes[k], &mut out);
        k = k + 1;
    }
    assert(nodes@.take(nodes@.len() as int) =~= nodes@);
    if out.len() > 0 {
        Some(out)
    } else {
        None
    }
}

/// The constructors of a `data_type` or `newtype` node, as exec values.
struct Ctor {
    name: String,
    fields: Option<Vec<Field>>,
}

spec fn ctor_view(c: Ctor) -> (Seq<char>, Option<Seq<FieldView>>) {
    (c.name@, crate::extraction::types::opt_fields(c.fields))
}

spec fn ctor_views(v: Seq<Ctor>) -> Seq<(Seq<char>, Option<Seq<FieldView>>)> {
    v.map_values(|c: Ctor| ctor_view(c))
}

fn constructor_shape_of(tree: &SyntaxTree, inner: usize) -> (r: Option<Ctor>)
    requires
        tree.wf(),
        inner < tree.len(),
    ensures
        match r {
            Some(c) => constructor_shape(*tree, inner as int) == Some(ctor_view(c)),
            None => constructor_shape(*tree, inner as int) is None,
        },
{
    if tree.kind_is(inner, "prefix") {
        match tree.child_by_field_name(inner, "name") {
            Some(n) => Some(Ctor { name: tree.node_text(n), fields: None }),
            None => None,
        }
    } else if tree.kind_is(inner, "record") {
        let name = field_text(tree, inner, "name", "");
        if name.as_str().is_empty() {
            None
        } else {
            Some(Ctor { name, fields: haskell_record_fields(tree, inner) })
        }
    } else {
        let text = chars_of(tree.node_text(inner).as_str());
        match first_token_of(text.as_slice()) {
            Some(tok) => Some(Ctor { name: string_of(tok.as_slice()), fields: None }),
            None => None,
        }
    }
}

fn haskell_constructors(tree: &SyntaxTree, i: usize) -> (r: Vec<Ctor>)
    requires
        tree.wf(),
        i < tree.len(),
    ensures
        ctor_views(r@) == constructors(*tree, i as int),
{
    let mut nodes: Vec<usize> = Vec::new();
    collect_constructor_nodes(tree, i, &mut nodes);
    assert(nodes@ =~= constructor_nodes(*tree, i as int));
    let mut out: Vec<Ctor> = Vec::new();
    let mut k: usize = 0;
    assert(ctor_views(out@) =~= seq![]);
    while k < nodes.len()
        invariant
            tree.wf(),
            nodes@ == constructor_nodes(*tree, i as int),
            forall|j: int| 0 <= j < nodes@.len() ==> (#[trigger] nodes@[j]) < tree.len(),
            k <= nodes@.len(),
            ctor_views(out@) == constructors_of(*tree, nodes@.take(k as int)),
        decreases nodes@.len() - k,
    {
        let c = nodes[k];
        assert(nodes@.take(k + 1).drop_last() =~= nodes@.take(k as int));
        assert(nodes@.take(k + 1).last() == c);
        let ghost before = ctor_views(out@);
        if tree.kind_is(c, "data_constructor") {
            if let Some(inner) = tree.child_by_field_name(c, "constructor") {
                if let Some(p) = constructor_shape_of(tree, inner) {
                    out.push(p);
                    assert(ctor_views(out@) =~= before.push(ctor_view(p)));
                }
            }
        } else if tree.kind_is(c, "newtype_constructor") {
            let name = field_text(tree, c, "name", "");
            if !name.as_str().is_empty() {
                let fields = match tree.child_by_field_name(c, "field") {
                    Some(f) => if tree.kind_is(f, "record") {
                        haskell_record_fields(tree, f)
                    } else {
                        None
                    },
                    None => None,
                };
                let p = Ctor { name, fields };
                out.push(p);
                assert(ctor_views(out@) =~= before.push(ctor_view(p)));
            }
        }
        k = k + 1;
    }
    assert(nodes@.take(nodes@.len() as int) =~= nodes@);
    out
}

fn haskell_class_methods(tree: &SyntaxTree, i: usize) -> (r: Option<Vec<Member>>)
    requires
        tree.wf(),
    ensures
        crate::extraction::types::opt_members(r) == class_methods_of(*tree, i as int),
{
    let d = match tree.child_by_field_name(i, "declarations") {
        Some(d) => d,
        None => return None,
    };
    let cs = tree.children_of(d);
    let mut out: Vec<Member> = Vec::new();
    let mut k: usize = 0;
    assert(member_views(out@) =~= seq![]);
    while k < cs.len()
        invariant
            tree.wf(),
            cs@ == tree.children(d as int),
            forall|j: int| 0 <= j < cs@.len() ==> (#[trigger] cs@[j]) < tree.len(),
            k <= cs.len(),
            member_views(out@) == class_members(*tree, cs@.take(k as int)),
        decreases cs.len() - k,
    {
        let s = cs[k];
        assert(cs@.take(k + 1).drop_last() =~= cs@.take(k as int));
        assert(cs@.take(k + 1).last() == s);
        if tree.kind_is(s, "signature") {
            let sig = crate::analysis::haskell_shape::signature_text_of(tree, s);
            let vars = kids_of(tree, s, "variable");
            let mut names: Vec<String> = Vec::new();
            if vars.len() == 0 {
                if let Some(n) = tree.child_by_field_name(s, "name") {
                    names.push(tree.node_text(n));
                }
            } else {
                let mut q: usize = 0;
                while q < vars.len()
                    invariant
                        tree.wf(),
                        forall|j: int| 0 <= j < vars@.len() ==> (#[trigger] vars@[j]) < tree.len(),
                        q <= vars@.len(),
                        crate::text::views(names@) == vars@.take(q as int).map_values(
                            |v: usize| tree.text(v as int),
                        ),
                    decreases vars@.len() - q,
                {
                    let x = tree.node_text(vars[q]);
                    let ghost before = crate::text::views(names@);
                    names.push(x);
                    assert(crate::text::views(names@) =~= before.push(x@));
                    assert(vars@.take(q + 1).map_values(|v: usize| tree.text(v as int))
                        =~= vars@.take(q as int).map_values(|v: usize| tree.text(v as int)).push(
                        tree.text(vars@[q as int] as int),
                    ));
                    q = q + 1;
                }
                assert(vars@.take(vars@.len() as int) =~= vars@);
            }
            let ghost ns = crate::text::views(names@);
            let ghost base = member_views(out@);
            let mut q: usize = 0;
            assert(base + ns.take(0).map_values(|n: Seq<char>| (n, sig@)) =~= base);
            while q < names.len()
                invariant
                    q <= names@.len(),
                    ns == crate::text::views(names@),
                    member_views(out@) == base + ns.take(q as int).map_values(
                        |n: Seq<char>| (n, sig@),
                    ),
                decreases names@.len() - q,
            {
                let m = Member { name: names[q].clone(), type_annotation: sig.clone() };
                let ghost before = member_views(out@);
                out.push(m);
                assert(member_views(out@) =~= before.push((m.name@, m.type_annotation@)));
                assert(ns.take(q + 1) =~= ns.take(q as int).push(ns[q as int]));
                assert(member_views(out@) =~= base + ns.take(q + 1).map_values(
                    |n: Seq<char>| (n, sig@),
                ));
                q = q + 1;
            }
            assert(ns.take(names@.len() as int) =~= ns);
        }
        k = k + 1;
    }
    assert(cs@.take(cs@.len() as int) =~= cs@);
    if out.len() > 0 {
        Some(out)
    } else {
        None
    }
}

fn hs_def_kind_of(tree: &SyntaxTree, i: usize) -> (r: Option<TypeKind>)
    requires
        tree.wf(),
        i < tree.len(),
    ensures
        r == hs_def_kind(*tree, i as int),
{
    let in_decls = match tree.nodes[i].parent {
        Some(p) => tree.kind_is(p, "declarations"),
        None => false,
    };
    if !in_decls {
        return None;
    }
    let is = |kind: &str| -> (b: bool)
        ensures
            b == crate::analysis::shape::named_node(*tree, i as int, kind@, "name"@),
        { crate::analysis::shape::is_named_node(tree, i, kind, "name") };
    if is("data_type") {
        Some(TypeKind::Enum)
    } else if is("newtype") {
        Some(TypeKind::Struct)
    } else if is("type_synomym") {
        Some(TypeKind::TypeAlias)
    } else if is("class") {
        Some(TypeKind::Trait)
    } else {
        None
    }
}

fn hs_definition_of(tree: &SyntaxTree, i: usize, kind: TypeKind, file: &str) -> (r: TypeDefinition)
    requires
        tree.wf(),
        i < tree.len(),
    ensures
        type_view(r) == hs_definition(*tree, i as int, kind, file@),
{
    let ctors = haskell_constructors(tree, i);
    let ghost cs = constructors(*tree, i as int);
    let single_record = kind == TypeKind::Enum && ctors.len() == 1 && ctors[0].fields.is_some();
    let mut fields: Option<Vec<Field>> = None;
    let mut variants: Option<Vec<Variant>> = None;
    let members = if kind == TypeKind::Trait {
        haskell_class_methods(tree, i)
    } else {
        None
    };
    let mut ctors = ctors;
    if single_record || (kind == TypeKind::Struct && ctors.len() > 0) {
        let first = ctors.remove(0);
        assert(ctor_view(first) == cs[0]);
        fields = first.fields;
    } else if kind == TypeKind::Enum && ctors.len() > 0 {
        let mut v: Vec<Variant> = Vec::new();
        let mut q: usize = 0;
        while q < ctors.len()
            invariant
                q <= ctors@.len(),
                ctor_views(ctors@) == cs,
                variant_views(v@) == cs.take(q as int).map_values(
                    |p: (Seq<char>, Option<Seq<FieldView>>)| (p.0, None::<Seq<char>>),
                ),
            decreases ctors@.len() - q,
        {
            let x = Variant { name: ctors[q].name.clone(), type_annotation: None };
            let ghost before = variant_views(v@);
            v.push(x);
            assert(variant_views(v@) =~= before.push((x.name@, None)));
            assert(cs[q as int] == ctor_view(ctors@[q as int]));
            assert(cs.take(q + 1) =~= cs.take(q as int).push(cs[q as int]));
            assert(variant_views(v@) =~= cs.take(q + 1).map_values(
                |p: (Seq<char>, Option<Seq<FieldView>>)| (p.0, None::<Seq<char>>),
            ));
            q = q + 1;
        }
        assert(cs.take(ctors@.len() as int) =~= cs);
        variants = Some(v);
    }
    let mut path = String::new();
    push_str(&mut path, file);
    TypeDefinition {
        name: field_text(tree, i, "name", ""),
        kind: if single_record {
            TypeKind::Struct
        } else {
            kind
        },
        file: path,
        line: start_line(tree, i),
        signature: signature_for(tree, i),
        usage_count: 0,
        fields,
        variants,
        members,
    }
}

/// The type definitions of a parsed Haskell file (see `haskell_types`).
pub fn haskell_types_of(tree: &SyntaxTree, file: &str) -> (r: Vec<TypeDefinition>)
    requires
        tree.wf(),
    ensures
        type_views(r@) == haskell_types(*tree, file@),
{
    let mut defs: Vec<TypeDefinition> = Vec::new();
    let mut k: usize = 0;
    assert(type_views(defs@) =~= seq![]);
    while k < tree.nodes.len()
        invariant
            tree.wf(),
            k <= tree.len(),
            type_views(defs@) == hs_types_upto(*tree, k as int, file@),
        decreases tree.nodes.len() - k,
    {
        if let Some(kind) = hs_def_kind_of(tree, k) {
            let d = hs_definition_of(tree, k, kind, file);
            let ghost before = type_views(defs@);
            defs.push(d);
            assert(type_views(defs@) =~= before.push(type_view(d)));
        }
        k = k + 1;
    }
    defs
}

/// Parse a Haskell file and list its type definitions; `Err` when it
/// cannot be parsed.
pub fn extract_haskell_types(source: &str, file: &str) -> (r: Result<Vec<TypeDefinition>, ParseError>)
    ensures
        r is Ok <==> crate::parser::parse_nodes(Language::Haskell, source@) is Some,
        r matches Ok(v) ==> exists|t: SyntaxTree|
            t.wf() && crate::parser::tree_is_parse(t, Language::Haskell, source@) && type_views(v@) == #[trigger] haskell_types(
                t,
                file@,
            ),
{
    match parse_code(source, Language::Haskell) {
        Ok(tree) => Ok(haskell_types_of(&tree, file)),
        Err(e) => Err(e),
    }
}

} // verus!
