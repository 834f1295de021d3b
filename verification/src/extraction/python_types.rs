//! Type definitions of a Python file: classes (enums and protocols among
//! them) with their fields, variants and members, and `TypedDict` and
//! `NamedTuple` assignments with their fields.
use vstd::prelude::*;
use crate::analysis::shape::{field_text, field_text_or, named_node, node_line, start_line};
use crate::analysis::typed_shape::{first_child_of_kind, first_of_kind};
use crate::extraction::rust_types::nonempty;
use crate::extraction::types::{
    Field, FieldView, Member, MemberView, TypeDefinition, TypeKind, TypeView, Variant,
    VariantView, field_views, first_line_trimmed, member_views, opt_fields, opt_members,
    opt_variants, signature_for, type_view, type_views, variant_views,
};
use crate::parser::{Language, ParseError, parse_code};
use crate::syntax::SyntaxTree;
use crate::text::{chars_of, contains, contains_lit, push_str, slice_range, string_of, trim, trim_chars};

verus! {

// ---------------------------------------------------------------------------
// Strings
// ---------------------------------------------------------------------------

/// A Python string literal without its quotes: the trimmed text, less the
/// first and last character when both are `'` or both are `"`.
pub open spec fn unquoted(raw: Seq<char>) -> Seq<char> {
    let t = trim(raw);
    if t.len() >= 2 && ((t[0] == '\'' && t.last() == '\'') || (t[0] == '"' && t.last() == '"')) {
        t.subrange(1, t.len() - 1)
    } else {
        t
    }
}

/// Remove the quotes of a Python string literal (see `unquoted`).
pub fn unquote_python_string(raw: &str) -> (r: String)
    ensures
        r@ == unquoted(raw@),
{
    let t = trim_chars(chars_of(raw).as_slice());
    let n = t.len();
    if n >= 2 && ((t[0] == '\'' && t[n - 1] == '\'') || (t[0] == '"' && t[n - 1] == '"')) {
        string_of(slice_range(t.as_slice(), 1, n - 1).as_slice())
    } else {
        string_of(t.as_slice())
    }
}

// ---------------------------------------------------------------------------
// TypedDict and NamedTuple fields
// ---------------------------------------------------------------------------

/// The fields of the `pair` children `cs` of a dictionary: the unquoted
/// key and the value text of each (pairs with an empty key left out); none
/// at all when a pair has no key or value node.
pub open spec fn dict_fields(t: SyntaxTree, cs: Seq<usize>) -> Option<Seq<FieldView>>
    decreases cs.len(),
{
    if cs.len() == 0 {
        Some(seq![])
    } else {
        match dict_fields(t, cs.drop_last()) {
            None => None,
            Some(r) => {
                let c = cs.last() as int;
                if t.kind(c) != "pair"@ {
                    Some(r)
                } else {
                    let ch = t.children(c);
                    let key = match t.child_by_field(c, "key"@) {
                        Some(k) => Some(k),
                        None => if ch.len() > 0 {
                            Some(ch[0])
                        } else {
                            None
                        },
                    };
                    let value = match t.child_by_field(c, "value"@) {
                        Some(v) => Some(v),
                        None => if ch.len() > 0 {
                            Some(ch.last())
                        } else {
                            None
                        },
                    };
                    match (key, value) {
                        (Some(k), Some(v)) => {
                            let name = unquoted(t.text(k as int));
                            if name.len() > 0 {
                                Some(r.push((name, t.text(v as int))))
                            } else {
                                Some(r)
                            }
                        },
                        _ => None,
                    }
                }
            },
        }
    }
}

proof fn lemma_dict_fields_none(t: SyntaxTree, cs: Seq<usize>, j: int)
    requires
        0 <= j <= cs.len(),
        dict_fields(t, cs.take(j)) is None,
    ensures
        dict_fields(t, cs) is None,
    decreases cs.len(),
{
    if j < cs.len() {
        assert(cs.drop_last().take(j) =~= cs.take(j));
        lemma_dict_fields_none(t, cs.drop_last(), j);
    } else {
        assert(cs.take(j) =~= cs);
    }
}

/// The fields of a `TypedDict(...)` argument list: those of its first
/// dictionary; none without one, or without fields.
pub open spec fn typed_dict_fields(t: SyntaxTree, args: int) -> Option<Seq<FieldView>> {
    match first_of_kind(t, t.children(args), "dictionary"@) {
        None => None,
        Some(d) => match dict_fields(t, t.children(d as int)) {
            Some(fs) => nonempty(fs),
            None => None,
        },
    }
}

/// The named nodes among `cs`.
pub open spec fn named_in(t: SyntaxTree, cs: Seq<usize>) -> Seq<usize>
    decreases cs.len(),
{
    if cs.len() == 0 {
        seq![]
    } else {
        let r = named_in(t, cs.drop_last());
        if t.nodes@[cs.last() as int].named {
            r.push(cs.last())
        } else {
            r
        }
    }
}

/// The fields of the `tuple` children `cs` of a list: for each tuple of at
/// least two named items, the unquoted first and the text of the second
/// (empty names left out).
pub open spec fn tuple_fields(t: SyntaxTree, cs: Seq<usize>) -> Seq<FieldView>
    decreases cs.len(),
{
    if cs.len() == 0 {
        seq![]
    } else {
        let r = tuple_fields(t, cs.drop_last());
        let c = cs.last() as int;
        let items = named_in(t, t.children(c));
        if t.kind(c) == "tuple"@ && items.len() >= 2 && unquoted(t.text(items[0] as int)).len() > 0 {
            r.push((unquoted(t.text(items[0] as int)), t.text(items[1] as int)))
        } else {
            r
        }
    }
}

/// The fields of a `NamedTuple(...)` argument list: those of its first
/// list; none without one, or without fields.
pub open spec fn named_tuple_fields(t: SyntaxTree, args: int) -> Option<Seq<FieldView>> {
    match first_of_kind(t, t.children(args), "list"@) {
        None => None,
        Some(l) => nonempty(tuple_fields(t, t.children(l as int))),
    }
}

fn named_children(tree: &SyntaxTree, p: usize) -> (r: Vec<usize>)
    requires
        tree.wf(),
    ensures
        r@ == named_in(*tree, tree.children(p as int)),
        forall|j: int| 0 <= j < r@.len() ==> (#[trigger] r@[j]) < tree.len(),
{
    let cs = tree.children_of(p);
    let mut out: Vec<usize> = Vec::new();
    let mut k: usize = 0;
    while k < cs.len()
        invariant
            tree.wf(),
            cs@ == tree.children(p as int),
            forall|j: int| 0 <= j < cs@.len() ==> (#[trigger] cs@[j]) < tree.len(),
            k <= cs.len(),
            out@ == named_in(*tree, cs@.take(k as int)),
            forall|j: int| 0 <= j < out@.len() ==> (#[trigger] out@[j]) < tree.len(),
        decreases cs.len() - k,
    {
        let c = cs[k];
        assert(cs@.take(k + 1).drop_last() =~= cs@.take(k as int));
        assert(cs@.take(k + 1).last() == c);
        if tree.nodes[c].named {
            out.push(c);
        }
        k = k + 1;
    }
    assert(cs@.take(cs@.len() as int) =~= cs@);
    out
}

fn parse_python_typed_dict_fields(tree: &SyntaxTree, args: usize) -> (r: Option<Vec<Field>>)
    requires
        tree.wf(),
    ensures
        opt_fields(r) == typed_dict_fields(*tree, args as int),
{
    let d = match first_child_of_kind(tree, args, "dictionary") {
        Some(d) => d,
        None => return None,
    };
    let cs = tree.children_of(d);
    let mut out: Vec<Field> = Vec::new();
    let mut k: usize = 0;
    while k < cs.len()
        invariant
            tree.wf(),
            cs@ == tree.children(d as int),
            Some(d) == first_of_kind(*tree, tree.children(args as int), "dictionary"@),
            forall|j: int| 0 <= j < cs@.len() ==> (#[trigger] cs@[j]) < tree.len(),
            k <= cs.len(),
            dict_fields(*tree, cs@.take(k as int)) == Some(field_views(out@)),
        decreases cs.len() - k,
    {
        let c = cs[k];
        assert(cs@.take(k + 1).drop_last() =~= cs@.take(k as int));
        assert(cs@.take(k + 1).last() == c);
        if tree.kind_is(c, "pair") {
            let ch = tree.children_of(c);
            let key = match tree.child_by_field_name(c, "key") {
                Some(x) => Some(x),
                None => if ch.len() > 0 {
                    Some(ch[0])
                } else {
                    None
                },
            };
            let value = match tree.child_by_field_name(c, "value") {
                Some(x) => Some(x),
                None => if ch.len() > 0 {
                    Some(ch[ch.len() - 1])
                } else {
                    None
                },
            };
            match (key, value) {
                (Some(kn), Some(vn)) => {
                    let name = unquote_python_string(tree.node_text(kn).as_str());
                    if !name.as_str().is_empty() {
                        let f = Field { name, type_annotation: tree.node_text(vn) };
                        let ghost before = field_views(out@);
                        out.push(f);
                        assert(field_views(out@) =~= before.push((f.name@, f.type_annotation@)));
                    }
                },
                _ => {
                    proof {
                        lemma_dict_fields_none(*tree, cs@, k + 1);
                    }
                    return None;
                },
            }
        }
        k = k + 1;
    }
    assert(cs@.take(cs@.len() as int) =~= cs@);
    if out.len() > 0 {
        Some(out)
    } else {
        None
    }
}

fn parse_python_named_tuple_fields(tree: &SyntaxTree, args: usize) -> (r: Option<Vec<Field>>)
    requires
        tree.wf(),
    ensures
        opt_fields(r) == named_tuple_fields(*tree, args as int),
{
    let l = match first_child_of_kind(tree, args, "list") {
        Some(l) => l,
        None => return None,
    };
    let cs = tree.children_of(l);
    let mut out: Vec<Field> = Vec::new();
    let mut k: usize = 0;
    while k < cs.len()
        invariant
            tree.wf(),
            cs@ == tree.children(l as int),
            forall|j: int| 0 <= j < cs@.len() ==> (#[trigger] cs@[j]) < tree.len(),
            k <= cs.len(),
            field_views(out@) == tuple_fields(*tree, cs@.take(k as int)),
        decreases cs.len() - k,
    {
        let c = cs[k];
        assert(cs@.take(k + 1).drop_last() =~= cs@.take(k as int));
        assert(cs@.take(k + 1).last() == c);
        if tree.kind_is(c, "tuple") {
            let items = named_children(tree, c);
            if items.len() >= 2 {
                let name = unquote_python_string(tree.node_text(items[0]).as_str());
                if !name.as_str().is_empty() {
                    let f = Field { name, type_annotation: tree.node_text(items[1]) };
                    let ghost before = field_views(out@);
                    out.push(f);
                    assert(field_views(out@) =~= before.push((f.name@, f.type_annotation@)));
                }
            }
        }
        k = k + 1;
    }
    assert(cs@.take(cs@.len() as int) =~= cs@);
    if out.len() > 0 {
        Some(out)
    } else {
        None
    }
}

// ---------------------------------------------------------------------------
// Classes
// ---------------------------------------------------------------------------

/// The kind of a class: an enum when its superclasses mention `Enum`, a
/// protocol when they mention `Protocol`, else a class.
pub open spec fn class_kind_of(t: SyntaxTree, i: int) -> TypeKind {
    match t.child_by_field(i, "superclasses"@) {
        Some(s) => if contains(t.text(s as int), "Enum"@) {
            TypeKind::Enum
        } else if contains(t.text(s as int), "Protocol"@) {
            TypeKind::Protocol
        } else {
            TypeKind::Class
        },
        None => TypeKind::Class,
    }
}

/// The first child of `c`, if any.
pub open spec fn first_child(t: SyntaxTree, c: int) -> Option<usize> {
    if t.children(c).len() > 0 {
        Some(t.children(c)[0])
    } else {
        None
    }
}

/// The fields that an `__init__` body sets on `self` among the statements
/// `cs`: `self.x = ...` gives the field `x` of type `Any`.
pub open spec fn init_fields(t: SyntaxTree, cs: Seq<usize>) -> Seq<FieldView>
    decreases cs.len(),
{
    if cs.len() == 0 {
        seq![]
    } else {
        let r = init_fields(t, cs.drop_last());
        let st = cs.last() as int;
        if t.kind(st) == "expression_statement"@ {
            match first_child(t, st) {
                Some(a) => if t.kind(a as int) == "assignment"@ {
                    match t.child_by_field(a as int, "left"@) {
                        Some(l) => if t.kind(l as int) == "attribute"@ && (t.child_by_field(
                            l as int,
                            "object"@,
                        ) matches Some(o) && t.text(o as int) == "self"@) {
                            match t.child_by_field(l as int, "attribute"@) {
                                Some(x) => r.push((t.text(x as int), "Any"@)),
                                None => r,
                            }
                        } else {
                            r
                        },
                        None => r,
                    }
                } else {
                    r
                },
                None => r,
            }
        } else {
            r
        }
    }
}

/// What a class body gathers: fields, variants and members.
pub type ClassBody = (Seq<FieldView>, Option<Seq<VariantView>>, Option<Seq<MemberView>>);

pub open spec fn or_empty<A>(o: Option<Seq<A>>) -> Seq<A> {
    match o {
        Some(s) => s,
        None => seq![],
    }
}

/// The function a decorated definition decorates: its `definition` child,
/// else its first function definition.
pub open spec fn decorated(t: SyntaxTree, c: int) -> Option<usize> {
    match t.child_by_field(c, "definition"@) {
        Some(d) => Some(d),
        None => first_of_kind(t, t.children(c), "function_definition"@),
    }
}

/// The type written on an assignment, or `Any`.
pub open spec fn assignment_type(t: SyntaxTree, a: int) -> Seq<char> {
    field_text_or(t, a, "type"@, "Any"@)
}

/// Gather the body child `c` of a class of kind `kind` into `s`: a
/// function is a member (and `__init__` adds the fields it sets on
/// `self`); a decorated function is a member; an assignment is a variant
/// of an enum, a member of a protocol (when its target is a name), a field
/// of another class (when its target is a name).
pub open spec fn class_body_step(t: SyntaxTree, kind: TypeKind, s: ClassBody, c: int) -> ClassBody {
    let k = t.kind(c);
    if k == "function_definition"@ {
        let fname = field_text_or(t, c, "name"@, ""@);
        let fields = if fname == "__init__"@ {
            s.0 + match t.child_by_field(c, "body"@) {
                Some(b) => init_fields(t, t.children(b as int)),
                None => seq![],
            }
        } else {
            s.0
        };
        (fields, s.1, Some(or_empty(s.2).push((fname, first_line_trimmed(t.text(c))))))
    } else if k == "decorated_definition"@ {
        match decorated(t, c) {
            None => s,
            Some(d) => {
                let fname = field_text_or(t, d as int, "name"@, ""@);
                if fname.len() > 0 {
                    (s.0, s.1, Some(or_empty(s.2).push((fname, first_line_trimmed(t.text(d as int))))))
                } else {
                    s
                }
            },
        }
    } else if k == "expression_statement"@ {
        match first_child(t, c) {
            Some(a) => if t.kind(a as int) != "assignment"@ {
                s
            } else {
                let left = t.child_by_field(a as int, "left"@);
                if kind == TypeKind::Enum {
                    let v = match left {
                        Some(l) => if t.text(l as int).len() > 0 {
                            or_empty(s.1).push((t.text(l as int), None))
                        } else {
                            or_empty(s.1)
                        },
                        None => or_empty(s.1),
                    };
                    (s.0, Some(v), s.2)
                } else {
                    match left {
                        Some(l) => if t.kind(l as int) == "identifier"@ && t.text(l as int).len()
                            > 0 {
                            if kind == TypeKind::Protocol {
                                (
                                    s.0,
                                    s.1,
                                    Some(
                                        or_empty(s.2).push(
                                            (t.text(l as int), assignment_type(t, a as int)),
                                        ),
                                    ),
                                )
                            } else {
                                (s.0.push((t.text(l as int), assignment_type(t, a as int))), s.1, s.2)
                            }
                        } else {
                            s
                        },
                        None => s,
                    }
                }
            },
            None => s,
        }
    } else {
        s
    }
}

/// What the body children `cs` of a class of kind `kind` gather.
pub open spec fn class_body(t: SyntaxTree, kind: TypeKind, cs: Seq<usize>) -> ClassBody
    decreases cs.len(),
{
    if cs.len() == 0 {
        (seq![], None, None)
    } else {
        class_body_step(t, kind, class_body(t, kind, cs.drop_last()), cs.last() as int)
    }
}

/// The definition of class node `i`.
pub open spec fn python_class(t: SyntaxTree, i: int, file: Seq<char>) -> TypeView {
    let kind = class_kind_of(t, i);
    let body = match t.child_by_field(i, "body"@) {
        Some(b) => class_body(t, kind, t.children(b as int)),
        None => (seq![], None, None),
    };
    (
        field_text_or(t, i, "name"@, ""@),
        kind,
        file,
        node_line(t, i),
        first_line_trimmed(t.text(i)),
        0,
        nonempty(body.0),
        body.1,
        body.2,
    )
}

/// The call of an assignment `X = F(...)` with `X` and `F` names and an
/// argument list: the kind it declares (`TypedDict` or `NamedTuple`) and
/// its argument list.
pub open spec fn special_assignment(t: SyntaxTree, i: int) -> Option<(TypeKind, usize)> {
    if t.kind(i) == "assignment"@ && (t.child_by_field(i, "left"@) matches Some(l) && t.kind(
        l as int,
    ) == "identifier"@) {
        match t.child_by_field(i, "right"@) {
            Some(c) => if t.kind(c as int) == "call"@ {
                match (t.child_by_field(c as int, "function"@), t.child_by_field(c as int, "arguments"@)) {
                    (Some(f), Some(a)) => if t.kind(f as int) == "identifier"@ && t.kind(a as int)
                        == "argument_list"@ {
                        if t.text(f as int) == "TypedDict"@ {
                            Some((TypeKind::TypedDict, a))
                        } else if t.text(f as int) == "NamedTuple"@ {
                            Some((TypeKind::NamedTuple, a))
                        } else {
                            None
                        }
                    } else {
                        None
                    },
                    _ => None,
                }
            } else {
                None
            },
            None => None,
        }
    } else {
        None
    }
}

/// The definition of a `TypedDict` or `NamedTuple` assignment.
pub open spec fn python_special(t: SyntaxTree, i: int, kind: TypeKind, args: int, file: Seq<char>) -> TypeView {
    (
        field_text_or(t, i, "left"@, ""@),
        kind,
        file,
        node_line(t, i),
        first_line_trimmed(t.text(i)),
        0,
        if kind == TypeKind::TypedDict {
            typed_dict_fields(t, args)
        } else {
            named_tuple_fields(t, args)
        },
        None,
        None,
    )
}

/// The type definitions among the first `k` nodes of a Python file, in
/// source order.
pub open spec fn python_types_upto(t: SyntaxTree, k: int, file: Seq<char>) -> Seq<TypeView>
    decreases k,
{
    if k <= 0 {
        seq![]
    } else {
        let r = python_types_upto(t, k - 1, file);
        if named_node(t, k - 1, "class_definition"@, "identifier"@) {
            r.push(python_class(t, k - 1, file))
        } else {
            match special_assignment(t, k - 1) {
                Some((kind, args)) => r.push(python_special(t, k - 1, kind, args as int, file)),
                None => r,
            }
        }
    }
}

/// The type definitions of a Python file.
pub open spec fn python_types(t: SyntaxTree, file: Seq<char>) -> Seq<TypeView> {
    python_types_upto(t, t.len(), file)
}

fn first_child_of(tree: &SyntaxTree, c: usize) -> (r: Option<usize>)
    requires
        tree.wf(),
    ensures
        r == first_child(*tree, c as int),
        r matches Some(x) ==> x < tree.len(),
{
    let cs = tree.children_of(c);
    if cs.len() > 0 {
        Some(cs[0])
    } else {
        None
    }
}

fn collect_init_fields(tree: &SyntaxTree, f: usize, fields: &mut Vec<Field>)
    requires
        tree.wf(),
    ensures
        field_views(final(fields)@) == field_views(old(fields)@) + match tree.child_by_field(
            f as int,
            "body"@,
        ) {
            Some(b) => init_fields(*tree, tree.children(b as int)),
            None => seq![],
        },
{
    let ghost start = field_views(fields@);
    let b = match tree.child_by_field_name(f, "body") {
        Some(b) => b,
        None => {
            assert(start + seq![] =~= start);
            return;
        },
    };
    let cs = tree.children_of(b);
    let mut k: usize = 0;
    assert(start + init_fields(*tree, cs@.take(0)) =~= start);
    while k < cs.len()
        invariant
            tree.wf(),
            cs@ == tree.children(b as int),
            forall|j: int| 0 <= j < cs@.len() ==> (#[trigger] cs@[j]) < tree.len(),
            k <= cs.len(),
            field_views(fields@) == start + init_fields(*tree, cs@.take(k as int)),
        decreases cs.len() - k,
    {
        let st = cs[k];
        assert(cs@.take(k + 1).drop_last() =~= cs@.take(k as int));
        assert(cs@.take(k + 1).last() == st);
        let ghost before = field_views(fields@);
        if tree.kind_is(st, "expression_statement") {
            if let Some(a) = first_child_of(tree, st) {
                if tree.kind_is(a, "assignment") {
                    if let Some(l) = tree.child_by_field_name(a, "left") {
                        let is_self = match tree.child_by_field_name(l, "object") {
                            Some(o) => crate::text::str_is(tree.node_text(o).as_str(), "self"),
                            None => false,
                        };
                        if tree.kind_is(l, "attribute") && is_self {
                            if let Some(x) = tree.child_by_field_name(l, "attribute") {
                                let mut any = String::new();
                                push_str(&mut any, "Any");
                                let fd = Field { name: tree.node_text(x), type_annotation: any };
                                fields.push(fd);
                                assert(field_views(fields@) =~= before.push(
                                    (fd.name@, fd.type_annotation@),
                                ));
                            }
                        }
                    }
                }
            }
        }
        k = k + 1;
    }
    assert(cs@.take(cs@.len() as int) =~= cs@);
}

fn decorated_of(tree: &SyntaxTree, c: usize) -> (r: Option<usize>)
    requires
        tree.wf(),
    ensures
        r == decorated(*tree, c as int),
        r matches Some(x) ==> x < tree.len(),
{
    match tree.child_by_field_name(c, "definition") {
        Some(d) => Some(d),
        None => first_child_of_kind(tree, c, "function_definition"),
    }
}

fn push_member(members: &mut Option<Vec<Member>>, m: Member)
    ensures
        opt_members(*final(members)) == Some(or_empty(opt_members(*old(members))).push(
            (m.name@, m.type_annotation@),
        )),
{
    match members {
        Some(v) => {
            let ghost before = member_views(v@);
            v.push(m);
            assert(member_views(v@) =~= before.push((m.name@, m.type_annotation@)));
        },
        None => {
            let v = vec![m];
            assert(member_views(v@) =~= seq![(m.name@, m.type_annotation@)]);
            *members = Some(v);
        },
    }
}

fn assignment_type_of(tree: &SyntaxTree, a: usize) -> (r: String)
    requires
        tree.wf(),
    ensures
        r@ == assignment_type(*tree, a as int),
{
    field_text(tree, a, "type", "Any")
}

fn python_class_of(tree: &SyntaxTree, i: usize, file: &str) -> (r: TypeDefinition)
    requires
        tree.wf(),
        i < tree.len(),
    ensures
        type_view(r) == python_class(*tree, i as int, file@),
{
    let kind = match tree.child_by_field_name(i, "superclasses") {
        Some(s) => {
            let text = chars_of(tree.node_text(s).as_str());
            if contains_lit(text.as_slice(), "Enum") {
                TypeKind::Enum
            } else if contains_lit(text.as_slice(), "Protocol") {
                TypeKind::Protocol
            } else {
                TypeKind::Class
            }
        },
        None => TypeKind::Class,
    };
    assert(kind == class_kind_of(*tree, i as int));
    let mut fields: Vec<Field> = Vec::new();
    let mut variants: Option<Vec<Variant>> = None;
    let mut members: Option<Vec<Member>> = None;
    if let Some(b) = tree.child_by_field_name(i, "body") {
        let cs = tree.children_of(b);
        let mut k: usize = 0;
        assert(field_views(fields@) =~= seq![]);
        while k < cs.len()
            invariant
                tree.wf(),
                cs@ == tree.children(b as int),
                forall|j: int| 0 <= j < cs@.len() ==> (#[trigger] cs@[j]) < tree.len(),
                k <= cs.len(),
                (field_views(fields@), opt_variants(variants), opt_members(members)) == class_body(
                    *tree,
                    kind,
                    cs@.take(k as int),
                ),
            decreases cs.len() - k,
        {
            let c = cs[k];
            assert(cs@.take(k + 1).drop_last() =~= cs@.take(k as int));
            assert(cs@.take(k + 1).last() == c);
            let ghost s = (field_views(fields@), opt_variants(variants), opt_members(members));
            if tree.kind_is(c, "function_definition") {
                let fname = field_text(tree, c, "name", "");
                if crate::text::str_is(fname.as_str(), "__init__") {
                    collect_init_fields(tree, c, &mut fields);
                }
                let m = Member { name: fname, type_annotation: signature_for(tree, c) };
                push_member(&mut members, m);
            } else if tree.kind_is(c, "decorated_definition") {
                if let Some(d) = decorated_of(tree, c) {
                    let fname = field_text(tree, d, "name", "");
                    if !fname.as_str().is_empty() {
                        let m = Member { name: fname, type_annotation: signature_for(tree, d) };
                        push_member(&mut members, m);
                    }
                }
            } else if tree.kind_is(c, "expression_statement") {
                if let Some(a) = first_child_of(tree, c) {
                    if tree.kind_is(a, "assignment") {
                        let left = tree.child_by_field_name(a, "left");
                        if kind == TypeKind::Enum {
                            let mut v = match variants {
                                Some(v) => v,
                                None => Vec::new(),
                            };
                            let ghost before = variant_views(v@);
                            assert(before == or_empty(s.1));
                            if let Some(l) = left {
                                let name = tree.node_text(l);
                                if !name.as_str().is_empty() {
                                    let x = Variant { name, type_annotation: None };
                                    v.push(x);
                                    assert(variant_views(v@) =~= before.push((x.name@, None)));
                                }
                            }
                            variants = Some(v);
                        } else if let Some(l) = left {
                            let name = tree.node_text(l);
                            if tree.kind_is(l, "identifier") && !name.as_str().is_empty() {
                                if kind == TypeKind::Protocol {
                                    let m = Member {
                                        name,
                                        type_annotation: assignment_type_of(tree, a),
                                    };
                                    push_member(&mut members, m);
                                } else {
                                    let f = Field {
                                        name,
                                        type_annotation: assignment_type_of(tree, a),
                                    };
                                    let ghost before = field_views(fields@);
                                    fields.push(f);
                                    assert(field_views(fields@) =~= before.push(
                                        (f.name@, f.type_annotation@),
                                    ));
                                }
                            }
                        }
                    }
                }
            }
            k = k + 1;
        }
        assert(cs@.take(cs@.len() as int) =~= cs@);
    } else {
        assert(field_views(fields@) =~= seq![]);
    }
    let fields = if fields.len() > 0 {
        Some(fields)
    } else {
        None
    };
    let mut path = String::new();
    push_str(&mut path, file);
    TypeDefinition {
        name: field_text(tree, i, "name", ""),
        kind,
        file: path,
        line: start_line(tree, i),
        signature: signature_for(tree, i),
        usage_count: 0,
        fields,
        variants,
        members,
    }
}

fn special_assignment_of(tree: &SyntaxTree, i: usize) -> (r: Option<(TypeKind, usize)>)
    requires
        tree.wf(),
        i < tree.len(),
    ensures
        r == special_assignment(*tree, i as int),
        r matches Some((_, a)) ==> a < tree.len(),
{
    if !tree.kind_is(i, "assignment") {
        return None;
    }
    match tree.child_by_field_name(i, "left") {
        Some(l) => if !tree.kind_is(l, "identifier") {
            return None;
        },
        None => return None,
    }
    let c = match tree.child_by_field_name(i, "right") {
        Some(c) => c,
        None => return None,
    };
    if !tree.kind_is(c, "call") {
        return None;
    }
    match (tree.child_by_field_name(c, "function"), tree.child_by_field_name(c, "arguments")) {
        (Some(f), Some(a)) => {
            if !tree.kind_is(f, "identifier") || !tree.kind_is(a, "argument_list") {
                return None;
            }
            let name = tree.node_text(f);
            if crate::text::str_is(name.as_str(), "TypedDict") {
                Some((TypeKind::TypedDict, a))
            } else if crate::text::str_is(name.as_str(), "NamedTuple") {
                Some((TypeKind::NamedTuple, a))
            } else {
                None
            }
        },
        _ => None,
    }
}

/// The type definitions of a parsed Python file (see `python_types`).
pub fn python_types_of(tree: &SyntaxTree, file: &str) -> (r: Vec<TypeDefinition>)
    requires
        tree.wf(),
    ensures
        type_views(r@) == python_types(*tree, file@),
{
    let mut defs: Vec<TypeDefinition> = Vec::new();
    let mut k: usize = 0;
    assert(type_views(defs@) =~= seq![]);
    while k < tree.nodes.len()
        invariant
            tree.wf(),
            k <= tree.len(),
            type_views(defs@) == python_types_upto(*tree, k as int, file@),
        decreases tree.nodes.len() - k,
    {
        let ghost before = type_views(defs@);
        if crate::analysis::shape::is_named_node(tree, k, "class_definition", "identifier") {
            let d = python_class_of(tree, k, file);
            defs.push(d);
            assert(type_views(defs@) =~= before.push(type_view(d)));
        } else if let Some((kind, args)) = special_assignment_of(tree, k) {
            let fields = if kind == TypeKind::TypedDict {
                parse_python_typed_dict_fields(tree, args)
            } else {
                parse_python_named_tuple_fields(tree, args)
            };
            let mut path = String::new();
            push_str(&mut path, file);
            let d = TypeDefinition {
                name: field_text(tree, k, "left", ""),
                kind,
                file: path,
                line: start_line(tree, k),
                signature: signature_for(tree, k),
                usage_count: 0,
                fields,
                variants: None,
                members: None,
            };
            defs.push(d);
            assert(type_views(defs@) =~= before.push(
                python_special(*tree, k as int, kind, args as int, file@),
            ));
        }
        k = k + 1;
    }
    defs
}

/// Parse a Python file and list its type definitions; `Err` when it cannot
/// be parsed.
pub fn extract_python_types(source: &str, file: &str) -> (r: Result<Vec<TypeDefinition>, ParseError>)
    ensures
        r is Ok <==> crate::parser::parse_nodes(Language::Python, source@) is Some,
        r matches Ok(v) ==> exists|t: SyntaxTree|
            t.wf() && crate::parser::tree_is_parse(t, Language::Python, source@) && type_views(v@) == #[trigger] python_types(
                t,
                file@,
            ),
{
    match parse_code(source, Language::Python) {
        Ok(tree) => Ok(python_types_of(&tree, file)),
        Err(e) => Err(e),
    }
}

} // verus!
