//! What holds of every shape: Haskell functions come sorted by line, the
//! custom classes of an HTML page are each listed once and none of them is
//! a Tailwind utility, the names called from a range are each listed once,
//! and the entries of a file's shape end no earlier than they begin and
//! carry code only when it was asked for.
use vstd::prelude::*;
use crate::analysis::calls::dedup_first;
use crate::analysis::haskell_shape::{line_slot, sort_by_line};
use crate::analysis::html::custom_classes;
use crate::analysis::shape::FunctionView;
use crate::analysis::tailwind::tailwind_utility;
use crate::syntax::SyntaxTree;

verus! {

/// No element occurs twice.
pub open spec fn no_repeats<A>(s: Seq<A>) -> bool {
    forall|i: int, j: int| 0 <= i < j < s.len() ==> #[trigger] s[i] != #[trigger] s[j]
}

/// Lines never decrease along the entries.
pub open spec fn lines_sorted(s: Seq<FunctionView>) -> bool {
    forall|i: int, j: int| 0 <= i < j < s.len() ==> (#[trigger] s[i]).2 <= (#[trigger] s[j]).2
}

proof fn lemma_line_slot_sorted(s: Seq<FunctionView>, line: usize)
    requires
        lines_sorted(s),
    ensures
        0 <= line_slot(s, line) <= s.len(),
        forall|i: int| 0 <= i < line_slot(s, line) ==> (#[trigger] s[i]).2 <= line,
        forall|i: int| line_slot(s, line) <= i < s.len() ==> (#[trigger] s[i]).2 > line,
    decreases s.len(),
{
    if s.len() > 0 {
        let t = s.drop_first();
        assert(lines_sorted(t)) by {
            assert forall|i: int, j: int| 0 <= i < j < t.len() implies (#[trigger] t[i]).2 <= (
            #[trigger] t[j]).2 by {
                assert(t[i] == s[i + 1]);
                assert(t[j] == s[j + 1]);
            }
        }
        lemma_line_slot_sorted(t, line);
        if s[0].2 > line {
            assert forall|i: int| 0 <= i < s.len() implies (#[trigger] s[i]).2 > line by {
                if i > 0 {
                    assert(s[0].2 <= s[i].2);
                }
            }
        } else {
            assert forall|i: int| 0 <= i < line_slot(s, line) implies (#[trigger] s[i]).2 <= line by {
                if i > 0 {
                    assert(s[i] == t[i - 1]);
                }
            }
            assert forall|i: int| line_slot(s, line) <= i < s.len() implies (#[trigger] s[i]).2
                > line by {
                assert(s[i] == t[i - 1]);
            }
        }
    }
}

/// The functions of a Haskell file come sorted by line, and sorting only
/// reorders them: each entry occurs as often as before.
pub proof fn law_haskell_functions_sorted(s: Seq<FunctionView>)
    ensures
        lines_sorted(sort_by_line(s)),
        sort_by_line(s).to_multiset() == s.to_multiset(),
    decreases s.len(),
{
    if s.len() > 0 {
        let r = sort_by_line(s.drop_last());
        law_haskell_functions_sorted(s.drop_last());
        let e = s.last();
        let k = line_slot(r, e.2);
        lemma_line_slot_sorted(r, e.2);
        let q = r.insert(k, e);
        assert forall|i: int, j: int| 0 <= i < j < q.len() implies (#[trigger] q[i]).2 <= (
        #[trigger] q[j]).2 by {
            if i < k && j < k {
                assert(q[i] == r[i] && q[j] == r[j]);
            } else if i < k && j == k {
                assert(q[i] == r[i]);
            } else if i < k && j > k {
                assert(q[i] == r[i] && q[j] == r[j - 1]);
            } else if i == k {
                assert(q[j] == r[j - 1]);
            } else {
                assert(q[i] == r[i - 1] && q[j] == r[j - 1]);
            }
        }
        vstd::seq_lib::to_multiset_insert(r, k, e);
        assert(s =~= s.drop_last().push(e));
        vstd::seq_lib::to_multiset_build(s.drop_last(), e);
        assert(sort_by_line(s) == q);
        assert(q.to_multiset() == r.to_multiset().insert(e));
        assert(s.to_multiset() == s.drop_last().to_multiset().insert(e));
    } else {
        assert(s.to_multiset().len() == 0) by {
            s.to_multiset_ensures();
        }
        assert(s.to_multiset() =~= vstd::multiset::Multiset::empty());
        assert(sort_by_line(s).to_multiset().len() == 0) by {
            sort_by_line(s).to_multiset_ensures();
        }
        assert(sort_by_line(s).to_multiset() =~= vstd::multiset::Multiset::empty());
    }
}

/// The custom classes of an HTML page are each listed once, none of them
/// is a Tailwind utility, each is a class used on the page, and every class
/// used that is not a utility is listed.
pub proof fn law_custom_classes(cs: Seq<Seq<char>>)
    ensures
        no_repeats(custom_classes(cs)),
        forall|i: int|
            0 <= i < custom_classes(cs).len() ==> !tailwind_utility(#[trigger] custom_classes(cs)[i]),
        forall|c: Seq<char>| custom_classes(cs).contains(c) ==> cs.contains(c),
        forall|c: Seq<char>| cs.contains(c) && !tailwind_utility(c) ==> custom_classes(cs).contains(c),
    decreases cs.len(),
{
    if cs.len() > 0 {
        let p = cs.drop_last();
        law_custom_classes(p);
        let r = custom_classes(p);
        let c = cs.last();
        assert forall|x: Seq<char>| custom_classes(cs).contains(x) implies cs.contains(x) by {
            if r.contains(x) {
                assert(p.contains(x));
                let k = choose|k: int| 0 <= k < p.len() && p[k] == x;
                assert(cs[k] == p[k]);
            } else {
                assert(cs[cs.len() - 1] == x);
            }
        }
        assert forall|x: Seq<char>| cs.contains(x) && !tailwind_utility(x) implies custom_classes(
            cs,
        ).contains(x) by {
            let k = choose|k: int| 0 <= k < cs.len() && cs[k] == x;
            if k < cs.len() - 1 {
                assert(p[k] == x);
                assert(r.contains(x));
                if !tailwind_utility(c) && !r.contains(c) {
                    let m = choose|m: int| 0 <= m < r.len() && r[m] == x;
                    assert(r.push(c)[m] == x);
                }
            } else {
                if !r.contains(c) {
                    assert(r.push(c)[r.len() as int] == c);
                }
            }
        }
    }
}

/// The names called from a range of lines are each listed once, and they
/// are exactly the names of the calls found there.
pub proof fn law_called_names_once(s: Seq<Seq<char>>)
    ensures
        no_repeats(dedup_first(s)),
        forall|c: Seq<char>| dedup_first(s).contains(c) <==> s.contains(c),
    decreases s.len(),
{
    if s.len() > 0 {
        let p = s.drop_last();
        law_called_names_once(p);
        let r = dedup_first(p);
        let c = s.last();
        let d = dedup_first(s);
        assert forall|x: Seq<char>| d.contains(x) implies s.contains(x) by {
            let m = choose|m: int| 0 <= m < d.len() && d[m] == x;
            if m < r.len() {
                assert(r[m] == x);
                assert(r.contains(x));
                assert(p.contains(x));
                let k = choose|k: int| 0 <= k < p.len() && p[k] == x;
                assert(s[k] == p[k]);
            } else {
                assert(x == c);
                assert(s[s.len() - 1] == x);
            }
        }
        assert forall|x: Seq<char>| s.contains(x) implies d.contains(x) by {
            let k = choose|k: int| 0 <= k < s.len() && s[k] == x;
            if k < s.len() - 1 {
                assert(p[k] == x);
                assert(p.contains(x));
                assert(r.contains(x));
                let m = choose|m: int| 0 <= m < r.len() && r[m] == x;
                if !r.contains(c) {
                    assert(r.push(c)[m] == x);
                }
            } else {
                assert(x == c);
                if !r.contains(c) {
                    assert(r.push(c)[r.len() as int] == c);
                }
            }
        }
    }
}

/// An entry begins on a line from 1 on, ends on it or later, and carries
/// code only when code was asked for (`ic`).
pub open spec fn function_entry_ok(x: FunctionView, ic: bool) -> bool {
    1 <= x.2 <= x.3 && (!ic ==> x.5 is None)
}

pub open spec fn method_entry_ok(x: crate::analysis::shape::MethodView, ic: bool) -> bool {
    1 <= x.2 <= x.3 && (!ic ==> x.5 is None)
}

pub open spec fn struct_entry_ok(x: crate::analysis::shape::StructView, ic: bool) -> bool {
    1 <= x.1 <= x.2 && (!ic ==> x.4 is None)
}

pub open spec fn property_entry_ok(x: crate::analysis::shape::PropertyView) -> bool {
    1 <= x.1 <= x.2
}

pub open spec fn functions_ok(s: Seq<FunctionView>, ic: bool) -> bool {
    forall|j: int| 0 <= j < s.len() ==> function_entry_ok(#[trigger] s[j], ic)
}

pub open spec fn methods_ok(s: Seq<crate::analysis::shape::MethodView>, ic: bool) -> bool {
    forall|j: int| 0 <= j < s.len() ==> method_entry_ok(#[trigger] s[j], ic)
}

pub open spec fn structs_ok(s: Seq<crate::analysis::shape::StructView>, ic: bool) -> bool {
    forall|j: int| 0 <= j < s.len() ==> struct_entry_ok(#[trigger] s[j], ic)
}

pub open spec fn properties_ok(s: Seq<crate::analysis::shape::PropertyView>) -> bool {
    forall|j: int| 0 <= j < s.len() ==> property_entry_ok(#[trigger] s[j])
}

/// An impl block's lines are in order and its methods are entries as above.
pub open spec fn impl_entry_ok(x: crate::analysis::shape::ImplView, ic: bool) -> bool {
    1 <= x.2 <= x.3 && methods_ok(x.4, ic)
}

pub open spec fn trait_entry_ok(x: crate::analysis::shape::TraitView, ic: bool) -> bool {
    1 <= x.1 <= x.2 && methods_ok(x.4, ic)
}

pub open spec fn class_entry_ok(x: crate::analysis::shape::ClassView, ic: bool) -> bool {
    &&& 1 <= x.1 <= x.2
    &&& !ic ==> x.4 is None
    &&& functions_ok(x.5, ic)
    &&& properties_ok(x.6)
    &&& properties_ok(x.7)
}

pub open spec fn interface_entry_ok(x: crate::analysis::shape::InterfaceView, ic: bool) -> bool {
    &&& 1 <= x.1 <= x.2
    &&& !ic ==> x.4 is None
    &&& functions_ok(x.5, ic)
    &&& properties_ok(x.6)
}

pub open spec fn impls_ok(s: Seq<crate::analysis::shape::ImplView>, ic: bool) -> bool {
    forall|j: int| 0 <= j < s.len() ==> impl_entry_ok(#[trigger] s[j], ic)
}

pub open spec fn traits_ok(s: Seq<crate::analysis::shape::TraitView>, ic: bool) -> bool {
    forall|j: int| 0 <= j < s.len() ==> trait_entry_ok(#[trigger] s[j], ic)
}

pub open spec fn classes_ok(s: Seq<crate::analysis::shape::ClassView>, ic: bool) -> bool {
    forall|j: int| 0 <= j < s.len() ==> class_entry_ok(#[trigger] s[j], ic)
}

pub open spec fn interfaces_ok(s: Seq<crate::analysis::shape::InterfaceView>, ic: bool) -> bool {
    forall|j: int| 0 <= j < s.len() ==> interface_entry_ok(#[trigger] s[j], ic)
}

proof fn lemma_push_function(f: Seq<FunctionView>, x: FunctionView, ic: bool)
    requires
        functions_ok(f, ic),
        function_entry_ok(x, ic),
    ensures
        functions_ok(f.push(x), ic),
{
    assert forall|j: int| 0 <= j < f.push(x).len() implies function_entry_ok(#[trigger] f.push(x)[j], ic) by {
        if j < f.len() {
            assert(f.push(x)[j] == f[j]);
        }
    }
}

proof fn lemma_push_method(f: Seq<crate::analysis::shape::MethodView>, x: crate::analysis::shape::MethodView, ic: bool)
    requires
        methods_ok(f, ic),
        method_entry_ok(x, ic),
    ensures
        methods_ok(f.push(x), ic),
{
    assert forall|j: int| 0 <= j < f.push(x).len() implies method_entry_ok(#[trigger] f.push(x)[j], ic) by {
        if j < f.len() {
            assert(f.push(x)[j] == f[j]);
        }
    }
}

proof fn lemma_push_struct(f: Seq<crate::analysis::shape::StructView>, x: crate::analysis::shape::StructView, ic: bool)
    requires
        structs_ok(f, ic),
        struct_entry_ok(x, ic),
    ensures
        structs_ok(f.push(x), ic),
{
    assert forall|j: int| 0 <= j < f.push(x).len() implies struct_entry_ok(#[trigger] f.push(x)[j], ic) by {
        if j < f.len() {
            assert(f.push(x)[j] == f[j]);
        }
    }
}

proof fn lemma_push_property(f: Seq<crate::analysis::shape::PropertyView>, x: crate::analysis::shape::PropertyView)
    requires
        properties_ok(f),
        property_entry_ok(x),
    ensures
        properties_ok(f.push(x)),
{
    assert forall|j: int| 0 <= j < f.push(x).len() implies property_entry_ok(#[trigger] f.push(x)[j]) by {
        if j < f.len() {
            assert(f.push(x)[j] == f[j]);
        }
    }
}

proof fn lemma_push_impl(f: Seq<crate::analysis::shape::ImplView>, x: crate::analysis::shape::ImplView, ic: bool)
    requires
        impls_ok(f, ic),
        impl_entry_ok(x, ic),
    ensures
        impls_ok(f.push(x), ic),
{
    assert forall|j: int| 0 <= j < f.push(x).len() implies impl_entry_ok(#[trigger] f.push(x)[j], ic) by {
        if j < f.len() {
            assert(f.push(x)[j] == f[j]);
        }
    }
}

proof fn lemma_push_trait(f: Seq<crate::analysis::shape::TraitView>, x: crate::analysis::shape::TraitView, ic: bool)
    requires
        traits_ok(f, ic),
        trait_entry_ok(x, ic),
    ensures
        traits_ok(f.push(x), ic),
{
    assert forall|j: int| 0 <= j < f.push(x).len() implies trait_entry_ok(#[trigger] f.push(x)[j], ic) by {
        if j < f.len() {
            assert(f.push(x)[j] == f[j]);
        }
    }
}

proof fn lemma_push_class(f: Seq<crate::analysis::shape::ClassView>, x: crate::analysis::shape::ClassView, ic: bool)
    requires
        classes_ok(f, ic),
        class_entry_ok(x, ic),
    ensures
        classes_ok(f.push(x), ic),
{
    assert forall|j: int| 0 <= j < f.push(x).len() implies class_entry_ok(#[trigger] f.push(x)[j], ic) by {
        if j < f.len() {
            assert(f.push(x)[j] == f[j]);
        }
    }
}

proof fn lemma_push_interface(f: Seq<crate::analysis::shape::InterfaceView>, x: crate::analysis::shape::InterfaceView, ic: bool)
    requires
        interfaces_ok(f, ic),
        interface_entry_ok(x, ic),
    ensures
        interfaces_ok(f.push(x), ic),
{
    assert forall|j: int| 0 <= j < f.push(x).len() implies interface_entry_ok(#[trigger] f.push(x)[j], ic) by {
        if j < f.len() {
            assert(f.push(x)[j] == f[j]);
        }
    }
}

proof fn lemma_node_lines(t: SyntaxTree, i: int)
    requires
        t.wf(),
        0 <= i < t.len(),
    ensures
        1 <= crate::analysis::shape::node_line(t, i) <= crate::analysis::shape::node_end_line(t, i),
{
    assert(t.nodes@[i].start_row < usize::MAX);
}

proof fn lemma_body_method_lines(t: SyntaxTree, cs: Seq<usize>, sig: bool, ic: bool)
    requires
        t.wf(),
        forall|j: int| 0 <= j < cs.len() ==> (#[trigger] cs[j]) < t.len(),
    ensures
        methods_ok(crate::analysis::rust_shape::body_methods(t, cs, sig, ic), ic),
    decreases cs.len(),
{
    if cs.len() > 0 {
        let rest = crate::analysis::rust_shape::body_methods(t, cs.drop_last(), sig, ic);
        assert forall|j: int| 0 <= j < cs.drop_last().len() implies (#[trigger] cs.drop_last()[j]) < t.len() by {
            assert(cs.drop_last()[j] == cs[j]);
        }
        lemma_body_method_lines(t, cs.drop_last(), sig, ic);
        let c = cs.last() as int;
        assert(cs[cs.len() - 1] < t.len());
        lemma_node_lines(t, c);
        let m = crate::analysis::rust_shape::rust_method(t, c, ic);
        lemma_push_method(rest, m, ic);
    }
}

proof fn lemma_first_with_field_in(t: SyntaxTree, cs: Seq<usize>, name: Seq<char>)
    requires
        forall|j: int| 0 <= j < cs.len() ==> (#[trigger] cs[j]) < t.len(),
    ensures
        t.first_with_field(cs, name) matches Some(c) ==> c < t.len(),
    decreases cs.len(),
{
    if cs.len() > 0 {
        assert(cs[0] < t.len());
        assert forall|j: int| 0 <= j < cs.drop_first().len() implies (#[trigger] cs.drop_first()[j]) < t.len() by {
            assert(cs.drop_first()[j] == cs[j + 1]);
        }
        lemma_first_with_field_in(t, cs.drop_first(), name);
    }
}

proof fn lemma_methods_in_body_lines(t: SyntaxTree, i: int, sig: bool, ic: bool)
    requires
        t.wf(),
        0 <= i < t.len(),
    ensures
        methods_ok(crate::analysis::rust_shape::methods_in_body(t, i, sig, ic), ic),
{
    match t.child_by_field(i, "body"@) {
        Some(b) => {
            t.lemma_children_follow(i);
            lemma_first_with_field_in(t, t.children(i), "body"@);
            t.lemma_children_follow(b as int);
            lemma_body_method_lines(t, t.children(b as int), sig, ic);
        },
        None => {},
    }
}

proof fn lemma_rust_lines(t: SyntaxTree, k: int, ic: bool)
    requires
        t.wf(),
        0 <= k <= t.len(),
    ensures
        functions_ok(crate::analysis::rust_shape::rust_functions(t, k, ic), ic),
        structs_ok(crate::analysis::rust_shape::rust_structs(t, k, ic), ic),
        impls_ok(crate::analysis::rust_shape::rust_impls(t, k, ic), ic),
        traits_ok(crate::analysis::rust_shape::rust_traits(t, k, ic), ic),
    decreases k,
{
    if k > 0 {
        lemma_rust_lines(t, k - 1, ic);
        lemma_node_lines(t, k - 1);
        lemma_methods_in_body_lines(t, k - 1, false, ic);
        lemma_methods_in_body_lines(t, k - 1, true, ic);
        lemma_push_function(
            crate::analysis::rust_shape::rust_functions(t, k - 1, ic),
            crate::analysis::rust_shape::rust_function(t, k - 1, ic),
            ic,
        );
        lemma_push_struct(
            crate::analysis::rust_shape::rust_structs(t, k - 1, ic),
            crate::analysis::rust_shape::rust_struct(t, k - 1, ic),
            ic,
        );
        lemma_push_impl(
            crate::analysis::rust_shape::rust_impls(t, k - 1, ic),
            crate::analysis::rust_shape::rust_impl(t, k - 1, ic),
            ic,
        );
        lemma_push_trait(
            crate::analysis::rust_shape::rust_traits(t, k - 1, ic),
            crate::analysis::rust_shape::rust_trait(t, k - 1, ic),
            ic,
        );
    }
}

proof fn lemma_in_range_drop_last(t: SyntaxTree, cs: Seq<usize>)
    requires
        cs.len() > 0,
        forall|j: int| 0 <= j < cs.len() ==> (#[trigger] cs[j]) < t.len(),
    ensures
        forall|j: int| 0 <= j < cs.drop_last().len() ==> (#[trigger] cs.drop_last()[j]) < t.len(),
        cs.last() < t.len(),
{
    assert forall|j: int| 0 <= j < cs.drop_last().len() implies (#[trigger] cs.drop_last()[j]) < t.len() by {
        assert(cs.drop_last()[j] == cs[j]);
    }
    assert(cs[cs.len() - 1] < t.len());
}

proof fn lemma_class_methods_in_lines(t: SyntaxTree, cs: Seq<usize>, l: crate::parser::Language, ic: bool)
    requires
        t.wf(),
        forall|j: int| 0 <= j < cs.len() ==> (#[trigger] cs[j]) < t.len(),
    ensures
        functions_ok(crate::analysis::shape::class_methods_in(t, cs, l, ic), ic),
    decreases cs.len(),
{
    if cs.len() > 0 {
        lemma_in_range_drop_last(t, cs);
        lemma_class_methods_in_lines(t, cs.drop_last(), l, ic);
        lemma_node_lines(t, cs.last() as int);
        let rest = crate::analysis::shape::class_methods_in(t, cs.drop_last(), l, ic);
        lemma_push_function(rest, crate::analysis::shape::function_entry(t, cs.last() as int, l, ic), ic);
    }
}

proof fn lemma_interface_members_lines(t: SyntaxTree, cs: Seq<usize>, ic: bool)
    requires
        t.wf(),
        forall|j: int| 0 <= j < cs.len() ==> (#[trigger] cs[j]) < t.len(),
    ensures
        functions_ok(crate::analysis::script_shape::interface_members(t, cs, ic), ic),
    decreases cs.len(),
{
    if cs.len() > 0 {
        lemma_in_range_drop_last(t, cs);
        lemma_interface_members_lines(t, cs.drop_last(), ic);
        lemma_node_lines(t, cs.last() as int);
        let rest = crate::analysis::script_shape::interface_members(t, cs.drop_last(), ic);
        lemma_push_function(
            rest,
            crate::analysis::shape::function_entry(t, cs.last() as int, crate::parser::Language::TypeScript, ic),
            ic,
        );
    }
}

/// The `body` child of node `i`, where there is one, is a node of the tree
/// whose children are nodes of the tree.
proof fn lemma_body_in(t: SyntaxTree, i: int)
    requires
        t.wf(),
        0 <= i < t.len(),
    ensures
        t.child_by_field(i, "body"@) matches Some(b) ==> b < t.len() && forall|j: int|
            0 <= j < t.children(b as int).len() ==> (#[trigger] t.children(b as int)[j]) < t.len(),
{
    t.lemma_children_follow(i);
    lemma_first_with_field_in(t, t.children(i), "body"@);
    match t.child_by_field(i, "body"@) {
        Some(b) => t.lemma_children_follow(b as int),
        None => {},
    }
}

proof fn lemma_class_entry_lines(t: SyntaxTree, i: int, l: crate::parser::Language, ic: bool)
    requires
        t.wf(),
        0 <= i < t.len(),
    ensures
        class_entry_ok(crate::analysis::script_shape::class_entry(t, i, l, ic), ic),
{
    lemma_node_lines(t, i);
    lemma_body_in(t, i);
    match t.child_by_field(i, "body"@) {
        Some(b) => lemma_class_methods_in_lines(t, t.children(b as int), l, ic),
        None => {},
    }
}

proof fn lemma_script_lines(t: SyntaxTree, k: int, l: crate::parser::Language, ic: bool)
    requires
        t.wf(),
        0 <= k <= t.len(),
    ensures
        functions_ok(crate::analysis::script_shape::python_functions(t, k, ic), ic),
        classes_ok(crate::analysis::script_shape::python_classes(t, k, ic), ic),
        functions_ok(crate::analysis::script_shape::js_functions(t, k, l, ic), ic),
        classes_ok(crate::analysis::script_shape::js_classes(t, k, l, ic), ic),
        interfaces_ok(crate::analysis::script_shape::js_interfaces(t, k, l, ic), ic),
    decreases k,
{
    if k > 0 {
        let i = k - 1;
        lemma_script_lines(t, i, l, ic);
        lemma_node_lines(t, i);
        lemma_body_in(t, i);
        lemma_push_function(
            crate::analysis::script_shape::python_functions(t, i, ic),
            crate::analysis::shape::function_entry(t, i, crate::parser::Language::Python, ic),
            ic,
        );
        lemma_class_entry_lines(t, i, crate::parser::Language::Python, ic);
        lemma_push_class(
            crate::analysis::script_shape::python_classes(t, i, ic),
            crate::analysis::script_shape::class_entry(t, i, crate::parser::Language::Python, ic),
            ic,
        );
        let dl = crate::analysis::script_shape::js_doc_language(l);
        lemma_push_function(
            crate::analysis::script_shape::js_functions(t, i, l, ic),
            crate::analysis::shape::function_entry(t, i, dl, ic),
            ic,
        );
        lemma_class_entry_lines(t, i, dl, ic);
        lemma_push_class(
            crate::analysis::script_shape::js_classes(t, i, l, ic),
            crate::analysis::script_shape::class_entry(t, i, dl, ic),
            ic,
        );
        match t.child_by_field(i, "body"@) {
            Some(b) => lemma_interface_members_lines(t, t.children(b as int), ic),
            None => {},
        }
        lemma_push_interface(
            crate::analysis::script_shape::js_interfaces(t, i, l, ic),
            crate::analysis::script_shape::interface_entry(t, i, ic),
            ic,
        );
    }
}

proof fn lemma_swift_lines(t: SyntaxTree, k: int, ic: bool)
    requires
        t.wf(),
        0 <= k <= t.len(),
    ensures
        functions_ok(crate::analysis::typed_shape::swift_functions(t, k, ic), ic),
        structs_ok(crate::analysis::typed_shape::swift_structs(t, k, ic), ic),
        classes_ok(crate::analysis::typed_shape::swift_classes(t, k, ic), ic),
        traits_ok(crate::analysis::typed_shape::swift_traits(t, k, ic), ic),
    decreases k,
{
    if k > 0 {
        let i = k - 1;
        let sw = crate::parser::Language::Swift;
        lemma_swift_lines(t, i, ic);
        lemma_node_lines(t, i);
        lemma_push_function(
            crate::analysis::typed_shape::swift_functions(t, i, ic),
            crate::analysis::shape::function_entry(t, i, sw, ic),
            ic,
        );
        lemma_push_struct(
            crate::analysis::typed_shape::swift_structs(t, i, ic),
            (
                crate::analysis::shape::field_text_or(t, i, "name"@, ""@),
                crate::analysis::shape::node_line(t, i),
                crate::analysis::shape::node_end_line(t, i),
                crate::analysis::shape::doc_comment(t, i, sw),
                crate::analysis::shape::code_if(t, i, ic),
            ),
            ic,
        );
        lemma_class_entry_lines(t, i, sw, ic);
        lemma_push_class(
            crate::analysis::typed_shape::swift_classes(t, i, ic),
            crate::analysis::script_shape::class_entry(t, i, sw, ic),
            ic,
        );
        let ms = crate::analysis::shape::class_methods(t, i, sw, ic);
        let mm = ms.map_values(|f: FunctionView| crate::analysis::typed_shape::as_method(f));
        assert forall|j: int| 0 <= j < mm.len() implies method_entry_ok(#[trigger] mm[j], ic) by {
            assert(mm[j] == crate::analysis::typed_shape::as_method(ms[j]));
        }
        lemma_push_trait(
            crate::analysis::typed_shape::swift_traits(t, i, ic),
            (
                crate::analysis::shape::field_text_or(t, i, "name"@, ""@),
                crate::analysis::shape::node_line(t, i),
                crate::analysis::shape::node_end_line(t, i),
                crate::analysis::shape::doc_comment(t, i, sw),
                mm,
            ),
            ic,
        );
    }
}

proof fn lemma_named_children_lines(
    t: SyntaxTree,
    cs: Seq<usize>,
    kind: Seq<char>,
    l: crate::parser::Language,
    ic: bool,
)
    requires
        t.wf(),
        forall|j: int| 0 <= j < cs.len() ==> (#[trigger] cs[j]) < t.len(),
    ensures
        functions_ok(crate::analysis::typed_shape::named_children_entries(t, cs, kind, l, ic), ic),
    decreases cs.len(),
{
    if cs.len() > 0 {
        lemma_in_range_drop_last(t, cs);
        lemma_named_children_lines(t, cs.drop_last(), kind, l, ic);
        lemma_node_lines(t, cs.last() as int);
        lemma_push_function(
            crate::analysis::typed_shape::named_children_entries(t, cs.drop_last(), kind, l, ic),
            crate::analysis::typed_shape::member_entry(t, cs.last() as int, l, ic),
            ic,
        );
    }
}

proof fn lemma_member_lines(t: SyntaxTree, k: int, l: crate::parser::Language, ic: bool)
    requires
        t.wf(),
        0 <= k <= t.len(),
    ensures
        functions_ok(crate::analysis::typed_shape::member_functions(t, k, l, ic), ic),
        classes_ok(crate::analysis::typed_shape::member_classes(t, k, l, ic), ic),
        interfaces_ok(crate::analysis::typed_shape::member_interfaces(t, k, l, ic), ic),
        properties_ok(crate::analysis::typed_shape::csharp_properties(t, k)),
    decreases k,
{
    if k > 0 {
        let i = k - 1;
        lemma_member_lines(t, i, l, ic);
        lemma_node_lines(t, i);
        lemma_body_in(t, i);
        match t.child_by_field(i, "body"@) {
            Some(b) => lemma_named_children_lines(t, t.children(b as int), "method_declaration"@, l, ic),
            None => {},
        }
        lemma_push_function(
            crate::analysis::typed_shape::member_functions(t, i, l, ic),
            crate::analysis::typed_shape::member_entry(t, i, l, ic),
            ic,
        );
        lemma_push_class(
            crate::analysis::typed_shape::member_classes(t, i, l, ic),
            crate::analysis::typed_shape::typed_class(t, i, l, ic),
            ic,
        );
        lemma_push_interface(
            crate::analysis::typed_shape::member_interfaces(t, i, l, ic),
            crate::analysis::typed_shape::typed_interface(t, i, l, ic),
            ic,
        );
        lemma_push_property(
            crate::analysis::typed_shape::csharp_properties(t, i),
            (
                crate::analysis::shape::field_text_or(t, i, "name"@, ""@),
                crate::analysis::shape::node_line(t, i),
                crate::analysis::shape::node_end_line(t, i),
                match t.child_by_field(i, "type"@) {
                    Some(n) => Some(t.text(n as int)),
                    None => None,
                },
                crate::analysis::shape::doc_comment(t, i, crate::parser::Language::CSharp),
            ),
        );
    }
}

proof fn lemma_ancestor_in(t: SyntaxTree, i: int, kind: Seq<char>)
    ensures
        t.ancestor_of_kind(i, kind) matches Some(d) ==> d < t.len(),
    decreases i,
{
    if 0 <= i < t.len() {
        match t.parent(i) {
            Some(p) => if p < i {
                lemma_ancestor_in(t, p as int, kind);
            },
            None => {},
        }
    }
}

proof fn lemma_index_in_range(cs: Seq<usize>, x: usize)
    ensures
        crate::syntax::index_in(cs, x) < cs.len(),
    decreases cs.len(),
{
    if cs.len() > 0 {
        lemma_index_in_range(cs.drop_first(), x);
    }
}

proof fn lemma_go_function_line(t: SyntaxTree, i: int)
    requires
        t.wf(),
        0 <= i < t.len(),
    ensures
        1 <= crate::analysis::typed_shape::go_function_line(t, i) <= crate::analysis::shape::node_end_line(
            t,
            i,
        ),
{
    lemma_node_lines(t, i);
    let sb = t.siblings_before(i);
    match t.parent(i) {
        Some(p) => {
            assert(i > 0);
            assert(t.nodes@[i].parent matches Some(q) && q < i);
            t.lemma_children_follow(p as int);
            let cs = t.children(p as int);
            let k = crate::syntax::index_in(cs, i as usize);
            lemma_index_in_range(cs, i as usize);
            if k >= 0 && sb.len() > 0 {
                assert(sb == cs.take(k));
                assert(sb.last() == cs[sb.len() - 1]);
                lemma_node_lines(t, sb.last() as int);
            }
        },
        None => {},
    }
}

proof fn lemma_go_lines(t: SyntaxTree, k: int, ic: bool)
    requires
        t.wf(),
        0 <= k <= t.len(),
    ensures
        functions_ok(crate::analysis::typed_shape::go_functions(t, k, ic), ic),
        structs_ok(crate::analysis::typed_shape::go_types(t, k, ic).0, ic),
        traits_ok(crate::analysis::typed_shape::go_types(t, k, ic).1, ic),
    decreases k,
{
    if k > 0 {
        let i = k - 1;
        lemma_go_lines(t, i, ic);
        lemma_go_function_line(t, i);
        let f = crate::analysis::shape::function_entry(t, i, crate::parser::Language::Go, ic);
        lemma_push_function(
            crate::analysis::typed_shape::go_functions(t, i, ic),
            (f.0, f.1, crate::analysis::typed_shape::go_function_line(t, i), f.3, f.4, f.5, f.6),
            ic,
        );
        lemma_ancestor_in(t, i, "type_declaration"@);
        match t.ancestor_of_kind(i, "type_declaration"@) {
            Some(d) => {
                lemma_node_lines(t, d as int);
                let r = crate::analysis::typed_shape::go_types(t, i, ic);
                let name = crate::analysis::shape::field_text_or(t, i, "name"@, ""@);
                let line = crate::analysis::shape::node_line(t, d as int);
                let end = crate::analysis::shape::node_end_line(t, d as int);
                let doc = crate::analysis::shape::doc_comment(t, d as int, crate::parser::Language::Go);
                lemma_push_struct(r.0, (name, line, end, doc, crate::analysis::shape::code_if(t, d as int, ic)), ic);
                lemma_push_trait(r.1, (name, line, end, doc, seq![]), ic);
            },
            None => {},
        }
    }
}

/// What is gathered of a Haskell function starts on a line from 1 on and
/// no later than its end line.
pub open spec fn acc_lines_ordered(a: crate::analysis::haskell_shape::FnAccView) -> bool {
    &&& 1 <= a.4
    &&& a.2 matches Some(l) ==> 1 <= l <= a.4
    &&& a.3 matches Some(l) ==> 1 <= l <= a.4
}

proof fn lemma_hs_accs_lines(t: SyntaxTree, k: int)
    requires
        t.wf(),
        0 <= k <= t.len(),
    ensures
        forall|j: int|
            0 <= j < crate::analysis::haskell_shape::hs_accs(t, k).len() ==> acc_lines_ordered(
                #[trigger] crate::analysis::haskell_shape::hs_accs(t, k)[j],
            ),
    decreases k,
{
    if k > 0 {
        let i = k - 1;
        lemma_hs_accs_lines(t, i);
        lemma_node_lines(t, i);
        let accs = crate::analysis::haskell_shape::hs_accs(t, i);
        let name = crate::analysis::shape::field_text_or(t, i, "name"@, ""@);
        lemma_acc_index(accs, name);
        let n = crate::analysis::haskell_shape::hs_step(t, accs, i);
        assert forall|j: int| 0 <= j < n.len() implies acc_lines_ordered(#[trigger] n[j]) by {
            if j < accs.len() {
                assert(acc_lines_ordered(accs[j]));
            }
        }
    }
}

proof fn lemma_acc_index(accs: Seq<crate::analysis::haskell_shape::FnAccView>, name: Seq<char>)
    ensures
        -1 <= crate::analysis::haskell_shape::acc_index(accs, name) < accs.len(),
    decreases accs.len(),
{
    if accs.len() > 0 {
        lemma_acc_index(accs.drop_last(), name);
    }
}

proof fn lemma_sort_by_line_lines(s: Seq<FunctionView>, ic: bool)
    requires
        functions_ok(s, ic),
    ensures
        functions_ok(crate::analysis::haskell_shape::sort_by_line(s), ic),
    decreases s.len(),
{
    if s.len() > 0 {
        assert(functions_ok(s.drop_last(), ic)) by {
            assert forall|j: int| 0 <= j < s.drop_last().len() implies function_entry_ok(
                #[trigger] s.drop_last()[j],
                ic,
            ) by {
                assert(s.drop_last()[j] == s[j]);
            }
        }
        lemma_sort_by_line_lines(s.drop_last(), ic);
        let r = crate::analysis::haskell_shape::sort_by_line(s.drop_last());
        let x = s[s.len() - 1];
        crate::analysis::haskell_shape::lemma_line_slot(r, x.2);
        let p = crate::analysis::haskell_shape::line_slot(r, x.2);
        assert forall|j: int| 0 <= j < r.insert(p, x).len() implies function_entry_ok(
            #[trigger] r.insert(p, x)[j],
            ic,
        ) by {
            if j < p {
                assert(r.insert(p, x)[j] == r[j]);
            } else if j > p {
                assert(r.insert(p, x)[j] == r[j - 1]);
            }
        }
    }
}

proof fn lemma_haskell_lines(t: SyntaxTree, k: int, ic: bool)
    requires
        t.wf(),
        0 <= k <= t.len(),
    ensures
        structs_ok(crate::analysis::haskell_shape::hs_structs(t, k, ic), ic),
        traits_ok(crate::analysis::haskell_shape::hs_traits(t, k), ic),
    decreases k,
{
    if k > 0 {
        let i = k - 1;
        lemma_haskell_lines(t, i, ic);
        lemma_node_lines(t, i);
        let name = crate::analysis::shape::field_text_or(t, i, "name"@, ""@);
        let line = crate::analysis::shape::node_line(t, i);
        let end = crate::analysis::shape::node_end_line(t, i);
        let doc = crate::analysis::haskell_shape::haddock_doc(t, i);
        lemma_push_struct(
            crate::analysis::haskell_shape::hs_structs(t, i, ic),
            (name, line, end, doc, crate::analysis::shape::code_if(t, i, ic)),
            ic,
        );
        lemma_push_trait(crate::analysis::haskell_shape::hs_traits(t, i), (name, line, end, doc, seq![]), ic);
    }
}

proof fn lemma_hs_functions_lines(t: SyntaxTree, ic: bool)
    requires
        t.wf(),
    ensures
        functions_ok(crate::analysis::haskell_shape::hs_functions(t, ic), ic),
{
    lemma_hs_accs_lines(t, t.len());
    let accs = crate::analysis::haskell_shape::hs_accs(t, t.len());
    let fs = accs.map_values(
        |a: crate::analysis::haskell_shape::FnAccView| crate::analysis::haskell_shape::hs_function(t, a, ic),
    );
    assert forall|j: int| 0 <= j < fs.len() implies function_entry_ok(#[trigger] fs[j], ic) by {
        assert(acc_lines_ordered(accs[j]));
        assert(fs[j] == crate::analysis::haskell_shape::hs_function(t, accs[j], ic));
    }
    lemma_sort_by_line_lines(fs, ic);
}

/// In the shape of a parsed file, every function, struct, class, impl
/// block, trait, interface and property, and every method, property and
/// field nested in them, begins on a line from 1 on and ends on that line
/// or later; and without code asked for, no entry carries code.
pub proof fn law_entry_lines(
    s: crate::analysis::shape::EnhancedFileShape,
    t: SyntaxTree,
    l: crate::parser::Language,
    ic: bool,
)
    requires
        t.wf(),
        crate::analysis::shape::shape_lists(s, t, l, ic),
    ensures
        functions_ok(crate::analysis::shape::function_views(s.functions@), ic),
        structs_ok(crate::analysis::shape::struct_views(s.structs@), ic),
        classes_ok(crate::analysis::shape::class_views(s.classes@), ic),
        impls_ok(crate::analysis::shape::impl_views(s.impl_blocks@), ic),
        traits_ok(crate::analysis::shape::trait_views(s.traits@), ic),
        interfaces_ok(crate::analysis::shape::interface_views(s.interfaces@), ic),
        properties_ok(crate::analysis::shape::property_views(s.properties@)),
{
    lemma_rust_lines(t, t.len(), ic);
    lemma_script_lines(t, t.len(), l, ic);
    lemma_swift_lines(t, t.len(), ic);
    lemma_member_lines(t, t.len(), l, ic);
    lemma_go_lines(t, t.len(), ic);
    lemma_haskell_lines(t, t.len(), ic);
    lemma_hs_functions_lines(t, ic);
}

} // verus!
