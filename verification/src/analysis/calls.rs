//! Calls in a syntax tree: which nodes are calls, the name each calls, the
//! names called within a line range, and the lines that call a name.
use vstd::prelude::*;
use crate::analysis::find_usages::ident_kind;
use crate::extraction::typed_types::{lemma_named_of_children, named_children_of, named_of};
use crate::parser::Language;
use crate::syntax::SyntaxTree;
use crate::text::{chars_of, ends_with, ends_with_lit, eq_lit, views};

verus! {

/// Kinds of call nodes in `l`.
pub open spec fn call_kind(k: Seq<char>, l: Language) -> bool {
    match l {
        Language::Rust => k == "call_expression"@ || k == "method_call_expression"@,
        Language::Python => k == "call"@,
        Language::JavaScript | Language::TypeScript | Language::Go => k == "call_expression"@,
        Language::Java | Language::CSharp | Language::Swift => ends_with(k, "invocation"@),
        Language::Haskell => k == "apply"@,
        Language::Html | Language::Css => false,
    }
}

/// Whether `kind` is a call node in `language`.
pub fn is_call_node(kind: &str, language: Language) -> (r: bool)
    ensures
        r == call_kind(kind@, language),
{
    let k = chars_of(kind);
    let s = k.as_slice();
    match language {
        Language::Rust => eq_lit(s, "call_expression") || eq_lit(s, "method_call_expression"),
        Language::Python => eq_lit(s, "call"),
        Language::JavaScript | Language::TypeScript | Language::Go => eq_lit(s, "call_expression"),
        Language::Java | Language::CSharp | Language::Swift => ends_with_lit(s, "invocation"),
        Language::Haskell => eq_lit(s, "apply"),
        Language::Html | Language::Css => false,
    }
}

// ---------------------------------------------------------------------------
// Names of calls
// ---------------------------------------------------------------------------

/// The last identifier at or under node `n`: its own text if it is an
/// identifier, else the last identifier found under its named children.
pub open spec fn last_ident(t: SyntaxTree, n: int) -> Option<Seq<char>>
    decreases t.len() - n, 1int, 0int,
{
    if n < 0 || n >= t.len() {
        None
    } else if ident_kind(t.kind(n)) {
        Some(t.text(n))
    } else {
        last_ident_among(t, n, named_of(t, t.children(n)))
    }
}

/// The last identifier under the nodes `cs` (children of `n`), looking from
/// the last of them.
pub open spec fn last_ident_among(t: SyntaxTree, n: int, cs: Seq<usize>) -> Option<Seq<char>>
    decreases t.len() - n, 0int, cs.len(),
{
    if cs.len() == 0 || n < 0 {
        None
    } else if n < cs.last() < t.len() {
        match last_ident(t, cs.last() as int) {
            Some(x) => Some(x),
            None => last_ident_among(t, n, cs.drop_last()),
        }
    } else {
        last_ident_among(t, n, cs.drop_last())
    }
}

/// The last identifier at or under node `n` (see `last_ident`).
pub fn last_identifier_text(tree: &SyntaxTree, n: usize) -> (r: Option<String>)
    requires
        tree.wf(),
        n < tree.len(),
    ensures
        crate::analysis::shape::opt_view(r) == last_ident(*tree, n as int),
    decreases tree.len() - n,
{
    let kind = chars_of(tree.nodes[n].kind.as_str());
    if eq_lit(kind.as_slice(), "identifier") || ends_with_lit(kind.as_slice(), "_identifier") {
        return Some(tree.node_text(n));
    }
    let cs = named_children_of(tree, n);
    proof {
        tree.lemma_children(n as int, tree.len());
        lemma_named_of_children(*tree, n as int, tree.children(n as int));
    }
    let mut k = cs.len();
    assert(cs@.take(k as int) =~= cs@);
    while k > 0
        invariant
            tree.wf(),
            n < tree.len(),
            cs@ == named_of(*tree, tree.children(n as int)),
            forall|j: int| 0 <= j < cs@.len() ==> n < (#[trigger] cs@[j]) < tree.len(),
            k <= cs@.len(),
            last_ident(*tree, n as int) == last_ident_among(*tree, n as int, cs@.take(k as int)),
        decreases k,
    {
        let c = cs[k - 1];
        assert(cs@.take(k as int).last() == c);
        assert(cs@.take(k as int).drop_last() =~= cs@.take(k - 1));
        if let Some(x) = last_identifier_text(tree, c) {
            return Some(x);
        }
        k = k - 1;
    }
    None
}

/// The name a Haskell call head calls: its own text if it is a variable or
/// constructor, else the last variable or constructor under it (so that a
/// qualified name gives its last part).
pub open spec fn callee_name(t: SyntaxTree, n: int) -> Option<Seq<char>>
    decreases t.len() - n, 1int, 0int,
{
    if n < 0 || n >= t.len() {
        None
    } else if t.kind(n) == "variable"@ || t.kind(n) == "constructor"@ {
        Some(t.text(n))
    } else {
        callee_name_among(t, n, named_of(t, t.children(n)))
    }
}

pub open spec fn callee_name_among(t: SyntaxTree, n: int, cs: Seq<usize>) -> Option<Seq<char>>
    decreases t.len() - n, 0int, cs.len(),
{
    if cs.len() == 0 || n < 0 {
        None
    } else if n < cs.last() < t.len() {
        match callee_name(t, cs.last() as int) {
            Some(x) => Some(x),
            None => callee_name_among(t, n, cs.drop_last()),
        }
    } else {
        callee_name_among(t, n, cs.drop_last())
    }
}

/// The name a Haskell call head calls (see `callee_name`).
pub fn haskell_callee_name(tree: &SyntaxTree, n: usize) -> (r: Option<String>)
    requires
        tree.wf(),
        n < tree.len(),
    ensures
        crate::analysis::shape::opt_view(r) == callee_name(*tree, n as int),
    decreases tree.len() - n,
{
    if tree.kind_is(n, "variable") || tree.kind_is(n, "constructor") {
        return Some(tree.node_text(n));
    }
    let cs = named_children_of(tree, n);
    proof {
        tree.lemma_children(n as int, tree.len());
        lemma_named_of_children(*tree, n as int, tree.children(n as int));
    }
    let mut k = cs.len();
    assert(cs@.take(k as int) =~= cs@);
    while k > 0
        invariant
            tree.wf(),
            n < tree.len(),
            cs@ == named_of(*tree, tree.children(n as int)),
            forall|j: int| 0 <= j < cs@.len() ==> n < (#[trigger] cs@[j]) < tree.len(),
            k <= cs@.len(),
            callee_name(*tree, n as int) == callee_name_among(*tree, n as int, cs@.take(k as int)),
        decreases k,
    {
        let c = cs[k - 1];
        assert(cs@.take(k as int).last() == c);
        assert(cs@.take(k as int).drop_last() =~= cs@.take(k - 1));
        if let Some(x) = haskell_callee_name(tree, c) {
            return Some(x);
        }
        k = k - 1;
    }
    None
}

/// The head of a curried Haskell application: down the `function` children
/// while they are applications.
pub open spec fn apply_head(t: SyntaxTree, i: int) -> int
    decreases t.len() - i,
{
    if 0 <= i < t.len() && t.kind(i) == "apply"@ {
        match t.child_by_field(i, "function"@) {
            Some(f) => if i < f < t.len() {
                apply_head(t, f as int)
            } else {
                i
            },
            None => i,
        }
    } else {
        i
    }
}

/// The name a Haskell application calls (see `apply_head`, `callee_name`).
pub fn haskell_call_name(tree: &SyntaxTree, i: usize) -> (r: Option<String>)
    requires
        tree.wf(),
        i < tree.len(),
    ensures
        crate::analysis::shape::opt_view(r) == callee_name(*tree, apply_head(*tree, i as int)),
{
    let mut head = i;
    let mut done = false;
    while !done
        invariant
            tree.wf(),
            head < tree.len(),
            apply_head(*tree, i as int) == apply_head(*tree, head as int),
            done ==> apply_head(*tree, head as int) == head,
        decreases 2 * (tree.len() - head) + (if done { 0int } else { 1int }),
    {
        if !tree.kind_is(head, "apply") {
            done = true;
        } else {
            match tree.child_by_field_name(head, "function") {
                Some(f) => {
                    proof {
                        tree.lemma_children_follow(head as int);
                        lemma_first_with_field_child(*tree, tree.children(head as int), head as int);
                    }
                    head = f;
                },
                None => {
                    done = true;
                },
            }
        }
    }
    haskell_callee_name(tree, head)
}

proof fn lemma_first_with_field_child(t: SyntaxTree, cs: Seq<usize>, p: int)
    requires
        t.wf(),
        0 <= p < t.len(),
        forall|j: int| 0 <= j < cs.len() ==> p < #[trigger] cs[j] < t.len(),
    ensures
        t.first_with_field(cs, "function"@) matches Some(f) ==> p < f < t.len(),
    decreases cs.len(),
{
    if cs.len() > 0 {
        assert(cs[0] == cs[0]);
        let d = cs.drop_first();
        assert forall|j: int| 0 <= j < d.len() implies p < #[trigger] d[j] < t.len() by {
            assert(d[j] == cs[j + 1]);
        }
        lemma_first_with_field_child(t, d, p);
    }
}

/// The fields that name what a call calls, in the order they are tried.
pub open spec fn call_fields() -> Seq<Seq<char>> {
    seq!["function"@, "name"@, "method"@, "field"@]
}

/// The first of `fields` whose child of `i` has an identifier under it.
pub open spec fn ident_in_fields(t: SyntaxTree, i: int, fields: Seq<Seq<char>>) -> Option<Seq<char>>
    decreases fields.len(),
{
    if fields.len() == 0 {
        None
    } else {
        let r = match t.child_by_field(i, fields[0]) {
            Some(c) => last_ident(t, c as int),
            None => None,
        };
        match r {
            Some(x) => Some(x),
            None => ident_in_fields(t, i, fields.drop_first()),
        }
    }
}

/// The first of the nodes `cs` with an identifier under it.
pub open spec fn first_ident_among(t: SyntaxTree, cs: Seq<usize>) -> Option<Seq<char>>
    decreases cs.len(),
{
    if cs.len() == 0 {
        None
    } else {
        match last_ident(t, cs[0] as int) {
            Some(x) => Some(x),
            None => first_ident_among(t, cs.drop_first()),
        }
    }
}

/// The name call node `i` calls: for a Haskell application the name of its
/// head (none for an inner application of a curried spine); else the last
/// identifier of its `function`, `name`, `method` or `field` child, tried in
/// that order, else of its first named child that has one.
pub open spec fn call_target(t: SyntaxTree, i: int) -> Option<Seq<char>> {
    if t.kind(i) == "apply"@ {
        let inner = match t.parent(i) {
            Some(p) => t.kind(p as int) == "apply"@ && t.child_by_field(p as int, "function"@) == Some(
                i as usize,
            ),
            None => false,
        };
        if inner {
            None
        } else {
            callee_name(t, apply_head(t, i))
        }
    } else {
        match ident_in_fields(t, i, call_fields()) {
            Some(x) => Some(x),
            None => first_ident_among(t, named_of(t, t.children(i))),
        }
    }
}

/// The name call node `i` calls (see `call_target`).
pub fn call_name(tree: &SyntaxTree, i: usize) -> (r: Option<String>)
    requires
        tree.wf(),
        i < tree.len(),
    ensures
        crate::analysis::shape::opt_view(r) == call_target(*tree, i as int),
{
    if tree.kind_is(i, "apply") {
        if let Some(p) = tree.nodes[i].parent {
            if tree.kind_is(p, "apply") && tree.child_by_field_name(p, "function") == Some(i) {
                return None;
            }
        }
        proof {
            lemma_apply_head_bound(*tree, i as int);
        }
        return haskell_call_name(tree, i);
    }
    let fields: Vec<&str> = vec!["function", "name", "method", "field"];
    assert(fields@.map_values(|s: &str| s@) =~= call_fields()) by {
        reveal_strlit("function");
        reveal_strlit("name");
        reveal_strlit("method");
        reveal_strlit("field");
    }
    let mut q: usize = 0;
    assert(call_fields().skip(0) =~= call_fields());
    while q < fields.len()
        invariant
            tree.wf(),
            i < tree.len(),
            tree.kind(i as int) != "apply"@,
            fields@.map_values(|s: &str| s@) == call_fields(),
            q <= fields@.len(),
            ident_in_fields(*tree, i as int, call_fields()) == ident_in_fields(
                *tree,
                i as int,
                call_fields().skip(q as int),
            ),
        decreases fields@.len() - q,
    {
        assert(call_fields().skip(q as int)[0] == fields@[q as int]@);
        assert(call_fields().skip(q as int).drop_first() =~= call_fields().skip(q + 1));
        if let Some(c) = tree.child_by_field_name(i, fields[q]) {
            if let Some(x) = last_identifier_text(tree, c) {
                return Some(x);
            }
        }
        q = q + 1;
    }
    assert(call_fields().skip(fields@.len() as int) =~= Seq::<Seq<char>>::empty());
    let cs = named_children_of(tree, i);
    let mut k: usize = 0;
    assert(cs@.skip(0) =~= cs@);
    while k < cs.len()
        invariant
            tree.wf(),
            i < tree.len(),
            tree.kind(i as int) != "apply"@,
            ident_in_fields(*tree, i as int, call_fields()) is None,
            cs@ == named_of(*tree, tree.children(i as int)),
            forall|j: int| 0 <= j < cs@.len() ==> (#[trigger] cs@[j]) < tree.len(),
            k <= cs@.len(),
            first_ident_among(*tree, cs@) == first_ident_among(*tree, cs@.skip(k as int)),
        decreases cs@.len() - k,
    {
        assert(cs@.skip(k as int)[0] == cs@[k as int]);
        assert(cs@.skip(k as int).drop_first() =~= cs@.skip(k + 1));
        if let Some(x) = last_identifier_text(tree, cs[k]) {
            return Some(x);
        }
        k = k + 1;
    }
    None
}

proof fn lemma_apply_head_bound(t: SyntaxTree, i: int)
    requires
        0 <= i < t.len(),
    ensures
        0 <= apply_head(t, i) < t.len(),
    decreases t.len() - i,
{
    if t.kind(i) == "apply"@ {
        if let Some(f) = t.child_by_field(i, "function"@) {
            if i < f < t.len() {
                lemma_apply_head_bound(t, f as int);
            }
        }
    }
}

// ---------------------------------------------------------------------------
// Calls within a range, call sites
// ---------------------------------------------------------------------------

/// The names called at or under node `n` whose rows meet rows
/// `start_row..=end_row` (subtrees outside the range are not entered), in
/// preorder, repeats included.
pub open spec fn calls_in(t: SyntaxTree, n: int, l: Language, start_row: int, end_row: int) -> Seq<
    Seq<char>,
>
    decreases t.len() - n, 1int, 0int,
{
    if n < 0 || n >= t.len() || t.nodes@[n].end_row < start_row || t.nodes@[n].start_row > end_row {
        seq![]
    } else {
        let own = if call_kind(t.kind(n), l) {
            match call_target(t, n) {
                Some(x) => seq![x],
                None => seq![],
            }
        } else {
            seq![]
        };
        own + calls_in_among(t, n, named_of(t, t.children(n)), l, start_row, end_row)
    }
}

pub open spec fn calls_in_among(
    t: SyntaxTree,
    n: int,
    cs: Seq<usize>,
    l: Language,
    start_row: int,
    end_row: int,
) -> Seq<Seq<char>>
    decreases t.len() - n, 0int, cs.len(),
{
    if cs.len() == 0 || n < 0 {
        seq![]
    } else if n < cs.last() < t.len() {
        calls_in_among(t, n, cs.drop_last(), l, start_row, end_row) + calls_in(
            t,
            cs.last() as int,
            l,
            start_row,
            end_row,
        )
    } else {
        calls_in_among(t, n, cs.drop_last(), l, start_row, end_row)
    }
}

/// `s` without repeats, each kept at its first place.
pub open spec fn dedup_first(s: Seq<Seq<char>>) -> Seq<Seq<char>>
    decreases s.len(),
{
    if s.len() == 0 {
        seq![]
    } else {
        let r = dedup_first(s.drop_last());
        if r.contains(s.last()) {
            r
        } else {
            r.push(s.last())
        }
    }
}

fn push_calls_in(
    tree: &SyntaxTree,
    n: usize,
    language: Language,
    start_row: usize,
    end_row: usize,
    out: &mut Vec<String>,
)
    requires
        tree.wf(),
        n < tree.len(),
    ensures
        views(final(out)@) == views(old(out)@) + calls_in(
            *tree,
            n as int,
            language,
            start_row as int,
            end_row as int,
        ),
    decreases tree.len() - n,
{
    let ghost start = views(out@);
    let node = &tree.nodes[n];
    if node.end_row < start_row || node.start_row > end_row {
        assert(start + seq![] =~= start);
        return;
    }
    if is_call_node(tree.nodes[n].kind.as_str(), language) {
        if let Some(x) = call_name(tree, n) {
            out.push(x);
            assert(views(out@) =~= start.push(x@));
        }
    }
    let ghost mid = views(out@);
    let cs = named_children_of(tree, n);
    proof {
        tree.lemma_children(n as int, tree.len());
        lemma_named_of_children(*tree, n as int, tree.children(n as int));
    }
    let mut k: usize = 0;
    assert(mid + calls_in_among(*tree, n as int, cs@.take(0), language, start_row as int, end_row as int) =~= mid);
    while k < cs.len()
        invariant
            tree.wf(),
            n < tree.len(),
            cs@ == named_of(*tree, tree.children(n as int)),
            forall|j: int| 0 <= j < cs@.len() ==> n < (#[trigger] cs@[j]) < tree.len(),
            k <= cs@.len(),
            views(out@) == mid + calls_in_among(
                *tree,
                n as int,
                cs@.take(k as int),
                language,
                start_row as int,
                end_row as int,
            ),
        decreases cs@.len() - k,
    {
        let c = cs[k];
        assert(cs@.take(k + 1).drop_last() =~= cs@.take(k as int));
        assert(cs@.take(k + 1).last() == c);
        let ghost before = views(out@);
        push_calls_in(tree, c, language, start_row, end_row, out);
        assert(views(out@) =~= mid + calls_in_among(
            *tree,
            n as int,
            cs@.take(k + 1),
            language,
            start_row as int,
            end_row as int,
        ));
        k = k + 1;
    }
    assert(cs@.take(cs@.len() as int) =~= cs@);
}

/// The names called from lines `start_line..=end_line` (1-based) of a file,
/// each once, in order of first call.
pub open spec fn called_names(t: SyntaxTree, l: Language, start_line: usize, end_line: usize) -> Seq<
    Seq<char>,
> {
    let sr = if start_line >= 1 {
        start_line - 1
    } else {
        0
    };
    let er = if end_line >= 1 {
        end_line - 1
    } else {
        0
    };
    dedup_first(calls_in(t, 0, l, sr, er))
}

fn contains_string(v: &Vec<String>, s: &String) -> (r: bool)
    ensures
        r == views(v@).contains(s@),
{
    let mut k: usize = 0;
    while k < v.len()
        invariant
            k <= v.len(),
            forall|j: int| 0 <= j < k ==> v@[j]@ != s@,
        decreases v.len() - k,
    {
        if crate::text::str_eq(v[k].as_str(), s.as_str()) {
            assert(views(v@)[k as int] == s@);
            return true;
        }
        k = k + 1;
    }
    assert forall|j: int| 0 <= j < views(v@).len() implies views(v@)[j] != s@ by {
        assert(views(v@)[j] == v@[j]@);
    }
    false
}

/// The names called from lines `start_line..=end_line` (see
/// `called_names`).
pub fn collect_called_names(tree: &SyntaxTree, language: Language, start_line: usize, end_line: usize) -> (r:
    Vec<String>)
    requires
        tree.wf(),
    ensures
        views(r@) == called_names(*tree, language, start_line, end_line),
{
    let sr = start_line.saturating_sub(1);
    let er = end_line.saturating_sub(1);
    let mut all: Vec<String> = Vec::new();
    push_calls_in(tree, 0, language, sr, er, &mut all);
    assert(views(all@) =~= calls_in(*tree, 0, language, sr as int, er as int));
    let ghost av = views(all@);
    let mut out: Vec<String> = Vec::new();
    let mut k: usize = 0;
    assert(av.take(0) =~= seq![]);
    assert(views(out@) =~= seq![]);
    while k < all.len()
        invariant
            av == views(all@),
            k <= all@.len(),
            views(out@) == dedup_first(av.take(k as int)),
        decreases all@.len() - k,
    {
        assert(av.take(k + 1).drop_last() =~= av.take(k as int));
        assert(av.take(k + 1).last() == all@[k as int]@);
        if !contains_string(&out, &all[k]) {
            let ghost before = views(out@);
            out.push(all[k].clone());
            assert(views(out@) =~= before.push(all@[k as int]@));
        }
        k = k + 1;
    }
    assert(av.take(all@.len() as int) =~= av);
    out
}

/// The lines (1-based) of the calls of `name` at or under node `n`, in
/// preorder.
pub open spec fn call_sites(t: SyntaxTree, n: int, l: Language, name: Seq<char>) -> Seq<usize>
    decreases t.len() - n, 1int, 0int,
{
    if n < 0 || n >= t.len() {
        seq![]
    } else {
        let own = if call_kind(t.kind(n), l) && call_target(t, n) == Some(name) {
            seq![(t.nodes@[n].start_row + 1) as usize]
        } else {
            seq![]
        };
        own + call_sites_among(t, n, named_of(t, t.children(n)), l, name)
    }
}

pub open spec fn call_sites_among(t: SyntaxTree, n: int, cs: Seq<usize>, l: Language, name: Seq<char>) -> Seq<
    usize,
>
    decreases t.len() - n, 0int, cs.len(),
{
    if cs.len() == 0 || n < 0 {
        seq![]
    } else if n < cs.last() < t.len() {
        call_sites_among(t, n, cs.drop_last(), l, name) + call_sites(t, cs.last() as int, l, name)
    } else {
        call_sites_among(t, n, cs.drop_last(), l, name)
    }
}

fn push_call_sites(tree: &SyntaxTree, n: usize, language: Language, name: &str, out: &mut Vec<usize>)
    requires
        tree.wf(),
        n < tree.len(),
    ensures
        final(out)@ == old(out)@ + call_sites(*tree, n as int, language, name@),
    decreases tree.len() - n,
{
    let ghost start = out@;
    if is_call_node(tree.nodes[n].kind.as_str(), language) {
        if let Some(x) = call_name(tree, n) {
            if crate::text::str_eq(x.as_str(), name) {
                out.push(tree.nodes[n].start_row + 1);
            }
        }
    }
    let ghost mid = out@;
    assert(mid == start + (if call_kind(tree.kind(n as int), language) && call_target(
        *tree,
        n as int,
    ) == Some(name@) {
        seq![(tree.nodes@[n as int].start_row + 1) as usize]
    } else {
        seq![]
    }));
    let cs = named_children_of(tree, n);
    proof {
        tree.lemma_children(n as int, tree.len());
        lemma_named_of_children(*tree, n as int, tree.children(n as int));
    }
    let mut k: usize = 0;
    assert(mid + call_sites_among(*tree, n as int, cs@.take(0), language, name@) =~= mid);
    while k < cs.len()
        invariant
            tree.wf(),
            n < tree.len(),
            cs@ == named_of(*tree, tree.children(n as int)),
            forall|j: int| 0 <= j < cs@.len() ==> n < (#[trigger] cs@[j]) < tree.len(),
            k <= cs@.len(),
            out@ == mid + call_sites_among(*tree, n as int, cs@.take(k as int), language, name@),
        decreases cs@.len() - k,
    {
        let c = cs[k];
        assert(cs@.take(k + 1).drop_last() =~= cs@.take(k as int));
        assert(cs@.take(k + 1).last() == c);
        push_call_sites(tree, c, language, name, out);
        assert(out@ =~= mid + call_sites_among(*tree, n as int, cs@.take(k + 1), language, name@));
        k = k + 1;
    }
    assert(cs@.take(cs@.len() as int) =~= cs@);
}

/// The lines (1-based) of the calls of `name` in a file, in preorder.
pub fn collect_call_sites(tree: &SyntaxTree, language: Language, name: &str) -> (r: Vec<usize>)
    requires
        tree.wf(),
    ensures
        r@ == call_sites(*tree, 0, language, name@),
{
    let mut out: Vec<usize> = Vec::new();
    push_call_sites(tree, 0, language, name, &mut out);
    assert(out@ =~= call_sites(*tree, 0, language, name@));
    out
}

} // verus!
