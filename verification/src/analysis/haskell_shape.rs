//! The shape of a Haskell file: functions assembled from their type
//! signatures and equations, data types, classes and imports, with
//! Haddock documentation.
use vstd::prelude::*;
use crate::analysis::comments::{strip_haskell_comment_markers, strip_haskell_markers};
use crate::analysis::shape::{
    EnhancedFileShape, EnhancedFunctionInfo, EnhancedStructInfo, FunctionView, ImportInfo,
    ImportView, StructView, TraitInfo, TraitView, code_if, code_when, end_line, extract_code,
    field_text, field_text_or, function_view, function_views, import_views, is_named_node,
    method_views, named_node, node_code, node_end_line, node_line, opt_view, start_line,
    struct_views, trait_views,
};
use crate::syntax::SyntaxTree;
use crate::text::{
    char_views, join, push_chars, slice_range, split_pieces, split_str, string_of, trim,
    trim_chars, views,
};

verus! {

// ---------------------------------------------------------------------------
// Haddock documentation
// ---------------------------------------------------------------------------

/// The stripped texts of the `haddock` and `comment` nodes that end
/// `sibs`, scanning back up to the first other node, in source order.
pub open spec fn haddock_back(t: SyntaxTree, sibs: Seq<usize>) -> Seq<Seq<char>>
    decreases sibs.len(),
{
    if sibs.len() == 0 {
        seq![]
    } else {
        let s = sibs.last() as int;
        if t.kind(s) == "haddock"@ || t.kind(s) == "comment"@ {
            haddock_back(t, sibs.drop_last()).push(strip_haskell_markers(t.text(s)))
        } else {
            seq![]
        }
    }
}

/// The named nodes among `cs`.
pub open spec fn named_among(t: SyntaxTree, cs: Seq<usize>) -> Seq<usize>
    decreases cs.len(),
{
    if cs.len() == 0 {
        seq![]
    } else {
        let r = named_among(t, cs.drop_last());
        if t.nodes@[cs.last() as int].named {
            r.push(cs.last())
        } else {
            r
        }
    }
}

/// The Haddock lines of node `i`: the comments just before it; for a node
/// without preceding siblings, the comments that end the block before its
/// parent (the grammar attaches a comment before the first declaration of a
/// block to the previous block).
pub open spec fn haddock_lines(t: SyntaxTree, i: int) -> Seq<Seq<char>> {
    let sb = t.siblings_before(i);
    let ls = haddock_back(t, sb);
    if ls.len() == 0 && sb.len() == 0 {
        match t.parent(i) {
            None => seq![],
            Some(p) => {
                let ps = t.siblings_before(p as int);
                if ps.len() > 0 {
                    let nc = named_among(t, t.children(ps.last() as int));
                    if nc.len() > 0 {
                        haddock_back(t, t.siblings_before(nc.last() as int).push(nc.last()))
                    } else {
                        seq![]
                    }
                } else {
                    seq![]
                }
            },
        }
    } else {
        ls
    }
}

/// The trimmed non-empty entries of `ls`.
pub open spec fn trimmed_nonempty(ls: Seq<Seq<char>>) -> Seq<Seq<char>>
    decreases ls.len(),
{
    if ls.len() == 0 {
        seq![]
    } else {
        let r = trimmed_nonempty(ls.drop_last());
        if trim(ls.last()).len() > 0 {
            r.push(trim(ls.last()))
        } else {
            r
        }
    }
}

/// The Haddock documentation of node `i`: its non-empty trimmed lines
/// joined by spaces, none when there are none.
pub open spec fn haddock_doc(t: SyntaxTree, i: int) -> Option<Seq<char>> {
    let ws = trimmed_nonempty(haddock_lines(t, i));
    if ws.len() == 0 {
        None
    } else {
        Some(join(ws, " "@))
    }
}

fn collect_haddock_back(tree: &SyntaxTree, sibs: &Vec<usize>) -> (r: Vec<String>)
    requires
        tree.wf(),
        forall|j: int| 0 <= j < sibs@.len() ==> (#[trigger] sibs@[j]) < tree.len(),
    ensures
        views(r@) == haddock_back(*tree, sibs@),
{
    let ghost full = haddock_back(*tree, sibs@);
    let mut acc: Vec<String> = Vec::new();
    let mut k = sibs.len();
    let mut stopped = false;
    assert(sibs@.take(k as int) =~= sibs@);
    while k > 0 && !stopped
        invariant
            tree.wf(),
            k <= sibs.len(),
            forall|j: int| 0 <= j < sibs@.len() ==> (#[trigger] sibs@[j]) < tree.len(),
            full == haddock_back(*tree, sibs@),
            stopped ==> full == views(acc@),
            !stopped ==> full == haddock_back(*tree, sibs@.take(k as int)) + views(acc@),
        decreases k + (if stopped { 0int } else { 1int }),
    {
        let s = sibs[k - 1];
        assert(sibs@.take(k as int).last() == s);
        assert(sibs@.take(k as int).drop_last() =~= sibs@.take(k - 1));
        if tree.kind_is(s, "haddock") || tree.kind_is(s, "comment") {
            let text = tree.node_text(s);
            let d = strip_haskell_comment_markers(text.as_str());
            let ghost old_acc = views(acc@);
            acc.insert(0, d);
            assert(views(acc@) =~= seq![d@] + old_acc);
            k = k - 1;
        } else {
            stopped = true;
        }
    }
    if !stopped {
        assert(sibs@.take(0) =~= Seq::<usize>::empty());
        assert(full =~= views(acc@));
    }
    acc
}

fn last_named_child(tree: &SyntaxTree, p: usize) -> (r: Option<usize>)
    requires
        tree.wf(),
    ensures
        match r {
            Some(c) => {
                let nc = named_among(*tree, tree.children(p as int));
                nc.len() > 0 && c == nc.last() && c < tree.len()
            },
            None => named_among(*tree, tree.children(p as int)).len() == 0,
        },
{
    let cs = tree.children_of(p);
    let mut last: Option<usize> = None;
    let mut k: usize = 0;
    while k < cs.len()
        invariant
            tree.wf(),
            cs@ == tree.children(p as int),
            forall|j: int| 0 <= j < cs@.len() ==> (#[trigger] cs@[j]) < tree.len(),
            k <= cs.len(),
            match last {
                Some(c) => {
                    let nc = named_among(*tree, cs@.take(k as int));
                    nc.len() > 0 && c == nc.last() && c < tree.len()
                },
                None => named_among(*tree, cs@.take(k as int)).len() == 0,
            },
        decreases cs.len() - k,
    {
        let c = cs[k];
        assert(cs@.take(k + 1).drop_last() =~= cs@.take(k as int));
        assert(cs@.take(k + 1).last() == c);
        if tree.nodes[c].named {
            last = Some(c);
        }
        k = k + 1;
    }
    assert(cs@.take(cs@.len() as int) =~= cs@);
    last
}

/// The Haddock documentation of node `i` (see `haddock_doc`).
pub fn extract_haskell_doc(tree: &SyntaxTree, i: usize) -> (r: Option<String>)
    requires
        tree.wf(),
        i < tree.len(),
    ensures
        opt_view(r) == haddock_doc(*tree, i as int),
{
    let sb = tree.prev_siblings(i);
    let mut ls = collect_haddock_back(tree, &sb);
    if ls.len() == 0 && sb.len() == 0 {
        if let Some(p) = tree.nodes[i].parent {
            let ps = tree.prev_siblings(p);
            if ps.len() > 0 {
                if let Some(last) = last_named_child(tree, ps[ps.len() - 1]) {
                    let mut from = tree.prev_siblings(last);
                    from.push(last);
                    ls = collect_haddock_back(tree, &from);
                }
            }
        }
    }
    assert(views(ls@) == haddock_lines(*tree, i as int));
    // Trimmed, non-empty lines joined by spaces.
    let mut out: Vec<char> = Vec::new();
    let mut count: usize = 0;
    let mut k: usize = 0;
    while k < ls.len()
        invariant
            k <= ls.len(),
            count <= k,
            count == trimmed_nonempty(views(ls@).take(k as int)).len(),
            out@ == join(trimmed_nonempty(views(ls@).take(k as int)), " "@),
        decreases ls.len() - k,
    {
        let w = trim_chars(crate::text::chars_of(ls[k].as_str()).as_slice());
        assert(views(ls@).take(k + 1).drop_last() =~= views(ls@).take(k as int));
        assert(views(ls@).take(k + 1).last() == ls@[k as int]@);
        if w.len() > 0 {
            let ghost prev = trimmed_nonempty(views(ls@).take(k as int));
            if count > 0 {
                out.push(' ');
            }
            let ghost mid = out@;
            push_all(&mut out, &w);
            proof {
                reveal_strlit(" ");
                let cur = prev.push(w@);
                assert(cur.drop_last() =~= prev);
                if count > 0 {
                    assert(out@ =~= join(prev, " "@) + " "@ + w@);
                } else {
                    assert(out@ =~= w@);
                }
            }
            count = count + 1;
        }
        k = k + 1;
    }
    assert(views(ls@).take(ls@.len() as int) =~= views(ls@));
    if count == 0 {
        None
    } else {
        Some(string_of(out.as_slice()))
    }
}

fn push_all(out: &mut Vec<char>, w: &Vec<char>)
    ensures
        final(out)@ == old(out)@ + w@,
{
    let mut q: usize = 0;
    while q < w.len()
        invariant
            q <= w.len(),
            out@ == old(out)@ + w@.take(q as int),
        decreases w.len() - q,
    {
        out.push(w[q]);
        assert(w@.take(q + 1) =~= w@.take(q as int).push(w@[q as int]));
        q = q + 1;
    }
    assert(w@.take(w@.len() as int) =~= w@);
}

// ---------------------------------------------------------------------------
// Declarations
// ---------------------------------------------------------------------------

/// Node `i` is a top-level declaration of kind `kind` named by a
/// `name_kind` node.
pub open spec fn hs_declaration(t: SyntaxTree, i: int, kind: Seq<char>, name_kind: Seq<char>) -> bool {
    &&& t.parent(i) matches Some(p) && t.kind(p as int) == "declarations"@
    &&& named_node(t, i, kind, name_kind)
}

fn is_hs_declaration(tree: &SyntaxTree, i: usize, kind: &str, name_kind: &str) -> (r: bool)
    requires
        tree.wf(),
        i < tree.len(),
    ensures
        r == hs_declaration(*tree, i as int, kind@, name_kind@),
{
    match tree.nodes[i].parent {
        Some(p) => tree.kind_is(p, "declarations") && is_named_node(tree, i, kind, name_kind),
        None => false,
    }
}

/// A type signature is a `signature` declaration; an equation a `function`
/// or `bind` declaration; each named by a `variable`.
pub open spec fn hs_signature(t: SyntaxTree, i: int) -> bool {
    hs_declaration(t, i, "signature"@, "variable"@)
}

pub open spec fn hs_equation(t: SyntaxTree, i: int) -> bool {
    hs_declaration(t, i, "function"@, "variable"@) || hs_declaration(t, i, "bind"@, "variable"@)
}

/// The text of a type signature with its lines trimmed and joined by
/// spaces.
pub open spec fn signature_text(t: SyntaxTree, i: int) -> Seq<char> {
    join(split_str(t.text(i), "\n"@).map_values(|l: Seq<char>| trim(l)), " "@)
}

/// The left-hand side of an equation (its text before the `match` child),
/// trimmed; none when empty or without a `match` child.
pub open spec fn equation_lhs(t: SyntaxTree, i: int) -> Option<Seq<char>> {
    match t.child_by_field(i, "match"@) {
        Some(m) => {
            let s = t.nodes@[i].start as int;
            let e = t.nodes@[m as int].start as int;
            let lhs = if s <= e {
                trim(t.source@.subrange(s, e))
            } else {
                seq![]
            };
            if lhs.len() > 0 {
                Some(lhs)
            } else {
                None
            }
        },
        None => None,
    }
}

/// What is gathered of one function: name, signature, signature line,
/// line of its first equation, end line, documentation and the node of its
/// first equation.
pub type FnAccView = (
    Seq<char>,
    Option<Seq<char>>,
    Option<usize>,
    Option<usize>,
    usize,
    Option<Seq<char>>,
    Option<usize>,
);

/// Position of the entry named `name` in `accs`, or -1.
pub open spec fn acc_index(accs: Seq<FnAccView>, name: Seq<char>) -> int
    decreases accs.len(),
{
    if accs.len() == 0 {
        -1
    } else if accs.last().0 == name {
        accs.len() - 1
    } else {
        acc_index(accs.drop_last(), name)
    }
}

pub open spec fn max_usize(a: usize, b: usize) -> usize {
    if a >= b {
        a
    } else {
        b
    }
}

/// Gather node `i` into `accs`: a signature sets the signature and its line
/// (and the doc if none yet); the first equation of a name sets its line,
/// node, a signature from its left-hand side if none yet, and the doc if
/// none yet; every one widens the end line. A new name is appended.
pub open spec fn hs_step(t: SyntaxTree, accs: Seq<FnAccView>, i: int) -> Seq<FnAccView> {
    let name = field_text_or(t, i, "name"@, ""@);
    let idx = acc_index(accs, name);
    let line = node_line(t, i);
    let end = node_end_line(t, i);
    if hs_signature(t, i) {
        if idx < 0 {
            accs.push(
                (name, Some(signature_text(t, i)), Some(line), None, end, haddock_doc(t, i), None),
            )
        } else {
            let e = accs[idx];
            accs.update(
                idx,
                (
                    e.0,
                    Some(signature_text(t, i)),
                    Some(line),
                    e.3,
                    max_usize(e.4, end),
                    if e.5 is None {
                        haddock_doc(t, i)
                    } else {
                        e.5
                    },
                    e.6,
                ),
            )
        }
    } else if hs_equation(t, i) {
        if idx < 0 {
            accs.push(
                (name, equation_lhs(t, i), None, Some(line), end, haddock_doc(t, i), Some(i as usize)),
            )
        } else {
            let e = accs[idx];
            if e.3 is None {
                accs.update(
                    idx,
                    (
                        e.0,
                        if e.1 is None {
                            equation_lhs(t, i)
                        } else {
                            e.1
                        },
                        e.2,
                        Some(line),
                        max_usize(e.4, end),
                        if e.5 is None {
                            haddock_doc(t, i)
                        } else {
                            e.5
                        },
                        Some(i as usize),
                    ),
                )
            } else {
                accs.update(idx, (e.0, e.1, e.2, e.3, max_usize(e.4, end), e.5, e.6))
            }
        }
    } else {
        accs
    }
}

/// What is gathered of the functions among the first `k` nodes.
pub open spec fn hs_accs(t: SyntaxTree, k: int) -> Seq<FnAccView>
    decreases k,
{
    if k <= 0 {
        seq![]
    } else {
        hs_step(t, hs_accs(t, k - 1), k - 1)
    }
}

/// The function entry of a gathered function: its signature (or its name),
/// the line of its signature or else of its first equation, and the code
/// of its first equation when asked for.
pub open spec fn hs_function(t: SyntaxTree, a: FnAccView, include_code: bool) -> FunctionView {
    (
        a.0,
        match a.1 {
            Some(s) => s,
            None => a.0,
        },
        match a.2 {
            Some(l) => l,
            None => match a.3 {
                Some(l) => l,
                None => a.4,
            },
        },
        a.4,
        a.5,
        if include_code {
            match a.6 {
                Some(n) => node_code(t, n as int),
                None => None,
            }
        } else {
            None
        },
        seq![],
    )
}

/// Position at which an entry of line `line` goes in `s`, sorted by line,
/// after the entries of the same line.
pub open spec fn line_slot(s: Seq<FunctionView>, line: usize) -> int
    decreases s.len(),
{
    if s.len() == 0 {
        0
    } else if s[0].2 > line {
        0
    } else {
        1 + line_slot(s.drop_first(), line)
    }
}

/// `s` stably sorted by line.
pub open spec fn sort_by_line(s: Seq<FunctionView>) -> Seq<FunctionView>
    decreases s.len(),
{
    if s.len() == 0 {
        seq![]
    } else {
        let r = sort_by_line(s.drop_last());
        r.insert(line_slot(r, s.last().2), s.last())
    }
}

pub proof fn lemma_line_slot(s: Seq<FunctionView>, line: usize)
    ensures
        0 <= line_slot(s, line) <= s.len(),
    decreases s.len(),
{
    if s.len() > 0 {
        lemma_line_slot(s.drop_first(), line);
    }
}

/// The functions of a Haskell file: one entry per top-level name with a
/// signature or equation, stably sorted by line.
pub open spec fn hs_functions(t: SyntaxTree, include_code: bool) -> Seq<FunctionView> {
    sort_by_line(hs_accs(t, t.len()).map_values(|a: FnAccView| hs_function(t, a, include_code)))
}

/// A data type, newtype or type synonym: its name, lines, Haddock doc and
/// code.
pub open spec fn hs_type_decl(t: SyntaxTree, i: int) -> bool {
    hs_declaration(t, i, "data_type"@, "name"@) || hs_declaration(t, i, "newtype"@, "name"@)
        || hs_declaration(t, i, "type_synomym"@, "name"@)
}

pub open spec fn hs_structs(t: SyntaxTree, k: int, include_code: bool) -> Seq<StructView>
    decreases k,
{
    if k <= 0 {
        seq![]
    } else {
        let r = hs_structs(t, k - 1, include_code);
        if hs_type_decl(t, k - 1) {
            r.push(
                (
                    field_text_or(t, k - 1, "name"@, ""@),
                    node_line(t, k - 1),
                    node_end_line(t, k - 1),
                    haddock_doc(t, k - 1),
                    code_if(t, k - 1, include_code),
                ),
            )
        } else {
            r
        }
    }
}

/// The classes among the first `k` nodes, as traits without methods.
pub open spec fn hs_traits(t: SyntaxTree, k: int) -> Seq<TraitView>
    decreases k,
{
    if k <= 0 {
        seq![]
    } else {
        let r = hs_traits(t, k - 1);
        if hs_declaration(t, k - 1, "class"@, "name"@) {
            r.push(
                (
                    field_text_or(t, k - 1, "name"@, ""@),
                    node_line(t, k - 1),
                    node_end_line(t, k - 1),
                    haddock_doc(t, k - 1),
                    seq![],
                ),
            )
        } else {
            r
        }
    }
}

/// The `import` nodes of an `imports` block among the first `k` nodes,
/// with their text trimmed.
pub open spec fn hs_imports(t: SyntaxTree, k: int) -> Seq<ImportView>
    decreases k,
{
    if k <= 0 {
        seq![]
    } else {
        let r = hs_imports(t, k - 1);
        if t.kind(k - 1) == "import"@ && (t.parent(k - 1) matches Some(p) && t.kind(p as int)
            == "imports"@) {
            r.push((trim(t.text(k - 1)), node_line(t, k - 1)))
        } else {
            r
        }
    }
}

// ---------------------------------------------------------------------------
// Extraction
// ---------------------------------------------------------------------------

struct FnAcc {
    name: String,
    signature: Option<String>,
    sig_line: Option<usize>,
    first_def_line: Option<usize>,
    end_line: usize,
    doc: Option<String>,
    code_node: Option<usize>,
}

spec fn acc_view(a: FnAcc) -> FnAccView {
    (a.name@, opt_view(a.signature), a.sig_line, a.first_def_line, a.end_line, opt_view(a.doc), a.code_node)
}

spec fn acc_views(v: Seq<FnAcc>) -> Seq<FnAccView> {
    v.map_values(|a: FnAcc| acc_view(a))
}

fn clone_opt(o: &Option<String>) -> (r: Option<String>)
    ensures
        opt_view(r) == opt_view(*o),
{
    match o {
        Some(s) => Some(s.clone()),
        None => None,
    }
}

fn find_acc(accs: &Vec<FnAcc>, name: &String) -> (r: Option<usize>)
    ensures
        match r {
            Some(j) => j < accs@.len() && acc_index(acc_views(accs@), name@) == j,
            None => acc_index(acc_views(accs@), name@) == -1,
        },
{
    let mut k = accs.len();
    assert(accs@.take(k as int) =~= accs@);
    while k > 0
        invariant
            k <= accs@.len(),
            acc_index(acc_views(accs@), name@) == acc_index(acc_views(accs@.take(k as int)), name@),
        decreases k,
    {
        let ghost pre = acc_views(accs@.take(k as int));
        assert(pre.last() == acc_view(accs@[k - 1]));
        assert(pre.drop_last() =~= acc_views(accs@.take(k - 1)));
        if crate::text::str_eq(accs[k - 1].name.as_str(), name.as_str()) {
            return Some(k - 1);
        }
        k = k - 1;
    }
    None
}

/// The text of a type signature with its lines trimmed and joined by spaces
/// (see `signature_text`).
pub fn signature_text_of(tree: &SyntaxTree, i: usize) -> (r: String)
    requires
        tree.wf(),
        i < tree.len(),
    ensures
        r@ == signature_text(*tree, i as int),
{
    let text = crate::text::chars_of(tree.node_text(i).as_str());
    let nl = vec!['\n'];
    proof {
        reveal_strlit("\n");
        assert(nl@ =~= "\n"@);
    }
    let pieces = split_pieces(text.as_slice(), nl.as_slice());
    let ghost trimmed = split_str(tree.text(i as int), "\n"@).map_values(|l: Seq<char>| trim(l));
    let mut out: Vec<char> = Vec::new();
    let mut k: usize = 0;
    while k < pieces.len()
        invariant
            char_views(pieces@) == split_str(tree.text(i as int), "\n"@),
            trimmed == split_str(tree.text(i as int), "\n"@).map_values(|l: Seq<char>| trim(l)),
            k <= pieces.len(),
            out@ == join(trimmed.take(k as int), " "@),
        decreases pieces.len() - k,
    {
        let w = trim_chars(pieces[k].as_slice());
        assert(trimmed[k as int] == trim(pieces@[k as int]@));
        let ghost prev = trimmed.take(k as int);
        if k > 0 {
            out.push(' ');
        }
        push_all(&mut out, &w);
        proof {
            reveal_strlit(" ");
            let cur = trimmed.take(k + 1);
            assert(cur.drop_last() =~= prev);
            assert(cur.last() == w@);
            if k > 0 {
                assert(out@ =~= join(prev, " "@) + " "@ + w@);
            } else {
                assert(out@ =~= w@);
            }
        }
        k = k + 1;
    }
    assert(trimmed.take(pieces@.len() as int) =~= trimmed);
    string_of(out.as_slice())
}

fn equation_lhs_of(tree: &SyntaxTree, i: usize) -> (r: Option<String>)
    requires
        tree.wf(),
        i < tree.len(),
    ensures
        opt_view(r) == equation_lhs(*tree, i as int),
{
    match tree.child_by_field_name(i, "match") {
        Some(m) => {
            let s = tree.nodes[i].start;
            let e = tree.nodes[m].start;
            let lhs = if s <= e {
                trim_chars(slice_range(tree.source.as_slice(), s, e).as_slice())
            } else {
                Vec::new()
            };
            if lhs.len() > 0 {
                Some(string_of(lhs.as_slice()))
            } else {
                None
            }
        },
        None => None,
    }
}

fn max_of(a: usize, b: usize) -> (r: usize)
    ensures
        r == max_usize(a, b),
{
    if a >= b {
        a
    } else {
        b
    }
}

fn gather_step(tree: &SyntaxTree, accs: &mut Vec<FnAcc>, i: usize)
    requires
        tree.wf(),
        i < tree.len(),
    ensures
        acc_views(final(accs)@) == hs_step(*tree, acc_views(old(accs)@), i as int),
{
    let sig = is_hs_declaration(tree, i, "signature", "variable");
    let eq = is_hs_declaration(tree, i, "function", "variable") || is_hs_declaration(
        tree,
        i,
        "bind",
        "variable",
    );
    if !sig && !eq {
        return;
    }
    let name = field_text(tree, i, "name", "");
    let line = start_line(tree, i);
    let end = end_line(tree, i);
    let ghost old_views = acc_views(accs@);
    match find_acc(accs, &name) {
        None => {
            let a = if sig {
                FnAcc {
                    name,
                    signature: Some(signature_text_of(tree, i)),
                    sig_line: Some(line),
                    first_def_line: None,
                    end_line: end,
                    doc: extract_haskell_doc(tree, i),
                    code_node: None,
                }
            } else {
                FnAcc {
                    name,
                    signature: equation_lhs_of(tree, i),
                    sig_line: None,
                    first_def_line: Some(line),
                    end_line: end,
                    doc: extract_haskell_doc(tree, i),
                    code_node: Some(i),
                }
            };
            accs.push(a);
            assert(acc_views(accs@) =~= old_views.push(acc_view(a)));
        },
        Some(j) => {
            let e = &accs[j];
            let doc = if e.doc.is_none() {
                extract_haskell_doc(tree, i)
            } else {
                clone_opt(&e.doc)
            };
            let a = if sig {
                FnAcc {
                    name: e.name.clone(),
                    signature: Some(signature_text_of(tree, i)),
                    sig_line: Some(line),
                    first_def_line: e.first_def_line,
                    end_line: max_of(e.end_line, end),
                    doc,
                    code_node: e.code_node,
                }
            } else if e.first_def_line.is_none() {
                let signature = if e.signature.is_none() {
                    equation_lhs_of(tree, i)
                } else {
                    clone_opt(&e.signature)
                };
                FnAcc {
                    name: e.name.clone(),
                    signature,
                    sig_line: e.sig_line,
                    first_def_line: Some(line),
                    end_line: max_of(e.end_line, end),
                    doc,
                    code_node: Some(i),
                }
            } else {
                FnAcc {
                    name: e.name.clone(),
                    signature: clone_opt(&e.signature),
                    sig_line: e.sig_line,
                    first_def_line: e.first_def_line,
                    end_line: max_of(e.end_line, end),
                    doc: clone_opt(&e.doc),
                    code_node: e.code_node,
                }
            };
            accs.set(j, a);
            assert(acc_views(accs@) =~= old_views.update(j as int, acc_view(a)));
        },
    }
}

fn function_of(tree: &SyntaxTree, a: &FnAcc, include_code: bool) -> (r: EnhancedFunctionInfo)
    requires
        tree.wf(),
        a.code_node matches Some(n) ==> n < tree.len(),
    ensures
        function_view(r) == hs_function(*tree, acc_view(*a), include_code),
{
    let signature = match &a.signature {
        Some(s) => s.clone(),
        None => a.name.clone(),
    };
    let line = match a.sig_line {
        Some(l) => l,
        None => match a.first_def_line {
            Some(l) => l,
            None => a.end_line,
        },
    };
    let code = if include_code {
        match a.code_node {
            Some(n) => extract_code(tree, n),
            None => None,
        }
    } else {
        None
    };
    let f = EnhancedFunctionInfo {
        name: a.name.clone(),
        signature,
        line,
        end_line: a.end_line,
        doc: clone_opt(&a.doc),
        code,
        annotations: Vec::new(),
    };
    assert(views(f.annotations@) =~= seq![]);
    f
}

/// Every gathered equation node is a node of the tree.
pub open spec fn nodes_below(accs: Seq<FnAccView>, n: int) -> bool {
    forall|j: int| 0 <= j < accs.len() ==> ((#[trigger] accs[j]).6 matches Some(c) ==> c < n)
}

proof fn lemma_acc_index(accs: Seq<FnAccView>, name: Seq<char>)
    ensures
        -1 <= acc_index(accs, name) < accs.len(),
    decreases accs.len(),
{
    if accs.len() > 0 {
        lemma_acc_index(accs.drop_last(), name);
    }
}

proof fn lemma_step_nodes(t: SyntaxTree, accs: Seq<FnAccView>, i: int, n: int)
    requires
        nodes_below(accs, n),
        0 <= i < n,
    ensures
        nodes_below(hs_step(t, accs, i), n),
{
    let r = hs_step(t, accs, i);
    let name = field_text_or(t, i, "name"@, ""@);
    lemma_acc_index(accs, name);
    assert forall|j: int| 0 <= j < r.len() implies ((#[trigger] r[j]).6 matches Some(c) ==> c < n) by {
        if j < accs.len() {
            assert(accs[j].6 matches Some(c) ==> c < n);
        }
    }
}

fn insert_by_line(out: &mut Vec<EnhancedFunctionInfo>, f: EnhancedFunctionInfo)
    ensures
        function_views(final(out)@) == function_views(old(out)@).insert(
            line_slot(function_views(old(out)@), f.line),
            function_view(f),
        ),
{
    let ghost s = function_views(out@);
    proof {
        lemma_line_slot(s, f.line);
    }
    let mut j: usize = 0;
    assert(s.skip(0) =~= s);
    while j < out.len() && out[j].line <= f.line
        invariant
            s == function_views(out@),
            j <= out@.len(),
            line_slot(s, f.line) == j + line_slot(s.skip(j as int), f.line),
        decreases out@.len() - j,
    {
        assert(s.skip(j as int)[0] == function_view(out@[j as int]));
        assert(s.skip(j as int).drop_first() =~= s.skip(j + 1));
        j = j + 1;
    }
    if j < out.len() {
        assert(s.skip(j as int)[0] == function_view(out@[j as int]));
    }
    assert(line_slot(s, f.line) == j);
    let ghost before = out@;
    out.insert(j, f);
    assert(function_views(out@) =~= s.insert(j as int, function_view(f)));
}

/// The lists of `s` are those of a Haskell file (see `extract_haskell_enhanced`).
pub open spec fn haskell_shape_is(s: EnhancedFileShape, t: SyntaxTree, ic: bool) -> bool {
    &&& function_views(s.functions@) == hs_functions(t, ic)
    &&& struct_views(s.structs@) == hs_structs(t, t.len(), ic)
    &&& trait_views(s.traits@) == hs_traits(t, t.len())
    &&& import_views(s.imports@) == hs_imports(t, t.len())
    &&& s.classes@.len() == 0
    &&& s.impl_blocks@.len() == 0
    &&& s.interfaces@.len() == 0
    &&& s.properties@.len() == 0
    &&& s.dependencies@.len() == 0
}

/// The shape of a Haskell file: its functions (one per top-level name,
/// with the type signature as signature, sorted by line), its data types,
/// newtypes and type synonyms, its classes and its imports.
pub fn extract_haskell_enhanced(tree: &SyntaxTree, include_code: bool) -> (r: EnhancedFileShape)
    requires
        tree.wf(),
    ensures
        r.path is None,
        r.language is None,
        haskell_shape_is(r, *tree, include_code),
{
    let mut accs: Vec<FnAcc> = Vec::new();
    let mut structs: Vec<EnhancedStructInfo> = Vec::new();
    let mut traits: Vec<TraitInfo> = Vec::new();
    let mut imports: Vec<ImportInfo> = Vec::new();
    let mut k: usize = 0;
    assert(acc_views(accs@) =~= seq![]);
    while k < tree.nodes.len()
        invariant
            tree.wf(),
            k <= tree.len(),
            acc_views(accs@) == hs_accs(*tree, k as int),
            nodes_below(hs_accs(*tree, k as int), tree.len()),
            struct_views(structs@) == hs_structs(*tree, k as int, include_code),
            trait_views(traits@) == hs_traits(*tree, k as int),
            import_views(imports@) == hs_imports(*tree, k as int),
        decreases tree.nodes.len() - k,
    {
        gather_step(tree, &mut accs, k);
        proof {
            lemma_step_nodes(*tree, hs_accs(*tree, k as int), k as int, tree.len());
        }
        if is_hs_declaration(tree, k, "data_type", "name") || is_hs_declaration(
            tree,
            k,
            "newtype",
            "name",
        ) || is_hs_declaration(tree, k, "type_synomym", "name") {
            let s = EnhancedStructInfo {
                name: field_text(tree, k, "name", ""),
                line: start_line(tree, k),
                end_line: end_line(tree, k),
                doc: extract_haskell_doc(tree, k),
                code: code_when(tree, k, include_code),
            };
            let ghost before = structs@;
            structs.push(s);
            assert(struct_views(structs@) =~= struct_views(before).push(
                (
                    field_text_or(*tree, k as int, "name"@, ""@),
                    node_line(*tree, k as int),
                    node_end_line(*tree, k as int),
                    haddock_doc(*tree, k as int),
                    code_if(*tree, k as int, include_code),
                ),
            ));
        }
        if is_hs_declaration(tree, k, "class", "name") {
            let tr = TraitInfo {
                name: field_text(tree, k, "name", ""),
                line: start_line(tree, k),
                end_line: end_line(tree, k),
                doc: extract_haskell_doc(tree, k),
                methods: Vec::new(),
            };
            let ghost before = traits@;
            traits.push(tr);
            assert(method_views(tr.methods@) =~= seq![]);
            assert(trait_views(traits@) =~= trait_views(before).push(
                (
                    field_text_or(*tree, k as int, "name"@, ""@),
                    node_line(*tree, k as int),
                    node_end_line(*tree, k as int),
                    haddock_doc(*tree, k as int),
                    seq![],
                ),
            ));
        }
        let in_imports = match tree.nodes[k].parent {
            Some(p) => tree.kind_is(p, "imports"),
            None => false,
        };
        if tree.kind_is(k, "import") && in_imports {
            let text = trim_chars(crate::text::chars_of(tree.node_text(k).as_str()).as_slice());
            let im = ImportInfo { text: string_of(text.as_slice()), line: start_line(tree, k) };
            let ghost before = imports@;
            imports.push(im);
            assert(import_views(imports@) =~= import_views(before).push(
                (trim(tree.text(k as int)), node_line(*tree, k as int)),
            ));
        }
        k = k + 1;
    }
    // Materialize the functions, sorted by line.
    let ghost entries = hs_accs(*tree, tree.len()).map_values(
        |a: FnAccView| hs_function(*tree, a, include_code),
    );
    let mut functions: Vec<EnhancedFunctionInfo> = Vec::new();
    let mut j: usize = 0;
    assert(entries.take(0) =~= seq![]);
    while j < accs.len()
        invariant
            tree.wf(),
            acc_views(accs@) == hs_accs(*tree, tree.len()),
            nodes_below(hs_accs(*tree, tree.len()), tree.len()),
            entries == hs_accs(*tree, tree.len()).map_values(
                |a: FnAccView| hs_function(*tree, a, include_code),
            ),
            j <= accs@.len(),
            function_views(functions@) == sort_by_line(entries.take(j as int)),
        decreases accs@.len() - j,
    {
        assert(acc_views(accs@)[j as int] == acc_view(accs@[j as int]));
        let f = function_of(tree, &accs[j], include_code);
        assert(entries.take(j + 1).drop_last() =~= entries.take(j as int));
        assert(entries.take(j + 1).last() == function_view(f));
        insert_by_line(&mut functions, f);
        j = j + 1;
    }
    assert(entries.take(accs@.len() as int) =~= entries);
    EnhancedFileShape {
        path: None,
        language: None,
        functions,
        structs,
        classes: Vec::new(),
        imports,
        impl_blocks: Vec::new(),
        traits,
        interfaces: Vec::new(),
        properties: Vec::new(),
        dependencies: Vec::new(),
    }
}

} // verus!
