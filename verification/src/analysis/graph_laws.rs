//! What holds of every call graph: its edges come sorted and each once,
//! callers each once by file, line and name, every edge within the depth
//! asked for, and the rows kept under a token budget are a prefix of the
//! edges whose JSON fits the budget.
use vstd::prelude::*;
use crate::analysis::call_graph::{
    DefView, EdgeDirection, EdgeView, ParsedFile, DefKey, caller_before, edge_before, edge_of,
    edge_rows_text, first_where, fit_rows, graph_edges, graph_result, insert_caller, insert_edge,
    lemma_first_where, levels, not_before, not_edge_before, result_json, same_caller, sort_callers,
    sort_edges, sweep, cl100k_tokens, clamp_depth, project_defs, dir_rank, Direction,
};
use crate::text::{join, lemma_text_order_flip, lemma_text_order_trans, lemma_text_order_zero, text_order};

verus! {

// ---------------------------------------------------------------------------
// The order of edges is a strict total order
// ---------------------------------------------------------------------------

proof fn lemma_edge_order_total(a: EdgeView, b: EdgeView)
    ensures
        !edge_before(a, a),
        edge_before(a, b) ==> !edge_before(b, a),
        a != b ==> edge_before(a, b) || edge_before(b, a),
{
    lemma_text_order_flip(a.2, b.2);
    lemma_text_order_flip(a.1, b.1);
    lemma_text_order_flip(a.4, b.4);
    lemma_text_order_zero(a.2, b.2);
    lemma_text_order_zero(a.1, b.1);
    lemma_text_order_zero(a.4, b.4);
    lemma_text_order_zero(a.2, a.2);
    lemma_text_order_zero(a.1, a.1);
    lemma_text_order_zero(a.4, a.4);
    if a.0 != b.0 {
        assert(dir_rank(a.0) != dir_rank(b.0));
    }
}

proof fn lemma_edge_order_trans(a: EdgeView, b: EdgeView, c: EdgeView)
    requires
        edge_before(a, b),
        edge_before(b, c),
    ensures
        edge_before(a, c),
{
    lemma_text_order_zero(a.2, b.2);
    lemma_text_order_zero(b.2, c.2);
    lemma_text_order_zero(a.1, b.1);
    lemma_text_order_zero(b.1, c.1);
    lemma_text_order_zero(a.4, b.4);
    lemma_text_order_zero(b.4, c.4);
    if text_order(a.2, b.2) < 0 && text_order(b.2, c.2) < 0 {
        lemma_text_order_trans(a.2, b.2, c.2);
    }
    if text_order(a.1, b.1) < 0 && text_order(b.1, c.1) < 0 {
        lemma_text_order_trans(a.1, b.1, c.1);
    }
    if text_order(a.4, b.4) < 0 && text_order(b.4, c.4) < 0 {
        lemma_text_order_trans(a.4, b.4, c.4);
    }
}

/// Every edge comes strictly before the ones after it.
pub open spec fn edges_sorted(s: Seq<EdgeView>) -> bool {
    forall|i: int, j: int| 0 <= i < j < s.len() ==> edge_before(#[trigger] s[i], #[trigger] s[j])
}

proof fn lemma_insert_edge(s: Seq<EdgeView>, e: EdgeView)
    requires
        edges_sorted(s),
    ensures
        edges_sorted(insert_edge(s, e)),
        forall|x: EdgeView| insert_edge(s, e).contains(x) <==> (s.contains(x) || x == e),
{
    let p = not_edge_before(e);
    lemma_first_where(s, p);
    let r = insert_edge(s, e);
    match first_where(s, p) {
        None => {
            assert forall|i: int, j: int| 0 <= i < j < r.len() implies edge_before(
                #[trigger] r[i],
                #[trigger] r[j],
            ) by {
                if j == s.len() {
                    assert(!p(s[i]));
                }
            }
            assert forall|x: EdgeView| r.contains(x) <==> (s.contains(x) || x == e) by {
                if r.contains(x) {
                    let k = choose|k: int| 0 <= k < r.len() && r[k] == x;
                    if k < s.len() {
                        assert(s[k] == x);
                    }
                }
                if s.contains(x) {
                    let k = choose|k: int| 0 <= k < s.len() && s[k] == x;
                    assert(r[k] == x);
                }
                if x == e {
                    assert(r[s.len() as int] == x);
                }
            }
        },
        Some(m) => {
            if s[m] == e {
                assert forall|x: EdgeView| r.contains(x) <==> (s.contains(x) || x == e) by {
                    if x == e {
                        assert(s[m] == x);
                    }
                }
            } else {
                lemma_edge_order_total(s[m], e);
                assert(edge_before(e, s[m]));
                assert forall|i: int, j: int| 0 <= i < j < r.len() implies edge_before(
                    #[trigger] r[i],
                    #[trigger] r[j],
                ) by {
                    if j == m {
                        assert(!p(s[i]));
                    } else if i == m {
                        assert(r[j] == s[j - 1]);
                        if j - 1 > m {
                            lemma_edge_order_trans(e, s[m], s[j - 1]);
                        }
                    } else if i < m && j > m {
                        assert(r[j] == s[j - 1]);
                    } else if i > m {
                        assert(r[i] == s[i - 1]);
                        assert(r[j] == s[j - 1]);
                    }
                }
                assert forall|x: EdgeView| r.contains(x) <==> (s.contains(x) || x == e) by {
                    if r.contains(x) {
                        let k = choose|k: int| 0 <= k < r.len() && r[k] == x;
                        if k < m {
                            assert(s[k] == x);
                        } else if k > m {
                            assert(s[k - 1] == x);
                        }
                    }
                    if s.contains(x) {
                        let k = choose|k: int| 0 <= k < s.len() && s[k] == x;
                        if k < m {
                            assert(r[k] == x);
                        } else {
                            assert(r[k + 1] == x);
                        }
                    }
                    if x == e {
                        assert(r[m] == x);
                    }
                }
            }
        },
    }
}

/// The edges of a call graph are sorted by depth, direction, file, line,
/// symbol and scope, no edge twice, and they are exactly the edges met by
/// the walk.
pub proof fn law_edges_sorted_and_unique(raw: Seq<EdgeView>)
    ensures
        edges_sorted(sort_edges(raw)),
        forall|x: EdgeView| sort_edges(raw).contains(x) <==> raw.contains(x),
    decreases raw.len(),
{
    if raw.len() > 0 {
        law_edges_sorted_and_unique(raw.drop_last());
        lemma_insert_edge(sort_edges(raw.drop_last()), raw.last());
        assert forall|x: EdgeView| sort_edges(raw).contains(x) <==> raw.contains(x) by {
            if raw.drop_last().contains(x) {
                let k = choose|k: int| 0 <= k < raw.len() - 1 && raw.drop_last()[k] == x;
                assert(raw[k] == x);
            }
            if raw.contains(x) && x != raw.last() {
                let k = choose|k: int| 0 <= k < raw.len() && raw[k] == x;
                assert(raw.drop_last()[k] == x);
            }
            if x == raw.last() {
                assert(raw[raw.len() - 1] == x);
            }
        }
    }
}

// ---------------------------------------------------------------------------
// Callers: sorted by file, line and name, each once
// ---------------------------------------------------------------------------

proof fn lemma_caller_order(a: DefView, b: DefView)
    ensures
        !caller_before(a, a),
        caller_before(a, b) ==> !caller_before(b, a),
        !same_caller(a, b) ==> caller_before(a, b) || caller_before(b, a),
{
    lemma_text_order_flip(a.1, b.1);
    lemma_text_order_flip(a.0, b.0);
    lemma_text_order_zero(a.1, b.1);
    lemma_text_order_zero(a.0, b.0);
    lemma_text_order_zero(a.1, a.1);
    lemma_text_order_zero(a.0, a.0);
}

proof fn lemma_caller_trans(a: DefView, b: DefView, c: DefView)
    requires
        caller_before(a, b),
        caller_before(b, c),
    ensures
        caller_before(a, c),
{
    lemma_text_order_zero(a.1, b.1);
    lemma_text_order_zero(b.1, c.1);
    lemma_text_order_zero(a.0, b.0);
    lemma_text_order_zero(b.0, c.0);
    if text_order(a.1, b.1) < 0 && text_order(b.1, c.1) < 0 {
        lemma_text_order_trans(a.1, b.1, c.1);
    }
    if text_order(a.0, b.0) < 0 && text_order(b.0, c.0) < 0 {
        lemma_text_order_trans(a.0, b.0, c.0);
    }
}

/// Every caller comes strictly before the ones after it.
pub open spec fn callers_sorted(s: Seq<DefView>) -> bool {
    forall|i: int, j: int| 0 <= i < j < s.len() ==> caller_before(#[trigger] s[i], #[trigger] s[j])
}

proof fn lemma_insert_caller(s: Seq<DefView>, d: DefView)
    requires
        callers_sorted(s),
    ensures
        callers_sorted(insert_caller(s, d)),
        forall|x: DefView| insert_caller(s, d).contains(x) ==> (s.contains(x) || x == d),
        forall|x: DefView| s.contains(x) ==> insert_caller(s, d).contains(x),
        exists|k: int|
            0 <= k < insert_caller(s, d).len() && same_caller(#[trigger] insert_caller(s, d)[k], d),
{
    let p = not_before(d);
    lemma_first_where(s, p);
    let r = insert_caller(s, d);
    match first_where(s, p) {
        None => {
            assert forall|i: int, j: int| 0 <= i < j < r.len() implies caller_before(
                #[trigger] r[i],
                #[trigger] r[j],
            ) by {
                if j == s.len() {
                    assert(!p(s[i]));
                }
            }
            assert forall|x: DefView| r.contains(x) implies (s.contains(x) || x == d) by {
                let k = choose|k: int| 0 <= k < r.len() && r[k] == x;
                if k < s.len() {
                    assert(s[k] == x);
                }
            }
            assert forall|x: DefView| s.contains(x) implies r.contains(x) by {
                let k = choose|k: int| 0 <= k < s.len() && s[k] == x;
                assert(r[k] == x);
            }
            assert(same_caller(r[s.len() as int], d));
        },
        Some(m) => {
            if same_caller(s[m], d) {
                assert(same_caller(r[m], d));
            } else {
                lemma_caller_order(s[m], d);
                assert(caller_before(d, s[m]));
                assert forall|i: int, j: int| 0 <= i < j < r.len() implies caller_before(
                    #[trigger] r[i],
                    #[trigger] r[j],
                ) by {
                    if j == m {
                        assert(!p(s[i]));
                    } else if i == m {
                        assert(r[j] == s[j - 1]);
                        if j - 1 > m {
                            lemma_caller_trans(d, s[m], s[j - 1]);
                        }
                    } else if i < m && j > m {
                        assert(r[j] == s[j - 1]);
                    } else if i > m {
                        assert(r[i] == s[i - 1]);
                        assert(r[j] == s[j - 1]);
                    }
                }
                assert forall|x: DefView| r.contains(x) implies (s.contains(x) || x == d) by {
                    let k = choose|k: int| 0 <= k < r.len() && r[k] == x;
                    if k < m {
                        assert(s[k] == x);
                    } else if k > m {
                        assert(s[k - 1] == x);
                    }
                }
                assert forall|x: DefView| s.contains(x) implies r.contains(x) by {
                    let k = choose|k: int| 0 <= k < s.len() && s[k] == x;
                    if k < m {
                        assert(r[k] == x);
                    } else {
                        assert(r[k + 1] == x);
                    }
                }
                assert(same_caller(r[m], d));
            }
        },
    }
}

/// The callers of a symbol come sorted by file, line and name, no two with
/// the same file, line and name; each is one of the definitions met at a
/// call, and every definition met at a call has one of its file, line and
/// name among them.
pub proof fn law_callers_sorted_and_unique(raw: Seq<DefView>)
    ensures
        callers_sorted(sort_callers(raw)),
        forall|x: DefView| sort_callers(raw).contains(x) ==> raw.contains(x),
        forall|i: int|
            #![trigger raw[i]]
            0 <= i < raw.len() ==> exists|k: int|
                0 <= k < sort_callers(raw).len() && same_caller(
                    #[trigger] sort_callers(raw)[k],
                    raw[i],
                ),
    decreases raw.len(),
{
    if raw.len() > 0 {
        let prev = sort_callers(raw.drop_last());
        law_callers_sorted_and_unique(raw.drop_last());
        lemma_insert_caller(prev, raw.last());
        let r = sort_callers(raw);
        assert forall|x: DefView| r.contains(x) implies raw.contains(x) by {
            if prev.contains(x) {
                assert(raw.drop_last().contains(x));
                let k = choose|k: int| 0 <= k < raw.drop_last().len() && raw.drop_last()[k] == x;
                assert(raw[k] == raw.drop_last()[k]);
            } else {
                assert(raw[raw.len() - 1] == x);
            }
        }
        assert forall|i: int| #![trigger raw[i]] 0 <= i < raw.len() implies exists|k: int|
            0 <= k < r.len() && same_caller(#[trigger] r[k], raw[i]) by {
            if i < raw.len() - 1 {
                assert(raw.drop_last()[i] == raw[i]);
                let k = choose|k: int| 0 <= k < prev.len() && same_caller(prev[k], raw[i]);
                assert(prev.contains(prev[k]));
                assert(r.contains(prev[k]));
                let k2 = choose|k2: int| 0 <= k2 < r.len() && r[k2] == prev[k];
                assert(same_caller(r[k2], raw[i]));
            }
        }
    }
}

// ---------------------------------------------------------------------------
// Depths
// ---------------------------------------------------------------------------

proof fn lemma_sweep_edges(
    frontier: Seq<DefView>,
    visited: Set<DefKey>,
    depth: usize,
    max: usize,
    fs: Seq<ParsedFile>,
    defs: Seq<DefView>,
    dir: EdgeDirection,
)
    ensures
        forall|i: int|
            0 <= i < sweep(frontier, visited, depth, max, fs, defs, dir).1.len() ==> {
                let e = #[trigger] sweep(frontier, visited, depth, max, fs, defs, dir).1[i];
                e.5 == depth && e.0 == dir
            },
    decreases frontier.len(),
{
    if frontier.len() > 0 {
        lemma_sweep_edges(frontier.drop_last(), visited, depth, max, fs, defs, dir);
    }
}

/// Every edge of a walk has the walk's direction and a depth between the
/// level it starts at and the greatest depth asked for.
pub proof fn law_walk_depths(
    frontier: Seq<DefView>,
    visited: Set<DefKey>,
    depth: usize,
    max: usize,
    fs: Seq<ParsedFile>,
    defs: Seq<DefView>,
    dir: EdgeDirection,
)
    ensures
        forall|i: int|
            0 <= i < levels(frontier, visited, depth, max, fs, defs, dir).len() ==> {
                let e = #[trigger] levels(frontier, visited, depth, max, fs, defs, dir)[i];
                depth <= e.5 <= max && e.0 == dir
            },
    decreases max - depth,
{
    if frontier.len() > 0 && depth <= max {
        let s = sweep(frontier, visited, depth, max, fs, defs, dir);
        lemma_sweep_edges(frontier, visited, depth, max, fs, defs, dir);
        if depth < max {
            law_walk_depths(s.2, s.0, (depth + 1) as usize, max, fs, defs, dir);
            let l = levels(frontier, visited, depth, max, fs, defs, dir);
            assert(l == s.1 + levels(s.2, s.0, (depth + 1) as usize, max, fs, defs, dir));
            assert forall|i: int| 0 <= i < l.len() implies depth <= (#[trigger] l[i]).5 <= max
                && l[i].0 == dir by {
                if i >= s.1.len() {
                    assert(l[i] == levels(s.2, s.0, (depth + 1) as usize, max, fs, defs, dir)[i
                        - s.1.len()]);
                }
            }
        }
    }
}

// ---------------------------------------------------------------------------
// The token budget
// ---------------------------------------------------------------------------

/// The rows kept under a token budget are those of a prefix of the edges
/// (all of them when nothing is marked truncated); their JSON text fits the
/// budget, unless even no rows do not fit, and then no rows are kept and
/// the result is marked truncated.
pub proof fn law_budget_keeps_prefix_within_budget(
    es: Seq<EdgeView>,
    symbol: Seq<char>,
    max_tokens: usize,
    truncated: bool,
)
    ensures
        fit_rows(es, symbol, max_tokens, truncated) matches Ok((rows, t)) ==> {
            &&& exists|k: int| 0 <= k <= es.len() && rows == edge_rows_text(#[trigger] es.take(k)) && (
            k < es.len() ==> t)
            &&& (!t ==> rows == edge_rows_text(es))
            &&& truncated ==> t
            &&& (rows.len() == 0 && t) || (result_json(symbol, rows, t) matches Some(text)
                && cl100k_tokens(text) matches Some(n) && n <= max_tokens)
        },
    decreases es.len(),
{
    assert(es.take(es.len() as int) =~= es);
    match fit_rows(es, symbol, max_tokens, truncated) {
        Ok((rows, t)) => {
            let text = result_json(symbol, edge_rows_text(es), truncated).unwrap();
            let n = cl100k_tokens(text).unwrap();
            if n <= max_tokens {
                assert(rows == edge_rows_text(es.take(es.len() as int)));
            } else if es.len() == 0 {
                assert(es.take(0).len() == 0);
                assert(edge_rows_text(es.take(0)) =~= seq![]);
                assert(rows == edge_rows_text(es.take(0)));
            } else {
                law_budget_keeps_prefix_within_budget(es.drop_last(), symbol, max_tokens, true);
                let k = choose|k: int|
                    0 <= k <= es.drop_last().len() && rows == edge_rows_text(
                        #[trigger] es.drop_last().take(k),
                    ) && (k < es.drop_last().len() ==> t);
                assert(es.drop_last().take(k) =~= es.take(k));
                assert(rows == edge_rows_text(es.take(k)));
            }
        },
        Err(_) => {},
    }
}

/// The JSON text of a call graph fits its token budget, unless even an
/// empty graph does not, and then it carries no rows and is marked
/// truncated.
pub proof fn law_call_graph_within_budget(
    fs: Seq<ParsedFile>,
    t: DefView,
    symbol: Seq<char>,
    direction: Direction,
    depth: usize,
    max_tokens: usize,
)
    ensures
        graph_result(fs, t, symbol, direction, depth, max_tokens) matches Ok(text) ==> (
        cl100k_tokens(text) matches Some(n) && n <= max_tokens) || Some(text) == result_json(
            symbol,
            seq![],
            true,
        ),
{
    let edges = sort_edges(graph_edges(fs, project_defs(fs), t, direction, clamp_depth(depth)));
    law_budget_keeps_prefix_within_budget(edges, symbol, max_tokens, false);
}

/// Every edge of a call graph has a depth between 1 and the depth asked
/// for (brought into 1..=3), and the graph's edges come sorted and each
/// once.
pub proof fn law_call_graph_edges(
    fs: Seq<ParsedFile>,
    t: DefView,
    direction: Direction,
    depth: usize,
)
    ensures
        ({
            let raw = graph_edges(fs, project_defs(fs), t, direction, clamp_depth(depth));
            &&& forall|i: int| 0 <= i < raw.len() ==> 1 <= (#[trigger] raw[i]).5 <= clamp_depth(depth)
            &&& edges_sorted(sort_edges(raw))
            &&& forall|x: EdgeView| sort_edges(raw).contains(x) <==> raw.contains(x)
        }),
{
    let defs = project_defs(fs);
    let max = clamp_depth(depth);
    let raw = graph_edges(fs, defs, t, direction, max);
    law_walk_depths(seq![t], Set::empty(), 1, max, fs, defs, EdgeDirection::Callee);
    law_walk_depths(seq![t], Set::empty(), 1, max, fs, defs, EdgeDirection::Caller);
    let a = if direction != Direction::Callers {
        levels(seq![t], Set::empty(), 1, max, fs, defs, EdgeDirection::Callee)
    } else {
        seq![]
    };
    let b = if direction != Direction::Callees {
        levels(seq![t], Set::empty(), 1, max, fs, defs, EdgeDirection::Caller)
    } else {
        seq![]
    };
    assert(raw == a + b);
    assert forall|i: int| 0 <= i < raw.len() implies 1 <= (#[trigger] raw[i]).5 <= max by {
        if i < a.len() {
            assert(raw[i] == a[i]);
        } else {
            assert(raw[i] == b[i - a.len()]);
        }
    }
    law_edges_sorted_and_unique(raw);
}

} // verus!
