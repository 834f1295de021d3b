//! What holds of every list of usages and every code map: usages come
//! sorted by file, line, column, usage type and scope, and files by
//! decreasing number of symbols, both sorts only reordering; and the
//! context lines of the usages found never exceed the cap asked for; the
//! usage rows kept under a token budget are a prefix that fits it.
use vstd::prelude::*;
use crate::analysis::call_graph::{first_where, lemma_first_where};
use crate::analysis::code_map::{FileView, count_of, holds_fewer, insert_file, sort_files};
use crate::analysis::find_usages::{
    ContextBudget, UsageView, budget_allows, budget_used_after, comes_after, insert_usage,
    sort_usage_views, usage_before, usage_search,
};
use crate::parser::Language;
use crate::syntax::SyntaxTree;
use crate::text::{lemma_text_order_trans, lemma_text_order_zero, text_order};

verus! {

proof fn lemma_usage_before_trans(a: UsageView, b: UsageView, c: UsageView)
    requires
        usage_before(a, b),
        usage_before(b, c),
    ensures
        usage_before(a, c),
{
    lemma_text_order_zero(a.0, b.0);
    lemma_text_order_zero(b.0, c.0);
    lemma_text_order_zero(a.3, b.3);
    lemma_text_order_zero(b.3, c.3);
    if text_order(a.0, b.0) < 0 && text_order(b.0, c.0) < 0 {
        lemma_text_order_trans(a.0, b.0, c.0);
    }
    if text_order(a.3, b.3) < 0 && text_order(b.3, c.3) < 0 {
        lemma_text_order_trans(a.3, b.3, c.3);
    }
    if text_order(a.5, b.5) < 0 && text_order(b.5, c.5) < 0 {
        lemma_text_order_trans(a.5, b.5, c.5);
    }
}

/// No usage comes before one placed ahead of it.
pub open spec fn usages_sorted(s: Seq<UsageView>) -> bool {
    forall|i: int, j: int| 0 <= i < j < s.len() ==> !usage_before(#[trigger] s[j], #[trigger] s[i])
}

/// The usages come sorted by file, line, column, usage type and scope,
/// and sorting only reorders them: each occurs as often as before.
pub proof fn law_usages_sorted(raw: Seq<UsageView>)
    ensures
        usages_sorted(sort_usage_views(raw)),
        sort_usage_views(raw).to_multiset() == raw.to_multiset(),
    decreases raw.len(),
{
    if raw.len() == 0 {
        assert(raw.to_multiset().len() == 0) by {
            raw.to_multiset_ensures();
        }
        assert(raw.to_multiset() =~= vstd::multiset::Multiset::empty());
        assert(sort_usage_views(raw).to_multiset().len() == 0) by {
            sort_usage_views(raw).to_multiset_ensures();
        }
        assert(sort_usage_views(raw).to_multiset() =~= vstd::multiset::Multiset::empty());
    } else {
        let s = sort_usage_views(raw.drop_last());
        let d = raw.last();
        law_usages_sorted(raw.drop_last());
        let p = comes_after(d);
        lemma_first_where(s, p);
        let r = insert_usage(s, d);
        match first_where(s, p) {
            None => {
                assert forall|i: int, j: int| 0 <= i < j < r.len() implies !usage_before(
                    #[trigger] r[j],
                    #[trigger] r[i],
                ) by {
                    if j == s.len() {
                        assert(!p(s[i]));
                    }
                }
                vstd::seq_lib::to_multiset_build(s, d);
            },
            Some(m) => {
                assert(usage_before(d, s[m]));
                assert forall|i: int, j: int| 0 <= i < j < r.len() implies !usage_before(
                    #[trigger] r[j],
                    #[trigger] r[i],
                ) by {
                    if j < m {
                        assert(r[i] == s[i] && r[j] == s[j]);
                    } else if j == m {
                        assert(r[i] == s[i]);
                        assert(r[j] == d);
                        assert(!p(s[i]));
                    } else if i < m {
                        assert(r[i] == s[i] && r[j] == s[j - 1]);
                    } else if i == m {
                        assert(r[i] == d);
                        assert(r[j] == s[j - 1]);
                        if usage_before(s[j - 1], d) {
                            lemma_usage_before_trans(s[j - 1], d, s[m]);
                            let x = s[m];
                            lemma_text_order_zero(x.0, x.0);
                            lemma_text_order_zero(x.3, x.3);
                            lemma_text_order_zero(x.5, x.5);
                        }
                    } else {
                        assert(r[i] == s[i - 1] && r[j] == s[j - 1]);
                    }
                }
                vstd::seq_lib::to_multiset_insert(s, m, d);
            },
        }
        assert(raw =~= raw.drop_last().push(d));
        vstd::seq_lib::to_multiset_build(raw.drop_last(), d);
    }
}

/// No file holds more symbols than one placed ahead of it.
pub open spec fn files_by_count(s: Seq<FileView>) -> bool {
    forall|i: int, j: int| 0 <= i < j < s.len() ==> count_of(#[trigger] s[j]) <= count_of(#[trigger] s[i])
}

/// The files of a code map come by decreasing number of symbols, and
/// sorting only reorders them.
pub proof fn law_files_by_symbol_count(raw: Seq<FileView>)
    ensures
        files_by_count(sort_files(raw)),
        sort_files(raw).to_multiset() == raw.to_multiset(),
    decreases raw.len(),
{
    if raw.len() == 0 {
        assert(raw.to_multiset().len() == 0) by {
            raw.to_multiset_ensures();
        }
        assert(raw.to_multiset() =~= vstd::multiset::Multiset::empty());
        assert(sort_files(raw).to_multiset().len() == 0) by {
            sort_files(raw).to_multiset_ensures();
        }
        assert(sort_files(raw).to_multiset() =~= vstd::multiset::Multiset::empty());
    } else {
        let s = sort_files(raw.drop_last());
        let d = raw.last();
        law_files_by_symbol_count(raw.drop_last());
        let p = holds_fewer(d);
        lemma_first_where(s, p);
        let r = insert_file(s, d);
        match first_where(s, p) {
            None => {
                assert forall|i: int, j: int| 0 <= i < j < r.len() implies count_of(#[trigger] r[j])
                    <= count_of(#[trigger] r[i]) by {
                    if j == s.len() {
                        assert(!p(s[i]));
                    }
                }
                vstd::seq_lib::to_multiset_build(s, d);
            },
            Some(m) => {
                assert forall|i: int, j: int| 0 <= i < j < r.len() implies count_of(#[trigger] r[j])
                    <= count_of(#[trigger] r[i]) by {
                    if j < m {
                        assert(r[i] == s[i] && r[j] == s[j]);
                    } else if j == m {
                        assert(r[i] == s[i]);
                        assert(!p(s[i]));
                    } else if i < m {
                        assert(r[i] == s[i] && r[j] == s[j - 1]);
                    } else if i == m {
                        assert(r[j] == s[j - 1]);
                        assert(p(s[m]));
                    } else {
                        assert(r[i] == s[i - 1] && r[j] == s[j - 1]);
                    }
                }
                vstd::seq_lib::to_multiset_insert(s, m, d);
            },
        }
        assert(raw =~= raw.drop_last().push(d));
        vstd::seq_lib::to_multiset_build(raw.drop_last(), d);
    }
}

/// A search for usages never uses more context lines than the cap: when
/// the budget starts within its cap it ends within it, with the same cap.
pub proof fn law_context_lines_capped(
    t: SyntaxTree,
    symbol: Seq<char>,
    path: Seq<char>,
    l: Language,
    context_lines: u32,
    b: ContextBudget,
    k: int,
)
    requires
        b.max_total_lines matches Some(m) ==> b.used_lines <= m,
    ensures
        ({
            let r = usage_search(t, symbol, path, l, context_lines, b, k).2;
            &&& r.max_total_lines == b.max_total_lines
            &&& r.max_total_lines matches Some(m) ==> r.used_lines <= m
        }),
    decreases t.len() - k,
{
    if 0 <= k < t.len() {
        let zero = b.max_total_lines == Some(0u32);
        let ctx = crate::analysis::find_usages::usage_context(t, k, context_lines, zero);
        let n = (crate::text::lines(ctx).len() as u32) as int;
        let b2 = ContextBudget {
            max_total_lines: b.max_total_lines,
            used_lines: budget_used_after(b, n) as u32,
        };
        law_context_lines_capped(t, symbol, path, l, context_lines, b, k + 1);
        if budget_allows(b, n) {
            law_context_lines_capped(t, symbol, path, l, context_lines, b2, k + 1);
        }
    }
}

/// The rows of usages joined with newlines.
pub open spec fn usage_rows_of(us: Seq<UsageView>) -> Seq<char> {
    crate::text::join(us.map_values(|u: UsageView| crate::analysis::find_usages::usage_row_text(u)), seq!['\n'])
}

/// The usage rows kept under a token budget are those of a prefix of the
/// usages (all of them when nothing is marked truncated); their JSON text
/// fits the budget, unless even no rows do not fit, and then no rows are
/// kept and the result is marked truncated.
pub proof fn law_usage_rows_within_budget(
    us: Seq<UsageView>,
    symbol: Seq<char>,
    header: Seq<char>,
    max_tokens: usize,
    truncated: bool,
)
    ensures
        crate::analysis::find_usages::fit_usage_rows(us, symbol, header, max_tokens, truncated) matches Some(
            (rows, t),
        ) ==> {
            &&& exists|k: int| 0 <= k <= us.len() && rows == usage_rows_of(#[trigger] us.take(k)) && (k < us.len()
                ==> t)
            &&& (!t ==> rows == usage_rows_of(us))
            &&& truncated ==> t
            &&& (rows.len() == 0 && t) || (crate::analysis::find_usages::usages_json(symbol, header, rows, t) matches Some(
                text,
            ) && crate::analysis::call_graph::cl100k_tokens(text) matches Some(n) && n <= max_tokens)
        },
    decreases us.len(),
{
    assert(us.take(us.len() as int) =~= us);
    match crate::analysis::find_usages::fit_usage_rows(us, symbol, header, max_tokens, truncated) {
        Some((rows, t)) => {
            let text = crate::analysis::find_usages::usages_json(symbol, header, usage_rows_of(us), truncated).unwrap();
            let n = crate::analysis::call_graph::cl100k_tokens(text).unwrap();
            if n <= max_tokens {
                assert(rows == usage_rows_of(us.take(us.len() as int)));
            } else if us.len() == 0 {
                assert(usage_rows_of(us.take(0)) =~= seq![]);
                assert(rows == usage_rows_of(us.take(0)));
            } else {
                law_usage_rows_within_budget(us.drop_last(), symbol, header, max_tokens, true);
                let k = choose|k: int|
                    0 <= k <= us.drop_last().len() && rows == usage_rows_of(#[trigger] us.drop_last().take(k)) && (k
                        < us.drop_last().len() ==> t);
                assert(us.drop_last().take(k) =~= us.take(k));
                assert(rows == usage_rows_of(us.take(k)));
            }
        },
        None => {},
    }
}

} // verus!
