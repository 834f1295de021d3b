//! What every resolution step keeps: it only asks what is not known yet,
//! and the dependencies it gives are files known to exist inside the
//! project.
use vstd::prelude::*;
use crate::analysis::dependencies::{exists_flag, first_pick, pick_paths, Group, PickRule};
use crate::analysis::resolve::{
    canonical_at, canonical_questions, file_flags, file_in, go_fold, go_plan, kind_at, kind_questions,
    listing_at, plan_of, FactsView, QuestionView,
};
use crate::parser::Language;
use crate::syntax::SyntaxTree;

verus! {

/// No fact answers the question yet.
pub open spec fn unanswered(q: QuestionView, f: FactsView) -> bool {
    match q {
        QuestionView::Kind(p) => kind_at(f.kinds, p) is None,
        QuestionView::Listing(d) => listing_at(f.listings, d) is None,
        QuestionView::GoMod => !f.go_mod_read,
        QuestionView::Canonical(p) => canonical_at(f.canonical, p) is None,
    }
}

pub open spec fn all_unanswered(qs: Seq<QuestionView>, f: FactsView) -> bool {
    forall|i: int| 0 <= i < qs.len() ==> unanswered(#[trigger] qs[i], f)
}

proof fn lemma_concat(a: Seq<QuestionView>, b: Seq<QuestionView>, f: FactsView)
    requires
        all_unanswered(a, f),
        all_unanswered(b, f),
    ensures
        all_unanswered(a + b, f),
{
    assert forall|i: int| 0 <= i < (a + b).len() implies unanswered(#[trigger] (a + b)[i], f) by {
        if i < a.len() {
            assert((a + b)[i] == a[i]);
        } else {
            assert((a + b)[i] == b[i - a.len()]);
        }
    }
}

proof fn lemma_kind_questions(paths: Seq<Seq<char>>, f: FactsView)
    ensures
        all_unanswered(kind_questions(paths, f), f),
    decreases paths.len(),
{
    if paths.len() > 0 {
        lemma_kind_questions(paths.drop_last(), f);
        let tail = if kind_at(f.kinds, paths.last()) is None {
            seq![QuestionView::Kind(paths.last())]
        } else {
            seq![]
        };
        assert(all_unanswered(tail, f));
        lemma_concat(kind_questions(paths.drop_last(), f), tail, f);
    }
}

proof fn lemma_canonical_questions(paths: Seq<Seq<char>>, f: FactsView)
    ensures
        all_unanswered(canonical_questions(paths, f), f),
    decreases paths.len(),
{
    if paths.len() > 0 {
        lemma_canonical_questions(paths.drop_last(), f);
        let tail = if canonical_at(f.canonical, paths.last()) is None {
            seq![QuestionView::Canonical(paths.last())]
        } else {
            seq![]
        };
        assert(all_unanswered(tail, f));
        lemma_concat(canonical_questions(paths.drop_last(), f), tail, f);
    }
}

proof fn lemma_go_fold(pkgs: Seq<Seq<char>>, f: FactsView, root: Seq<char>, current: Seq<char>)
    ensures
        all_unanswered(go_fold(pkgs, f, root, current).0, f),
    decreases pkgs.len(),
{
    if pkgs.len() > 0 {
        lemma_go_fold(pkgs.drop_last(), f, root, current);
        let prev = go_fold(pkgs.drop_last(), f, root, current);
        let d = pkgs.last();
        match listing_at(f.listings, d) {
            None => {
                lemma_concat(prev.0, seq![QuestionView::Listing(d)], f);
                assert(prev.0.push(QuestionView::Listing(d)) == prev.0 + seq![QuestionView::Listing(d)]);
            },
            Some(None) => {},
            Some(Some(es)) => {
                let files = crate::analysis::dependencies::sorted_go_files(
                    crate::analysis::resolve::keep_under(es, root),
                );
                lemma_canonical_questions(files, f);
                lemma_concat(prev.0, canonical_questions(files, f), f);
            },
        }
    }
}

/// Each question a resolution step asks is one that no fact answers yet,
/// so answering them always adds to what is known.
pub proof fn law_questions_are_new(
    t: SyntaxTree,
    l: Language,
    source: Seq<char>,
    file: Seq<char>,
    root: Seq<char>,
    f: FactsView,
)
    ensures
        all_unanswered(plan_of(t, l, source, file, root, f).0, f),
{
    let srcq = crate::analysis::dependencies::join_path(root, "src"@);
    let pre = match l {
        Language::Rust => seq![srcq],
        Language::Haskell => crate::analysis::dependencies::haskell_root_candidates_of(file, root),
        _ => seq![],
    };
    match crate::analysis::dependencies::file_groups(
        t,
        l,
        source,
        file,
        root,
        crate::analysis::resolve::dir_at(f, srcq),
        crate::analysis::resolve::haskell_roots(file, root, f),
    ) {
        Some((g, rule)) => {
            lemma_kind_questions(pre + crate::analysis::resolve::flat(g), f);
        },
        None => {
            if l == Language::Go {
                let cands = crate::analysis::resolve::go_candidates(
                    crate::analysis::resolve::go_imports(t),
                    crate::analysis::dependencies::file_dir(file, root),
                    root,
                    crate::analysis::resolve::go_module_known(f),
                );
                let fold = go_fold(
                    crate::analysis::resolve::go_packages(cands, f, root),
                    f,
                    root,
                    crate::analysis::resolve::canonical_or(f, file),
                );
                let head: Seq<QuestionView> = if f.go_mod_read {
                    seq![]
                } else {
                    seq![QuestionView::GoMod]
                };
                assert(all_unanswered(head, f));
                lemma_kind_questions(cands, f);
                lemma_canonical_questions(seq![file], f);
                lemma_go_fold(
                    crate::analysis::resolve::go_packages(cands, f, root),
                    f,
                    root,
                    crate::analysis::resolve::canonical_or(f, file),
                );
                lemma_concat(head, kind_questions(cands, f), f);
                lemma_concat(head + kind_questions(cands, f), canonical_questions(seq![file], f), f);
                lemma_concat(
                    head + kind_questions(cands, f) + canonical_questions(seq![file], f),
                    fold.0,
                    f,
                );
                assert(go_plan(t, file, root, f).0 == head + kind_questions(cands, f)
                    + canonical_questions(seq![file], f) + fold.0);
            }
        },
    }
}

proof fn lemma_first_pick_flagged(
    grp: Group,
    e: Seq<Seq<bool>>,
    gi: int,
    seen: Set<Seq<char>>,
    unseen: bool,
    j: int,
)
    ensures
        first_pick(grp, e, gi, seen, unseen, j) matches Some(k) ==> 0 <= k < grp.len() && exists_flag(e, gi, k),
    decreases grp.len() - j,
{
    if 0 <= j < grp.len() {
        lemma_first_pick_flagged(grp, e, gi, seen, unseen, j + 1);
    }
}

/// Every path picked is a candidate whose flag is set.
proof fn lemma_picked_flagged(groups: Seq<Group>, e: Seq<Seq<bool>>, rule: PickRule)
    ensures
        forall|k: int|
            0 <= k < pick_paths(groups, e, rule).0.len() ==> exists|g: int, j: int|
                0 <= g < groups.len() && 0 <= j < groups[g].len() && exists_flag(e, g, j)
                    && groups[g][j] == #[trigger] pick_paths(groups, e, rule).0[k],
    decreases groups.len(),
{
    if groups.len() > 0 {
        lemma_picked_flagged(groups.drop_last(), e, rule);
        let prev = pick_paths(groups.drop_last(), e, rule);
        let gi = groups.len() - 1;
        let grp = groups.last();
        lemma_first_pick_flagged(grp, e, gi, prev.1, rule == PickRule::FirstExistingUnseen, 0);
        let cur = pick_paths(groups, e, rule).0;
        assert forall|k: int| 0 <= k < cur.len() implies exists|g: int, j: int|
            0 <= g < groups.len() && 0 <= j < groups[g].len() && exists_flag(e, g, j) && groups[g][j]
                == #[trigger] cur[k] by {
            if k < prev.0.len() {
                assert(cur[k] == prev.0[k]);
                let (g, j) = choose|g: int, j: int|
                    0 <= g < groups.drop_last().len() && 0 <= j < groups.drop_last()[g].len() && exists_flag(
                        e,
                        g,
                        j,
                    ) && groups.drop_last()[g][j] == #[trigger] prev.0[k];
                assert(groups[g] == groups.drop_last()[g]);
            } else {
                let j = first_pick(grp, e, gi, prev.1, rule == PickRule::FirstExistingUnseen, 0).unwrap();
                assert(cur[k] == grp[j]);
                assert(groups[gi] == grp);
            }
        }
    }
}

/// Outside Go, every dependency a step gives is a path known to be a file
/// inside the project root.
pub proof fn law_dependencies_are_files(
    t: SyntaxTree,
    l: Language,
    source: Seq<char>,
    file: Seq<char>,
    root: Seq<char>,
    f: FactsView,
)
    requires
        l != Language::Go,
    ensures
        forall|k: int|
            0 <= k < plan_of(t, l, source, file, root, f).1.len() ==> file_in(
                f,
                #[trigger] plan_of(t, l, source, file, root, f).1[k],
                root,
            ),
{
    let srcq = crate::analysis::dependencies::join_path(root, "src"@);
    match crate::analysis::dependencies::file_groups(
        t,
        l,
        source,
        file,
        root,
        crate::analysis::resolve::dir_at(f, srcq),
        crate::analysis::resolve::haskell_roots(file, root, f),
    ) {
        Some((g, rule)) => {
            let e = file_flags(g, f, root);
            lemma_picked_flagged(g, e, rule);
            let deps = pick_paths(g, e, rule).0;
            assert forall|k: int| 0 <= k < deps.len() implies file_in(f, #[trigger] deps[k], root) by {
                let (gg, j) = choose|gg: int, j: int|
                    0 <= gg < g.len() && 0 <= j < g[gg].len() && exists_flag(e, gg, j) && g[gg][j]
                        == #[trigger] deps[k];
                assert(e[gg] == g[gg].map_values(|p: Seq<char>| file_in(f, p, root)));
                assert(e[gg][j] == file_in(f, g[gg][j], root));
            }
        },
        None => {},
    }
}

/// Every path of `paths` lies inside `root`.
pub open spec fn all_under(paths: Seq<Seq<char>>, root: Seq<char>) -> bool {
    forall|k: int| 0 <= k < paths.len() ==> crate::analysis::resolve::under(#[trigger] paths[k], root)
}

proof fn lemma_keep_under(paths: Seq<Seq<char>>, root: Seq<char>)
    ensures
        all_under(crate::analysis::resolve::keep_under(paths, root), root),
    decreases paths.len(),
{
    if paths.len() > 0 {
        lemma_keep_under(paths.drop_last(), root);
    }
}

proof fn lemma_sorted_go_files_under(listing: Seq<Seq<char>>, root: Seq<char>)
    requires
        all_under(listing, root),
    ensures
        all_under(crate::analysis::dependencies::sorted_go_files(listing), root),
    decreases listing.len(),
{
    if listing.len() > 0 {
        let prev = crate::analysis::dependencies::sorted_go_files(listing.drop_last());
        assert(all_under(listing.drop_last(), root)) by {
            assert forall|k: int| 0 <= k < listing.drop_last().len() implies crate::analysis::resolve::under(
                #[trigger] listing.drop_last()[k],
                root,
            ) by {
                assert(listing.drop_last()[k] == listing[k]);
            }
        }
        lemma_sorted_go_files_under(listing.drop_last(), root);
        let d = listing.last();
        assert(crate::analysis::resolve::under(listing[listing.len() - 1], root));
        let p = crate::analysis::dependencies::after_text(d);
        crate::analysis::call_graph::lemma_first_where(prev, p);
        match crate::analysis::call_graph::first_where(prev, p) {
            None => {
                assert(all_under(prev.push(d), root)) by {
                    assert forall|k: int| 0 <= k < prev.push(d).len() implies crate::analysis::resolve::under(
                        #[trigger] prev.push(d)[k],
                        root,
                    ) by {
                        if k < prev.len() {
                            assert(prev.push(d)[k] == prev[k]);
                        }
                    }
                }
            },
            Some(i) => {
                assert(all_under(prev.insert(i, d), root)) by {
                    assert forall|k: int| 0 <= k < prev.insert(i, d).len() implies crate::analysis::resolve::under(
                        #[trigger] prev.insert(i, d)[k],
                        root,
                    ) by {
                        if k < i {
                            assert(prev.insert(i, d)[k] == prev[k]);
                        } else if k > i {
                            assert(prev.insert(i, d)[k] == prev[k - 1]);
                        }
                    }
                }
            },
        }
    }
}

proof fn lemma_go_new_files_under(
    files: Seq<Seq<char>>,
    f: FactsView,
    current: Seq<char>,
    seen: Set<Seq<char>>,
    root: Seq<char>,
)
    requires
        all_under(files, root),
    ensures
        all_under(crate::analysis::resolve::go_new_files(files, f, current, seen).0, root),
    decreases files.len(),
{
    if files.len() > 0 {
        assert(all_under(files.drop_last(), root)) by {
            assert forall|k: int| 0 <= k < files.drop_last().len() implies crate::analysis::resolve::under(
                #[trigger] files.drop_last()[k],
                root,
            ) by {
                assert(files.drop_last()[k] == files[k]);
            }
        }
        lemma_go_new_files_under(files.drop_last(), f, current, seen, root);
        let prev = crate::analysis::resolve::go_new_files(files.drop_last(), f, current, seen).0;
        assert(crate::analysis::resolve::under(files[files.len() - 1], root));
        assert forall|k: int| 0 <= k < prev.push(files.last()).len() implies crate::analysis::resolve::under(
            #[trigger] prev.push(files.last())[k],
            root,
        ) by {
            if k < prev.len() {
                assert(prev.push(files.last())[k] == prev[k]);
            }
        }
    }
}

proof fn lemma_go_fold_under(pkgs: Seq<Seq<char>>, f: FactsView, root: Seq<char>, current: Seq<char>)
    ensures
        all_under(go_fold(pkgs, f, root, current).1, root),
    decreases pkgs.len(),
{
    if pkgs.len() > 0 {
        lemma_go_fold_under(pkgs.drop_last(), f, root, current);
        let prev = go_fold(pkgs.drop_last(), f, root, current);
        match listing_at(f.listings, pkgs.last()) {
            Some(Some(es)) => {
                let kept = crate::analysis::resolve::keep_under(es, root);
                lemma_keep_under(es, root);
                lemma_sorted_go_files_under(kept, root);
                let files = crate::analysis::dependencies::sorted_go_files(kept);
                lemma_go_new_files_under(files, f, current, prev.2, root);
                let k = crate::analysis::resolve::go_new_files(files, f, current, prev.2);
                assert forall|j: int| 0 <= j < (prev.1 + k.0).len() implies crate::analysis::resolve::under(
                    #[trigger] (prev.1 + k.0)[j],
                    root,
                ) by {
                    if j < prev.1.len() {
                        assert((prev.1 + k.0)[j] == prev.1[j]);
                    } else {
                        assert((prev.1 + k.0)[j] == k.0[j - prev.1.len()]);
                    }
                }
            },
            _ => {},
        }
    }
}

/// In Go, every dependency a step gives is a path inside the project root.
pub proof fn law_go_dependencies_inside_root(
    t: SyntaxTree,
    source: Seq<char>,
    file: Seq<char>,
    root: Seq<char>,
    f: FactsView,
)
    ensures
        all_under(plan_of(t, Language::Go, source, file, root, f).1, root),
{
    let cands = crate::analysis::resolve::go_candidates(
        crate::analysis::resolve::go_imports(t),
        crate::analysis::dependencies::file_dir(file, root),
        root,
        crate::analysis::resolve::go_module_known(f),
    );
    lemma_go_fold_under(
        crate::analysis::resolve::go_packages(cands, f, root),
        f,
        root,
        crate::analysis::resolve::canonical_or(f, file),
    );
}

} // verus!
