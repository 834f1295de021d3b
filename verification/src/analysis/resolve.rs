//! Resolving the dependencies of a source file against what is known of
//! the disk. The library does not touch the disk: it says which facts it
//! still needs (what a path names, what a directory holds, the text of
//! `go.mod`, the canonical form of a path), and once all of them are
//! known, which files the source depends on.
use vstd::prelude::*;
use crate::analysis::dependencies::{
    file_dir, file_groups, groups_view, go_import_dir, go_module_of, go_source_file,
    groups_from_tree, haskell_root_candidates_of, haskell_source_roots, import_texts,
    pick_paths, read_go_module_path, resolve_go_import, select_dependencies, sorted_go_files,
    go_import_paths, Group, PickRule,
};
use crate::extraction::collect::{opt_chars, stripped_prefix};
use crate::parser::{parse_code, Language};
use crate::syntax::SyntaxTree;
use crate::text::{lines, str_eq, views};

verus! {

// ---------------------------------------------------------------------------
// Facts
// ---------------------------------------------------------------------------

/// What a path names on disk.
#[derive(Debug, Clone, Copy, PartialEq, Eq, Structural)]
pub enum PathKind {
    /// A file (`Path::is_file`).
    File,
    /// A directory (`Path::is_dir`).
    Dir,
    /// Nothing, or neither a file nor a directory.
    Other,
}

/// A path and what it names.
pub struct KindFact {
    pub path: String,
    pub kind: PathKind,
}

/// A directory and the paths of its entries (each the directory joined
/// with the entry's name); `None` when it could not be read.
pub struct ListingFact {
    pub dir: String,
    pub entries: Option<Vec<String>>,
}

/// A path and its canonical form (the path itself where it has none).
pub struct CanonicalFact {
    pub path: String,
    pub canonical: String,
}

/// What is known of the disk so far. Where a path occurs twice, its first
/// fact counts.
pub struct PathFacts {
    pub kinds: Vec<KindFact>,
    pub listings: Vec<ListingFact>,
    /// Whether `go.mod` at the project root was read.
    pub go_mod_read: bool,
    /// Its text, when it was read and could be.
    pub go_mod: Option<String>,
    pub canonical: Vec<CanonicalFact>,
}

/// A fact that is still needed.
#[derive(Debug, Clone, PartialEq, Eq)]
pub enum Question {
    /// What this path names.
    Kind(String),
    /// The entries of this directory.
    Listing(String),
    /// The text of `go.mod` at the project root.
    GoMod,
    /// The canonical form of this path.
    Canonical(String),
}

pub ghost enum QuestionView {
    Kind(Seq<char>),
    Listing(Seq<char>),
    GoMod,
    Canonical(Seq<char>),
}

pub ghost struct FactsView {
    pub kinds: Seq<(Seq<char>, PathKind)>,
    pub listings: Seq<(Seq<char>, Option<Seq<Seq<char>>>)>,
    pub go_mod_read: bool,
    pub go_mod: Option<Seq<char>>,
    pub canonical: Seq<(Seq<char>, Seq<char>)>,
}

impl View for KindFact {
    type V = (Seq<char>, PathKind);

    open spec fn view(&self) -> (Seq<char>, PathKind) {
        (self.path@, self.kind)
    }
}

impl View for ListingFact {
    type V = (Seq<char>, Option<Seq<Seq<char>>>);

    open spec fn view(&self) -> (Seq<char>, Option<Seq<Seq<char>>>) {
        (
            self.dir@,
            match self.entries {
                Some(e) => Some(views(e@)),
                None => None,
            },
        )
    }
}

impl View for CanonicalFact {
    type V = (Seq<char>, Seq<char>);

    open spec fn view(&self) -> (Seq<char>, Seq<char>) {
        (self.path@, self.canonical@)
    }
}

impl View for PathFacts {
    type V = FactsView;

    open spec fn view(&self) -> FactsView {
        FactsView {
            kinds: self.kinds@.map_values(|k: KindFact| k@),
            listings: self.listings@.map_values(|l: ListingFact| l@),
            go_mod_read: self.go_mod_read,
            go_mod: opt_chars(self.go_mod),
            canonical: self.canonical@.map_values(|c: CanonicalFact| c@),
        }
    }
}

impl View for Question {
    type V = QuestionView;

    open spec fn view(&self) -> QuestionView {
        match self {
            Question::Kind(p) => QuestionView::Kind(p@),
            Question::Listing(d) => QuestionView::Listing(d@),
            Question::GoMod => QuestionView::GoMod,
            Question::Canonical(p) => QuestionView::Canonical(p@),
        }
    }
}

pub open spec fn questions_view(q: Seq<Question>) -> Seq<QuestionView> {
    q.map_values(|x: Question| x@)
}

/// What the first fact on `p` says it names.
pub open spec fn kind_at(ks: Seq<(Seq<char>, PathKind)>, p: Seq<char>) -> Option<PathKind>
    decreases ks.len(),
{
    if ks.len() == 0 {
        None
    } else if ks[0].0 == p {
        Some(ks[0].1)
    } else {
        kind_at(ks.drop_first(), p)
    }
}

/// The entries the first listing of `d` gives (`Some(None)`: it could not
/// be read).
pub open spec fn listing_at(ls: Seq<(Seq<char>, Option<Seq<Seq<char>>>)>, d: Seq<char>) -> Option<
    Option<Seq<Seq<char>>>,
>
    decreases ls.len(),
{
    if ls.len() == 0 {
        None
    } else if ls[0].0 == d {
        Some(ls[0].1)
    } else {
        listing_at(ls.drop_first(), d)
    }
}

/// The canonical form the first fact on `p` gives.
pub open spec fn canonical_at(cs: Seq<(Seq<char>, Seq<char>)>, p: Seq<char>) -> Option<Seq<char>>
    decreases cs.len(),
{
    if cs.len() == 0 {
        None
    } else if cs[0].0 == p {
        Some(cs[0].1)
    } else {
        canonical_at(cs.drop_first(), p)
    }
}

fn lookup_kind(facts: &PathFacts, p: &str) -> (r: Option<PathKind>)
    ensures
        r == kind_at(facts@.kinds, p@),
{
    let ghost ks = facts@.kinds;
    let mut i: usize = 0;
    assert(ks.skip(0) =~= ks);
    while i < facts.kinds.len()
        invariant
            i <= facts.kinds.len(),
            ks == facts@.kinds,
            ks.len() == facts.kinds.len(),
            kind_at(ks, p@) == kind_at(ks.skip(i as int), p@),
        decreases facts.kinds.len() - i,
    {
        assert(ks.skip(i as int)[0] == facts.kinds@[i as int]@);
        assert(ks.skip(i as int).drop_first() =~= ks.skip(i + 1));
        if str_eq(facts.kinds[i].path.as_str(), p) {
            return Some(facts.kinds[i].kind);
        }
        i = i + 1;
    }
    assert(ks.skip(i as int).len() == 0);
    None
}

fn lookup_listing(facts: &PathFacts, d: &str) -> (r: Option<Option<Vec<String>>>)
    ensures
        match r {
            None => listing_at(facts@.listings, d@) is None,
            Some(None) => listing_at(facts@.listings, d@) == Some(None::<Seq<Seq<char>>>),
            Some(Some(e)) => listing_at(facts@.listings, d@) == Some(Some(views(e@))),
        },
{
    let ghost ls = facts@.listings;
    let mut i: usize = 0;
    assert(ls.skip(0) =~= ls);
    while i < facts.listings.len()
        invariant
            i <= facts.listings.len(),
            ls == facts@.listings,
            ls.len() == facts.listings.len(),
            listing_at(ls, d@) == listing_at(ls.skip(i as int), d@),
        decreases facts.listings.len() - i,
    {
        assert(ls.skip(i as int)[0] == facts.listings@[i as int]@);
        assert(ls.skip(i as int).drop_first() =~= ls.skip(i + 1));
        if str_eq(facts.listings[i].dir.as_str(), d) {
            return match &facts.listings[i].entries {
                None => Some(None),
                Some(e) => Some(Some(copy_strings(e))),
            };
        }
        i = i + 1;
    }
    assert(ls.skip(i as int).len() == 0);
    None
}

fn lookup_canonical(facts: &PathFacts, p: &str) -> (r: Option<String>)
    ensures
        opt_chars(r) == canonical_at(facts@.canonical, p@),
{
    let ghost cs = facts@.canonical;
    let mut i: usize = 0;
    assert(cs.skip(0) =~= cs);
    while i < facts.canonical.len()
        invariant
            i <= facts.canonical.len(),
            cs == facts@.canonical,
            cs.len() == facts.canonical.len(),
            canonical_at(cs, p@) == canonical_at(cs.skip(i as int), p@),
        decreases facts.canonical.len() - i,
    {
        assert(cs.skip(i as int)[0] == facts.canonical@[i as int]@);
        assert(cs.skip(i as int).drop_first() =~= cs.skip(i + 1));
        if str_eq(facts.canonical[i].path.as_str(), p) {
            return Some(copy_string(&facts.canonical[i].canonical));
        }
        i = i + 1;
    }
    assert(cs.skip(i as int).len() == 0);
    None
}

fn copy_string(s: &String) -> (r: String)
    ensures
        r@ == s@,
{
    let mut out = String::new();
    crate::text::push_str(&mut out, s.as_str());
    out
}

fn copy_strings(v: &Vec<String>) -> (r: Vec<String>)
    ensures
        views(r@) == views(v@),
{
    let mut out: Vec<String> = Vec::new();
    let mut i: usize = 0;
    while i < v.len()
        invariant
            i <= v.len(),
            views(out@) == views(v@).take(i as int),
        decreases v.len() - i,
    {
        let ghost b = views(out@);
        out.push(copy_string(&v[i]));
        assert(views(out@) =~= b.push(v@[i as int]@));
        assert(views(v@).take(i + 1) =~= views(v@).take(i as int).push(v@[i as int]@));
        i = i + 1;
    }
    assert(views(v@).take(v.len() as int) =~= views(v@));
    out
}

// ---------------------------------------------------------------------------
// What is asked, and what the answers give
// ---------------------------------------------------------------------------

/// `Path::starts_with(root)`, which holds exactly where `strip_prefix`
/// succeeds.
pub open spec fn under(p: Seq<char>, root: Seq<char>) -> bool {
    stripped_prefix(p, root) is Some
}

/// The candidates of all groups, in order.
pub open spec fn flat(groups: Seq<Group>) -> Seq<Seq<char>>
    decreases groups.len(),
{
    if groups.len() == 0 {
        seq![]
    } else {
        flat(groups.drop_last()) + groups.last()
    }
}

/// A question on what each path names, for those not known yet.
pub open spec fn kind_questions(paths: Seq<Seq<char>>, f: FactsView) -> Seq<QuestionView>
    decreases paths.len(),
{
    if paths.len() == 0 {
        seq![]
    } else {
        kind_questions(paths.drop_last(), f) + if kind_at(f.kinds, paths.last()) is None {
            seq![QuestionView::Kind(paths.last())]
        } else {
            seq![]
        }
    }
}

/// A question on the canonical form of each path, for those not known yet.
pub open spec fn canonical_questions(paths: Seq<Seq<char>>, f: FactsView) -> Seq<QuestionView>
    decreases paths.len(),
{
    if paths.len() == 0 {
        seq![]
    } else {
        canonical_questions(paths.drop_last(), f) + if canonical_at(f.canonical, paths.last()) is None {
            seq![QuestionView::Canonical(paths.last())]
        } else {
            seq![]
        }
    }
}

/// Whether a path is known to be a file inside the project root.
pub open spec fn file_in(f: FactsView, p: Seq<char>, root: Seq<char>) -> bool {
    kind_at(f.kinds, p) == Some(PathKind::File) && under(p, root)
}

/// Whether a path is known to be a directory.
pub open spec fn dir_at(f: FactsView, p: Seq<char>) -> bool {
    kind_at(f.kinds, p) == Some(PathKind::Dir)
}

/// For each candidate: whether it is a file inside the project root.
pub open spec fn file_flags(groups: Seq<Group>, f: FactsView, root: Seq<char>) -> Seq<Seq<bool>> {
    groups.map_values(|g: Group| g.map_values(|p: Seq<char>| file_in(f, p, root)))
}

/// Each path a group of its own.
pub open spec fn singles(paths: Seq<Seq<char>>) -> Seq<Group> {
    paths.map_values(|p: Seq<char>| seq![p])
}

/// For each single candidate: whether it is a directory.
pub open spec fn dir_flags(paths: Seq<Seq<char>>, f: FactsView) -> Seq<Seq<bool>> {
    paths.map_values(|p: Seq<char>| seq![dir_at(f, p)])
}

/// The Haskell source roots: the candidates that are directories, each
/// once, in order.
pub open spec fn haskell_roots(file: Seq<char>, root: Seq<char>, f: FactsView) -> Seq<Seq<char>> {
    let c = haskell_root_candidates_of(file, root);
    pick_paths(singles(c), dir_flags(c, f), PickRule::FirstExistingOnce).0
}

/// The canonical form known for a path, else the path itself.
pub open spec fn canonical_or(f: FactsView, p: Seq<char>) -> Seq<char> {
    match canonical_at(f.canonical, p) {
        Some(c) => c,
        None => p,
    }
}

fn ask_kinds(paths: &Vec<String>, facts: &PathFacts, qs: &mut Vec<Question>)
    ensures
        questions_view(final(qs)@) == questions_view(old(qs)@) + kind_questions(views(paths@), facts@),
{
    let ghost pv = views(paths@);
    let ghost q0 = questions_view(qs@);
    let mut i: usize = 0;
    assert(pv.take(0) =~= seq![]);
    assert(questions_view(qs@) =~= q0 + kind_questions(pv.take(0), facts@));
    while i < paths.len()
        invariant
            i <= paths.len(),
            pv == views(paths@),
            questions_view(qs@) == q0 + kind_questions(pv.take(i as int), facts@),
        decreases paths.len() - i,
    {
        assert(pv.take(i + 1).drop_last() =~= pv.take(i as int));
        assert(pv.take(i + 1).last() == paths@[i as int]@);
        let ghost b = questions_view(qs@);
        if lookup_kind(facts, paths[i].as_str()).is_none() {
            qs.push(Question::Kind(copy_string(&paths[i])));
            assert(questions_view(qs@) =~= b + seq![QuestionView::Kind(paths@[i as int]@)]);
        } else {
            assert(questions_view(qs@) =~= b + seq![]);
        }
        i = i + 1;
    }
    assert(pv.take(paths.len() as int) =~= pv);
}

fn ask_canonicals(paths: &Vec<String>, facts: &PathFacts, qs: &mut Vec<Question>)
    ensures
        questions_view(final(qs)@) == questions_view(old(qs)@) + canonical_questions(views(paths@), facts@),
{
    let ghost pv = views(paths@);
    let ghost q0 = questions_view(qs@);
    let mut i: usize = 0;
    assert(pv.take(0) =~= seq![]);
    assert(questions_view(qs@) =~= q0 + canonical_questions(pv.take(0), facts@));
    while i < paths.len()
        invariant
            i <= paths.len(),
            pv == views(paths@),
            questions_view(qs@) == q0 + canonical_questions(pv.take(i as int), facts@),
        decreases paths.len() - i,
    {
        assert(pv.take(i + 1).drop_last() =~= pv.take(i as int));
        assert(pv.take(i + 1).last() == paths@[i as int]@);
        let ghost b = questions_view(qs@);
        if lookup_canonical(facts, paths[i].as_str()).is_none() {
            qs.push(Question::Canonical(copy_string(&paths[i])));
            assert(questions_view(qs@) =~= b + seq![QuestionView::Canonical(paths@[i as int]@)]);
        } else {
            assert(questions_view(qs@) =~= b + seq![]);
        }
        i = i + 1;
    }
    assert(pv.take(paths.len() as int) =~= pv);
}

fn is_under(p: &str, root: &str) -> (r: bool)
    ensures
        r == under(p@, root@),
{
    crate::extraction::collect::strip_path_prefix(p, root).is_some()
}

fn is_file_in(facts: &PathFacts, p: &str, root: &str) -> (r: bool)
    ensures
        r == file_in(facts@, p@, root@),
{
    match lookup_kind(facts, p) {
        Some(PathKind::File) => is_under(p, root),
        _ => false,
    }
}

fn is_dir_at(facts: &PathFacts, p: &str) -> (r: bool)
    ensures
        r == dir_at(facts@, p@),
{
    match lookup_kind(facts, p) {
        Some(PathKind::Dir) => true,
        _ => false,
    }
}

fn canonical_or_exec(facts: &PathFacts, p: &str) -> (r: String)
    ensures
        r@ == canonical_or(facts@, p@),
{
    match lookup_canonical(facts, p) {
        Some(c) => c,
        None => {
            let mut s = String::new();
            crate::text::push_str(&mut s, p);
            s
        },
    }
}

fn flatten_groups(groups: &Vec<Vec<String>>, out: &mut Vec<String>)
    ensures
        views(final(out)@) == views(old(out)@) + flat(groups_view(groups@)),
{
    let ghost gv = groups_view(groups@);
    let ghost o0 = views(out@);
    let mut i: usize = 0;
    assert(gv.take(0) =~= seq![]);
    assert(views(out@) =~= o0 + flat(gv.take(0)));
    while i < groups.len()
        invariant
            i <= groups.len(),
            gv == groups_view(groups@),
            views(out@) == o0 + flat(gv.take(i as int)),
        decreases groups.len() - i,
    {
        let g = &groups[i];
        let ghost b = views(out@);
        let mut j: usize = 0;
        assert(views(g@).take(0) =~= seq![]);
        while j < g.len()
            invariant
                j <= g.len(),
                views(out@) == b + views(g@).take(j as int),
            decreases g.len() - j,
        {
            let ghost c = views(out@);
            out.push(copy_string(&g[j]));
            assert(views(out@) =~= c.push(g@[j as int]@));
            assert(views(g@).take(j + 1) =~= views(g@).take(j as int).push(g@[j as int]@));
            j = j + 1;
        }
        assert(views(g@).take(g.len() as int) =~= views(g@));
        assert(gv.take(i + 1).drop_last() =~= gv.take(i as int));
        assert(gv.take(i + 1).last() == views(g@));
        assert(views(out@) =~= o0 + flat(gv.take(i + 1)));
        i = i + 1;
    }
    assert(gv.take(groups.len() as int) =~= gv);
}

fn file_flags_exec(groups: &Vec<Vec<String>>, facts: &PathFacts, root: &str) -> (r: Vec<Vec<bool>>)
    ensures
        r@.map_values(|v: Vec<bool>| v@) == file_flags(groups_view(groups@), facts@, root@),
{
    let ghost gv = groups_view(groups@);
    let mut out: Vec<Vec<bool>> = Vec::new();
    let mut i: usize = 0;
    while i < groups.len()
        invariant
            i <= groups.len(),
            gv == groups_view(groups@),
            out@.len() == i,
            forall|k: int|
                0 <= k < i ==> (#[trigger] out@[k])@ == gv[k].map_values(
                    |p: Seq<char>| file_in(facts@, p, root@),
                ),
        decreases groups.len() - i,
    {
        let g = &groups[i];
        let mut row: Vec<bool> = Vec::new();
        let mut j: usize = 0;
        while j < g.len()
            invariant
                j <= g.len(),
                row@.len() == j,
                forall|k: int| 0 <= k < j ==> row@[k] == file_in(facts@, #[trigger] g@[k]@, root@),
            decreases g.len() - j,
        {
            row.push(is_file_in(facts, g[j].as_str(), root));
            j = j + 1;
        }
        assert(row@ =~= gv[i as int].map_values(|p: Seq<char>| file_in(facts@, p, root@)));
        out.push(row);
        i = i + 1;
    }
    assert(out@.map_values(|v: Vec<bool>| v@) =~= file_flags(gv, facts@, root@));
    out
}

// ---------------------------------------------------------------------------
// Go
// ---------------------------------------------------------------------------

/// The module path that `go.mod` declares, when it was read.
pub open spec fn go_module_known(f: FactsView) -> Option<Seq<char>> {
    if f.go_mod_read {
        match f.go_mod {
            Some(c) => go_module_of(lines(c)),
            None => None,
        }
    } else {
        None
    }
}

/// The import paths of a parsed Go file, quotes trimmed.
pub open spec fn go_imports(t: SyntaxTree) -> Seq<Seq<char>> {
    import_texts(t, t.len(), Language::Go).map_values(|x: Seq<char>| crate::text::trim_char(x, '"'))
}

/// The directories the imports stand for, in order, where they stand for
/// one.
pub open spec fn go_candidates(
    imports: Seq<Seq<char>>,
    dir: Seq<char>,
    root: Seq<char>,
    module: Option<Seq<char>>,
) -> Seq<Seq<char>>
    decreases imports.len(),
{
    if imports.len() == 0 {
        seq![]
    } else {
        go_candidates(imports.drop_last(), dir, root, module) + match go_import_dir(
            imports.last(),
            dir,
            root,
            module,
        ) {
            Some(c) => seq![c],
            None => seq![],
        }
    }
}

/// The candidates that are directories inside the project root.
pub open spec fn go_packages(cands: Seq<Seq<char>>, f: FactsView, root: Seq<char>) -> Seq<Seq<char>>
    decreases cands.len(),
{
    if cands.len() == 0 {
        seq![]
    } else {
        go_packages(cands.drop_last(), f, root) + if dir_at(f, cands.last()) && under(
            cands.last(),
            root,
        ) {
            seq![cands.last()]
        } else {
            seq![]
        }
    }
}

/// The paths inside the project root.
pub open spec fn keep_under(paths: Seq<Seq<char>>, root: Seq<char>) -> Seq<Seq<char>>
    decreases paths.len(),
{
    if paths.len() == 0 {
        seq![]
    } else {
        keep_under(paths.drop_last(), root) + if under(paths.last(), root) {
            seq![paths.last()]
        } else {
            seq![]
        }
    }
}

/// The package files added: those whose canonical form is not that of the
/// current file and was not added before; `seen` holds the canonical forms
/// added.
pub open spec fn go_new_files(files: Seq<Seq<char>>, f: FactsView, current: Seq<char>, seen: Set<Seq<char>>) -> (
    Seq<Seq<char>>,
    Set<Seq<char>>,
)
    decreases files.len(),
{
    if files.len() == 0 {
        (seq![], seen)
    } else {
        let prev = go_new_files(files.drop_last(), f, current, seen);
        let c = canonical_or(f, files.last());
        if c == current || prev.1.contains(c) {
            prev
        } else {
            (prev.0.push(files.last()), prev.1.insert(c))
        }
    }
}

/// Over the package directories: the questions still open, the files
/// added, and the canonical forms added.
pub open spec fn go_fold(pkgs: Seq<Seq<char>>, f: FactsView, root: Seq<char>, current: Seq<char>) -> (
    Seq<QuestionView>,
    Seq<Seq<char>>,
    Set<Seq<char>>,
)
    decreases pkgs.len(),
{
    if pkgs.len() == 0 {
        (seq![], seq![], Set::empty())
    } else {
        let prev = go_fold(pkgs.drop_last(), f, root, current);
        let d = pkgs.last();
        match listing_at(f.listings, d) {
            None => (prev.0.push(QuestionView::Listing(d)), prev.1, prev.2),
            Some(None) => prev,
            Some(Some(es)) => {
                let files = sorted_go_files(keep_under(es, root));
                let k = go_new_files(files, f, current, prev.2);
                (prev.0 + canonical_questions(files, f), prev.1 + k.0, k.1)
            },
        }
    }
}

/// Go: the questions still open and the files the imports give. `go.mod`
/// is asked for first; then what each import's directory names, the
/// canonical form of the file, and for each package directory its listing
/// and the canonical forms of its files.
pub open spec fn go_plan(t: SyntaxTree, file: Seq<char>, root: Seq<char>, f: FactsView) -> (
    Seq<QuestionView>,
    Seq<Seq<char>>,
) {
    let cands = go_candidates(go_imports(t), file_dir(file, root), root, go_module_known(f));
    let fold = go_fold(go_packages(cands, f, root), f, root, canonical_or(f, file));
    (
        (if f.go_mod_read {
            seq![]
        } else {
            seq![QuestionView::GoMod]
        }) + kind_questions(cands, f) + canonical_questions(seq![file], f) + fold.0,
        fold.1,
    )
}

/// The files of a package added (see `go_new_files`): `files` are the
/// package's Go source files in order, `current` the canonical form of the
/// file whose dependencies these are, `seen` the canonical forms added so
/// far.
pub fn push_go_package_files(files: &Vec<String>, facts: &PathFacts, current: &str, seen: &mut Vec<String>) -> (r:
    Vec<String>)
    ensures
        ({
            let k = go_new_files(views(files@), facts@, current@, views(old(seen)@).to_set());
            &&& views(r@) == k.0
            &&& views(final(seen)@).to_set() == k.1
        }),
{
    let ghost fv = views(files@);
    let ghost seen0 = views(seen@).to_set();
    let mut out: Vec<String> = Vec::new();
    let mut k: usize = 0;
    assert(fv.take(0) =~= seq![]);
    while k < files.len()
        invariant
            k <= files.len(),
            fv == views(files@),
            ({
                let n = go_new_files(fv.take(k as int), facts@, current@, seen0);
                views(out@) == n.0 && views(seen@).to_set() == n.1
            }),
        decreases files.len() - k,
    {
        let f = &files[k];
        assert(fv.take(k + 1).drop_last() =~= fv.take(k as int));
        assert(fv.take(k + 1).last() == f@);
        let c = canonical_or_exec(facts, f.as_str());
        let was = crate::analysis::dependencies::in_seen(seen, &c);
        proof {
            if views(seen@).contains(c@) {
                assert(views(seen@).to_set().contains(c@));
            }
            if views(seen@).to_set().contains(c@) {
                assert(views(seen@).contains(c@));
            }
        }
        if !str_eq(c.as_str(), current) && !was {
            let ghost b = views(out@);
            let ghost sb = seen@;
            out.push(copy_string(f));
            seen.push(c);
            assert(views(out@) =~= b.push(f@));
            proof {
                crate::analysis::dependencies::lemma_views_push_set(sb, seen@[sb.len() as int]);
                assert(seen@ == sb.push(seen@[sb.len() as int]));
            }
        }
        k = k + 1;
    }
    assert(fv.take(files.len() as int) =~= fv);
    out
}

fn keep_under_exec(paths: &Vec<String>, root: &str) -> (r: Vec<String>)
    ensures
        views(r@) == keep_under(views(paths@), root@),
{
    let ghost pv = views(paths@);
    let mut out: Vec<String> = Vec::new();
    let mut i: usize = 0;
    assert(pv.take(0) =~= seq![]);
    while i < paths.len()
        invariant
            i <= paths.len(),
            pv == views(paths@),
            views(out@) == keep_under(pv.take(i as int), root@),
        decreases paths.len() - i,
    {
        assert(pv.take(i + 1).drop_last() =~= pv.take(i as int));
        assert(pv.take(i + 1).last() == paths@[i as int]@);
        let ghost b = views(out@);
        if is_under(paths[i].as_str(), root) {
            out.push(copy_string(&paths[i]));
            assert(views(out@) =~= b + seq![paths@[i as int]@]);
        } else {
            assert(views(out@) =~= b + seq![]);
        }
        i = i + 1;
    }
    assert(pv.take(paths.len() as int) =~= pv);
    out
}

fn go_step(tree: &SyntaxTree, file_path: &str, project_root: &str, facts: &PathFacts) -> (r: Result<
    Vec<String>,
    Vec<Question>,
>)
    requires
        tree.wf(),
    ensures
        step_outcome(go_plan(*tree, file_path@, project_root@, facts@), r),
{
    let ghost f = facts@;
    let mut qs: Vec<Question> = Vec::new();
    if !facts.go_mod_read {
        qs.push(Question::GoMod);
    }
    assert(questions_view(qs@) =~= if f.go_mod_read {
        seq![]
    } else {
        seq![QuestionView::GoMod]
    });
    let module: Option<String> = if facts.go_mod_read {
        match &facts.go_mod {
            Some(c) => read_go_module_path(c.as_str()),
            None => None,
        }
    } else {
        None
    };
    assert(opt_chars(module) == go_module_known(f));
    let imports = go_import_paths(tree);
    let ghost iv = views(imports@);
    assert(iv == go_imports(*tree));
    let dir = crate::analysis::dependencies::file_dir_exec(file_path, project_root);
    let mut cands: Vec<String> = Vec::new();
    let mut i: usize = 0;
    assert(iv.take(0) =~= seq![]);
    while i < imports.len()
        invariant
            i <= imports.len(),
            iv == views(imports@),
            dir@ == file_dir(file_path@, project_root@),
            opt_chars(module) == go_module_known(f),
            views(cands@) == go_candidates(iv.take(i as int), dir@, project_root@, go_module_known(f)),
        decreases imports.len() - i,
    {
        assert(iv.take(i + 1).drop_last() =~= iv.take(i as int));
        assert(iv.take(i + 1).last() == imports@[i as int]@);
        let m: Option<&str> = match &module {
            Some(x) => Some(x.as_str()),
            None => None,
        };
        let ghost b = views(cands@);
        match resolve_go_import(imports[i].as_str(), dir.as_str(), project_root, m) {
            Some(c) => {
                cands.push(c);
                assert(views(cands@) =~= b + seq![cands@[b.len() as int]@]);
            },
            None => {
                assert(views(cands@) =~= b + seq![]);
            },
        }
        i = i + 1;
    }
    assert(iv.take(imports.len() as int) =~= iv);
    let ghost cv = views(cands@);
    ask_kinds(&cands, facts, &mut qs);
    let mut own: Vec<String> = Vec::new();
    own.push(copy_string_of(file_path));
    assert(views(own@) =~= seq![file_path@]);
    ask_canonicals(&own, facts, &mut qs);
    let current = canonical_or_exec(facts, file_path);
    let mut pkgs: Vec<String> = Vec::new();
    let mut j: usize = 0;
    assert(cv.take(0) =~= seq![]);
    while j < cands.len()
        invariant
            j <= cands.len(),
            cv == views(cands@),
            views(pkgs@) == go_packages(cv.take(j as int), f, project_root@),
            f == facts@,
        decreases cands.len() - j,
    {
        assert(cv.take(j + 1).drop_last() =~= cv.take(j as int));
        assert(cv.take(j + 1).last() == cands@[j as int]@);
        let ghost b = views(pkgs@);
        if is_dir_at(facts, cands[j].as_str()) && is_under(cands[j].as_str(), project_root) {
            pkgs.push(copy_string(&cands[j]));
            assert(views(pkgs@) =~= b + seq![cands@[j as int]@]);
        } else {
            assert(views(pkgs@) =~= b + seq![]);
        }
        j = j + 1;
    }
    assert(cv.take(cands.len() as int) =~= cv);
    let ghost pv = views(pkgs@);
    let ghost q1 = questions_view(qs@);
    let mut deps: Vec<String> = Vec::new();
    let mut seen: Vec<String> = Vec::new();
    let mut k: usize = 0;
    assert(pv.take(0) =~= seq![]);
    assert(views(seen@).to_set() =~= Set::<Seq<char>>::empty());
    assert(questions_view(qs@) =~= q1 + seq![]);
    assert(views(deps@) =~= seq![]);
    while k < pkgs.len()
        invariant
            k <= pkgs.len(),
            pv == views(pkgs@),
            f == facts@,
            current@ == canonical_or(f, file_path@),
            ({
                let g = go_fold(pv.take(k as int), f, project_root@, current@);
                &&& questions_view(qs@) == q1 + g.0
                &&& views(deps@) == g.1
                &&& views(seen@).to_set() == g.2
            }),
        decreases pkgs.len() - k,
    {
        assert(pv.take(k + 1).drop_last() =~= pv.take(k as int));
        assert(pv.take(k + 1).last() == pkgs@[k as int]@);
        let ghost g0 = go_fold(pv.take(k as int), f, project_root@, current@);
        let ghost qb = questions_view(qs@);
        match lookup_listing(facts, pkgs[k].as_str()) {
            None => {
                qs.push(Question::Listing(copy_string(&pkgs[k])));
                assert(questions_view(qs@) =~= qb.push(QuestionView::Listing(pkgs@[k as int]@)));
            },
            Some(None) => {},
            Some(Some(es)) => {
                let kept = keep_under_exec(&es, project_root);
                let files = crate::analysis::dependencies::go_package_files(&kept);
                ask_canonicals(&files, facts, &mut qs);
                let ghost db = views(deps@);
                let added = push_go_package_files(&files, facts, current.as_str(), &mut seen);
                let mut a: usize = 0;
                while a < added.len()
                    invariant
                        a <= added.len(),
                        views(deps@) == db + views(added@).take(a as int),
                    decreases added.len() - a,
                {
                    let ghost c = views(deps@);
                    deps.push(copy_string(&added[a]));
                    assert(views(deps@) =~= c.push(added@[a as int]@));
                    assert(views(added@).take(a + 1) =~= views(added@).take(a as int).push(added@[a as int]@));
                    a = a + 1;
                }
                assert(views(added@).take(added.len() as int) =~= views(added@));
                assert(questions_view(qs@) =~= q1 + (g0.0 + canonical_questions(views(files@), f)));
            },
        }
        k = k + 1;
    }
    assert(pv.take(pkgs.len() as int) =~= pv);
    assert(questions_view(qs@) =~= go_plan(*tree, file_path@, project_root@, f).0);
    if qs.len() == 0 {
        Ok(deps)
    } else {
        Err(qs)
    }
}

fn copy_string_of(s: &str) -> (r: String)
    ensures
        r@ == s@,
{
    let mut out = String::new();
    crate::text::push_str(&mut out, s);
    out
}

// ---------------------------------------------------------------------------
// The step
// ---------------------------------------------------------------------------

/// Whether a result answers a plan: the files when no question is open,
/// else the open questions.
pub open spec fn step_outcome(p: (Seq<QuestionView>, Seq<Seq<char>>), r: Result<Vec<String>, Vec<Question>>) -> bool {
    if p.0.len() == 0 {
        r matches Ok(d) && views(d@) == p.1
    } else {
        r matches Err(q) && questions_view(q@) == p.0
    }
}

/// The questions still open and the dependencies found, for a source
/// parsed into `t`. Rust asks what `src` under the root names, then each
/// candidate of its `mod` and `use crate::` groups; Python, JavaScript and
/// TypeScript each candidate of their imports; Haskell its source root
/// candidates, then each candidate module file under the roots that are
/// directories; Go as `go_plan` says. A candidate counts where it is a file
/// inside the project root, and the groups give files as `pick_paths`
/// says. Other languages have none.
pub open spec fn plan_of(
    t: SyntaxTree,
    l: Language,
    source: Seq<char>,
    file: Seq<char>,
    root: Seq<char>,
    f: FactsView,
) -> (Seq<QuestionView>, Seq<Seq<char>>) {
    let srcq = crate::analysis::dependencies::join_path(root, "src"@);
    let pre = match l {
        Language::Rust => seq![srcq],
        Language::Haskell => haskell_root_candidates_of(file, root),
        _ => seq![],
    };
    match file_groups(t, l, source, file, root, dir_at(f, srcq), haskell_roots(file, root, f)) {
        Some((g, rule)) => (kind_questions(pre + flat(g), f), pick_paths(g, file_flags(g, f, root), rule).0),
        None => if l == Language::Go {
            go_plan(t, file, root, f)
        } else {
            (seq![], seq![])
        },
    }
}

fn haskell_roots_exec(file_path: &str, project_root: &str, facts: &PathFacts, cands: &Vec<String>) -> (r: Vec<String>)
    requires
        views(cands@) == haskell_root_candidates_of(file_path@, project_root@),
    ensures
        views(r@) == haskell_roots(file_path@, project_root@, facts@),
{
    let ghost cv = views(cands@);
    let mut groups: Vec<Vec<String>> = Vec::new();
    let mut flags: Vec<Vec<bool>> = Vec::new();
    let mut i: usize = 0;
    while i < cands.len()
        invariant
            i <= cands.len(),
            cv == views(cands@),
            groups@.len() == i,
            flags@.len() == i,
            forall|k: int| 0 <= k < i ==> views((#[trigger] groups@[k])@) == seq![cv[k]],
            forall|k: int| 0 <= k < i ==> (#[trigger] flags@[k])@ == seq![dir_at(facts@, cv[k])],
        decreases cands.len() - i,
    {
        let mut g: Vec<String> = Vec::new();
        g.push(copy_string(&cands[i]));
        assert(views(g@) =~= seq![cv[i as int]]);
        groups.push(g);
        let mut fl: Vec<bool> = Vec::new();
        fl.push(is_dir_at(facts, cands[i].as_str()));
        assert(fl@ =~= seq![dir_at(facts@, cv[i as int])]);
        flags.push(fl);
        i = i + 1;
    }
    assert(groups_view(groups@) =~= singles(cv));
    assert(flags@.map_values(|v: Vec<bool>| v@) =~= dir_flags(cv, facts@));
    select_dependencies(&groups, &flags, PickRule::FirstExistingOnce)
}

/// One step of resolving the dependencies of a source parsed into `tree`:
/// the dependencies when every fact they rest on is known, else the
/// questions still open (see `plan_of`).
pub fn dependency_step(
    tree: &SyntaxTree,
    language: Language,
    source: &str,
    file_path: &str,
    project_root: &str,
    facts: &PathFacts,
) -> (r: Result<Vec<String>, Vec<Question>>)
    requires
        tree.wf(),
    ensures
        step_outcome(plan_of(*tree, language, source@, file_path@, project_root@, facts@), r),
{
    let srcq = crate::analysis::dependencies::join_paths(project_root, "src");
    let src_is_dir = is_dir_at(facts, srcq.as_str());
    let mut pre: Vec<String> = Vec::new();
    let mut roots: Vec<String> = Vec::new();
    match language {
        Language::Rust => {
            pre.push(srcq);
        },
        Language::Haskell => {
            pre = haskell_source_roots(file_path, project_root);
            roots = haskell_roots_exec(file_path, project_root, facts, &pre);
        },
        _ => {},
    }
    let ghost srcv = crate::analysis::dependencies::join_path(project_root@, "src"@);
    let ghost prev = match language {
        Language::Rust => seq![srcv],
        Language::Haskell => haskell_root_candidates_of(file_path@, project_root@),
        _ => seq![],
    };
    assert(views(pre@) =~= prev);
    assert(src_is_dir == dir_at(facts@, srcv));
    let ghost hr = haskell_roots(file_path@, project_root@, facts@);
    assert(file_groups(*tree, language, source@, file_path@, project_root@, src_is_dir, views(roots@))
        == file_groups(*tree, language, source@, file_path@, project_root@, src_is_dir, hr));
    match groups_from_tree(tree, language, source, file_path, project_root, src_is_dir, &roots) {
        Some((groups, rule)) => {
            let mut all = pre;
            flatten_groups(&groups, &mut all);
            let mut qs: Vec<Question> = Vec::new();
            ask_kinds(&all, facts, &mut qs);
            assert(questions_view(qs@) =~= kind_questions(views(all@), facts@));
            assert(views(all@) == prev + flat(groups_view(groups@)));
            if qs.len() == 0 {
                let flags = file_flags_exec(&groups, facts, project_root);
                Ok(select_dependencies(&groups, &flags, rule))
            } else {
                Err(qs)
            }
        },
        None => {
            match language {
                Language::Go => go_step(tree, file_path, project_root, facts),
                _ => Ok(Vec::new()),
            }
        },
    }
}

/// The grammar a file's imports are read with: TypeScript for a `.ts` or
/// `.tsx` file among JavaScript and TypeScript, else the language's own.
pub open spec fn dependency_grammar(l: Language, file: Seq<char>) -> Language {
    match l {
        Language::JavaScript | Language::TypeScript => if crate::paths::path_extension(file) == Some("ts"@)
            || crate::paths::path_extension(file) == Some("tsx"@) {
            Language::TypeScript
        } else {
            Language::JavaScript
        },
        _ => l,
    }
}

fn dependency_grammar_exec(language: Language, file_path: &str) -> (r: Language)
    ensures
        r == dependency_grammar(language, file_path@),
{
    match language {
        Language::JavaScript | Language::TypeScript => {
            let v = crate::text::chars_of(file_path);
            proof {
                reveal_strlit("ts");
                reveal_strlit("tsx");
            }
            match crate::paths::extension_bounds(v.as_slice()) {
                Some((a, b)) => {
                    let e = crate::text::slice_range(v.as_slice(), a, b);
                    if crate::text::eq_lit(e.as_slice(), "ts") || crate::text::eq_lit(e.as_slice(), "tsx") {
                        Language::TypeScript
                    } else {
                        Language::JavaScript
                    }
                },
                None => Language::JavaScript,
            }
        },
        _ => language,
    }
}

/// Whether dependencies are looked for in a language.
pub open spec fn has_dependencies(l: Language) -> bool {
    match l {
        Language::Rust | Language::Python | Language::JavaScript | Language::TypeScript | Language::Go
        | Language::Haskell => true,
        _ => false,
    }
}

/// The dependency files of a source file inside its project, as far as the
/// facts known so far allow: `Ok` with the files (each inside the project
/// root, in the order the imports give them) once every fact they rest on
/// is known, else `Err` with the questions to answer before asking again.
/// A language without dependencies here, or a source that cannot be
/// parsed, gives none.
pub fn resolve_dependencies(
    language: Language,
    source: &str,
    file_path: &str,
    project_root: &str,
    facts: &PathFacts,
) -> (r: Result<Vec<String>, Vec<Question>>)
    ensures
        !has_dependencies(language) ==> (r matches Ok(d) && d@.len() == 0),
        has_dependencies(language) && crate::parser::parse_nodes(
            dependency_grammar(language, file_path@),
            source@,
        ) is None ==> (r matches Ok(d) && d@.len() == 0),
        has_dependencies(language) && crate::parser::parse_nodes(
            dependency_grammar(language, file_path@),
            source@,
        ) is Some ==> exists|t: SyntaxTree|
            #![trigger plan_of(t, language, source@, file_path@, project_root@, facts@)]
            t.wf() && crate::parser::tree_is_parse(t, dependency_grammar(language, file_path@), source@)
                && step_outcome(plan_of(t, language, source@, file_path@, project_root@, facts@), r),
{
    if !has_dependencies_exec(language) {
        return Ok(Vec::new());
    }
    let grammar = dependency_grammar_exec(language, file_path);
    let tree = match parse_code(source, grammar) {
        Ok(t) => t,
        Err(_) => return Ok(Vec::new()),
    };
    dependency_step(&tree, language, source, file_path, project_root, facts)
}

fn has_dependencies_exec(language: Language) -> (r: bool)
    ensures
        r == has_dependencies(language),
{
    match language {
        Language::Rust | Language::Python | Language::JavaScript | Language::TypeScript | Language::Go
        | Language::Haskell => true,
        _ => false,
    }
}

} // verus!
