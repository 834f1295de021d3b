//! Type extraction over a set of files: language detection, the per-file
//! extractors, the type limit, glob filtering and relative paths.
use vstd::prelude::*;
use crate::extraction::haskell_types::{haskell_types, haskell_types_of};
use crate::extraction::python_types::{python_types, python_types_of};
use crate::extraction::rust_types::{rust_types, rust_types_of};
use crate::extraction::ts_types::{ts_types, ts_types_of};
use crate::extraction::typed_types::{
    csharp_types, csharp_types_of, go_types, go_types_of, java_types, java_types_of,
};
use crate::extraction::types::{
    HARD_TYPE_LIMIT, LimitHit, TypeDefinition, TypeExtractionResult, TypeView, type_view,
    type_views,
};
use crate::parser::{Language, ParseError, parse_code};
use crate::paths::{extension_bounds, file_name, file_name_bounds, path_extension};
use crate::syntax::SyntaxTree;
use crate::extraction::type_laws::{
    law_extracted_types_uncounted, lemma_add_uncounted, lemma_types_of_uncounted, none_counted,
};
use crate::text::{ascii_lower, ascii_lower_chars, chars_of, eq_lit, push_str, slice_range, string_of};

verus! {

// ---------------------------------------------------------------------------
// Languages
// ---------------------------------------------------------------------------

/// The languages whose type definitions are extracted.
#[derive(Debug, Clone, Copy, PartialEq, Eq, Structural)]
pub enum SupportedLanguage {
    Rust,
    TypeScript,
    JavaScript,
    Python,
    Java,
    CSharp,
    Go,
    Haskell,
}

/// The language of a lower-case file extension.
pub open spec fn supported_for_extension(ext: Seq<char>) -> Option<SupportedLanguage> {
    if ext == "rs"@ {
        Some(SupportedLanguage::Rust)
    } else if ext == "ts"@ || ext == "tsx"@ {
        Some(SupportedLanguage::TypeScript)
    } else if ext == "js"@ || ext == "jsx"@ || ext == "mjs"@ || ext == "cjs"@ {
        Some(SupportedLanguage::JavaScript)
    } else if ext == "py"@ {
        Some(SupportedLanguage::Python)
    } else if ext == "java"@ {
        Some(SupportedLanguage::Java)
    } else if ext == "cs"@ {
        Some(SupportedLanguage::CSharp)
    } else if ext == "go"@ {
        Some(SupportedLanguage::Go)
    } else if ext == "hs"@ {
        Some(SupportedLanguage::Haskell)
    } else {
        None
    }
}

/// The language of a file, by its extension (of any case).
pub open spec fn supported_language(path: Seq<char>) -> Option<SupportedLanguage> {
    match path_extension(path) {
        Some(ext) => supported_for_extension(ascii_lower(ext)),
        None => None,
    }
}

/// The language of a file whose types can be extracted (see
/// `supported_language`).
pub fn detect_language(path: &str) -> (r: Option<SupportedLanguage>)
    ensures
        r == supported_language(path@),
{
    let v = chars_of(path);
    let (a, b) = match extension_bounds(v.as_slice()) {
        Some(x) => x,
        None => return None,
    };
    let e = ascii_lower_chars(slice_range(v.as_slice(), a, b).as_slice());
    let s = e.as_slice();
    if eq_lit(s, "rs") {
        Some(SupportedLanguage::Rust)
    } else if eq_lit(s, "ts") || eq_lit(s, "tsx") {
        Some(SupportedLanguage::TypeScript)
    } else if eq_lit(s, "js") || eq_lit(s, "jsx") || eq_lit(s, "mjs") || eq_lit(s, "cjs") {
        Some(SupportedLanguage::JavaScript)
    } else if eq_lit(s, "py") {
        Some(SupportedLanguage::Python)
    } else if eq_lit(s, "java") {
        Some(SupportedLanguage::Java)
    } else if eq_lit(s, "cs") {
        Some(SupportedLanguage::CSharp)
    } else if eq_lit(s, "go") {
        Some(SupportedLanguage::Go)
    } else if eq_lit(s, "hs") {
        Some(SupportedLanguage::Haskell)
    } else {
        None
    }
}

/// The grammar a language is parsed with.
pub open spec fn grammar_of(l: SupportedLanguage) -> Language {
    match l {
        SupportedLanguage::Rust => Language::Rust,
        SupportedLanguage::TypeScript => Language::TypeScript,
        SupportedLanguage::JavaScript => Language::JavaScript,
        SupportedLanguage::Python => Language::Python,
        SupportedLanguage::Java => Language::Java,
        SupportedLanguage::CSharp => Language::CSharp,
        SupportedLanguage::Go => Language::Go,
        SupportedLanguage::Haskell => Language::Haskell,
    }
}

fn grammar_for(l: SupportedLanguage) -> (r: Language)
    ensures
        r == grammar_of(l),
{
    match l {
        SupportedLanguage::Rust => Language::Rust,
        SupportedLanguage::TypeScript => Language::TypeScript,
        SupportedLanguage::JavaScript => Language::JavaScript,
        SupportedLanguage::Python => Language::Python,
        SupportedLanguage::Java => Language::Java,
        SupportedLanguage::CSharp => Language::CSharp,
        SupportedLanguage::Go => Language::Go,
        SupportedLanguage::Haskell => Language::Haskell,
    }
}

/// The type definitions of a file in `l` parsed as `t`.
pub open spec fn types_of(t: SyntaxTree, l: SupportedLanguage, file: Seq<char>) -> Seq<TypeView> {
    match l {
        SupportedLanguage::Rust => rust_types(t, file),
        SupportedLanguage::TypeScript => ts_types(t, true, file),
        SupportedLanguage::JavaScript => ts_types(t, false, file),
        SupportedLanguage::Python => python_types(t, file),
        SupportedLanguage::Java => java_types(t, file),
        SupportedLanguage::CSharp => csharp_types(t, file),
        SupportedLanguage::Go => go_types(t, file),
        SupportedLanguage::Haskell => haskell_types(t, file),
    }
}

/// The type definitions of a parsed file in `language` (see `types_of`).
pub fn types_of_tree(tree: &SyntaxTree, language: SupportedLanguage, file: &str) -> (r: Vec<
    TypeDefinition,
>)
    requires
        tree.wf(),
    ensures
        type_views(r@) == types_of(*tree, language, file@),
{
    match language {
        SupportedLanguage::Rust => rust_types_of(tree, file),
        SupportedLanguage::TypeScript => ts_types_of(tree, true, file),
        SupportedLanguage::JavaScript => ts_types_of(tree, false, file),
        SupportedLanguage::Python => python_types_of(tree, file),
        SupportedLanguage::Java => java_types_of(tree, file),
        SupportedLanguage::CSharp => csharp_types_of(tree, file),
        SupportedLanguage::Go => go_types_of(tree, file),
        SupportedLanguage::Haskell => haskell_types_of(tree, file),
    }
}

// ---------------------------------------------------------------------------
// The type limit
// ---------------------------------------------------------------------------

/// The limit that applies: the hard limit when none (0) is asked for, else
/// the smaller of the two.
pub open spec fn effective_limit_of(max_types: usize) -> usize {
    if max_types == 0 || max_types > HARD_TYPE_LIMIT {
        HARD_TYPE_LIMIT
    } else {
        max_types
    }
}

/// The limit that applies (see `effective_limit_of`).
pub fn effective_limit(max_types: usize) -> (r: usize)
    ensures
        r == effective_limit_of(max_types),
{
    if max_types == 0 || max_types > HARD_TYPE_LIMIT {
        HARD_TYPE_LIMIT
    } else {
        max_types
    }
}

/// Add the definitions `new` to what is kept (`kept`, counted by `total`)
/// while fewer than `limit` are kept; the first that does not fit is
/// counted and marks the type limit as hit, and the rest are not looked at.
pub open spec fn add_within_limit(
    kept: Seq<TypeView>,
    total: int,
    hit: Option<LimitHit>,
    new: Seq<TypeView>,
    limit: int,
) -> (Seq<TypeView>, int, Option<LimitHit>)
    decreases new.len(),
{
    if new.len() == 0 {
        (kept, total, hit)
    } else if kept.len() < limit {
        add_within_limit(kept.push(new[0]), total + 1, hit, new.drop_first(), limit)
    } else {
        (kept, total + 1, Some(LimitHit::TypeLimit))
    }
}

/// A result that is still open: no limit hit, every type counted is kept,
/// within `limit`.
pub open spec fn open_result(r: TypeExtractionResult, limit: usize) -> bool {
    &&& r.limit_hit is None
    &&& r.total_types == r.types@.len()
    &&& r.types@.len() <= limit <= HARD_TYPE_LIMIT
}

/// Add the definitions of one file to `result` (see `add_within_limit`).
pub fn add_types(result: &mut TypeExtractionResult, file_types: Vec<TypeDefinition>, limit: usize)
    requires
        open_result(*old(result), limit),
    ensures
        ({
            let s = add_within_limit(
                type_views(old(result).types@),
                old(result).total_types as int,
                old(result).limit_hit,
                type_views(file_types@),
                limit as int,
            );
            &&& type_views(final(result).types@) == s.0
            &&& final(result).total_types == s.1
            &&& final(result).limit_hit == s.2
        }),
        final(result).types_included == old(result).types_included,
        final(result).truncated == old(result).truncated,
        final(result).limit_hit is None ==> open_result(*final(result), limit),
        final(result).limit_hit is Some ==> final(result).limit_hit == Some(LimitHit::TypeLimit)
            && final(result).total_types > final(result).types@.len(),
        final(result).types@.len() <= limit,
        final(result).types@.len() <= final(result).total_types,
{
    let ghost all = type_views(file_types@);
    let ghost target = add_within_limit(
        type_views(result.types@),
        result.total_types as int,
        result.limit_hit,
        all,
        limit as int,
    );
    let mut rest = file_types;
    let ghost mut done: int = 0;
    assert(all.skip(0) =~= all);
    while rest.len() > 0
        invariant
            0 <= done <= all.len(),
            all == type_views(file_types@),
            type_views(rest@) == all.skip(done),
            open_result(*result, limit),
            target == add_within_limit(
                type_views(old(result).types@),
                old(result).total_types as int,
                old(result).limit_hit,
                all,
                limit as int,
            ),
            target == add_within_limit(
                type_views(result.types@),
                result.total_types as int,
                result.limit_hit,
                type_views(rest@),
                limit as int,
            ),
            result.types_included == old(result).types_included,
            result.truncated == old(result).truncated,
        decreases rest@.len(),
    {
        let ghost old_rest = rest@;
        let ty = rest.remove(0);
        assert(type_views(old_rest)[0] == type_view(ty));
        assert(type_views(rest@) =~= type_views(old_rest).drop_first());
        if result.types.len() < limit {
            let ghost before = type_views(result.types@);
            result.total_types = result.total_types + 1;
            result.types.push(ty);
            assert(type_views(result.types@) =~= before.push(type_view(ty)));
            proof {
                done = done + 1;
                assert(all.skip(done) =~= type_views(rest@));
            }
        } else {
            let ghost kept = type_views(result.types@);
            let ghost total = result.total_types as int;
            assert(add_within_limit(kept, total, None, type_views(old_rest), limit as int) == (
                kept,
                total + 1,
                Some(LimitHit::TypeLimit),
            ));
            result.total_types = result.total_types + 1;
            result.limit_hit = Some(LimitHit::TypeLimit);
            assert(type_views(result.types@) == kept);
            return;
        }
    }
}

/// Parse a file in `language` and add its definitions to `result`; `Err`
/// when it cannot be parsed, `result` then unchanged.
pub fn process_file_with_source(
    source: &str,
    relative_path: &str,
    language: SupportedLanguage,
    limit: usize,
    result: &mut TypeExtractionResult,
) -> (r: Result<(), ParseError>)
    requires
        open_result(*old(result), limit),
    ensures
        r is Err ==> *final(result) == *old(result),
        r is Ok <==> crate::parser::parse_nodes(grammar_of(language), source@) is Some,
        r is Ok ==> exists|t: SyntaxTree|
            #![trigger types_of(t, language, relative_path@)]
            {
                let s = add_within_limit(
                    type_views(old(result).types@),
                    old(result).total_types as int,
                    old(result).limit_hit,
                    types_of(t, language, relative_path@),
                    limit as int,
                );
                &&& t.wf()
                &&& crate::parser::tree_is_parse(t, grammar_of(language), source@)
                &&& type_views(final(result).types@) == s.0
                &&& final(result).total_types == s.1
                &&& final(result).limit_hit == s.2
            },
        final(result).limit_hit is None ==> open_result(*final(result), limit),
        final(result).limit_hit is Some ==> final(result).limit_hit == Some(LimitHit::TypeLimit)
            && final(result).total_types > final(result).types@.len(),
        final(result).types_included == old(result).types_included,
        final(result).truncated == old(result).truncated,
        final(result).types@.len() <= limit,
        final(result).types@.len() <= final(result).total_types,
        none_counted(type_views(old(result).types@)) ==> none_counted(type_views(final(result).types@)),
{
    let tree = match parse_code(source, grammar_for(language)) {
        Ok(t) => t,
        Err(e) => return Err(e),
    };
    let ghost before = type_views(result.types@);
    let file_types = types_of_tree(&tree, language, relative_path);
    add_types(result, file_types, limit);
    proof {
        if none_counted(before) {
            lemma_types_of_uncounted(tree, language, relative_path@);
            lemma_add_uncounted(
                before,
                old(result).total_types as int,
                old(result).limit_hit,
                types_of(tree, language, relative_path@),
                limit as int,
            );
        }
    }
    Ok(())
}

// ---------------------------------------------------------------------------
// Glob patterns
// ---------------------------------------------------------------------------

#[verifier::external_type_specification]
#[verifier::external_body]
pub struct ExGlobSet(globset::GlobSet);

/// The glob patterns a set was built from.
pub uninterp spec fn globset_patterns(s: globset::GlobSet) -> Seq<Seq<char>>;

/// Whether some of the glob patterns `patterns` matches `path`
/// (`GlobSet::is_match`).
pub uninterp spec fn glob_set_match(patterns: Seq<Seq<char>>, path: Seq<char>) -> bool;

/// Whether globset accepts `pattern`: `Glob::new` parses it and
/// `GlobSetBuilder::build` compiles the set of that one pattern.
pub uninterp spec fn globset_accepts(pattern: Seq<char>) -> bool;

/// `Glob::new(pattern)` added to a `GlobSetBuilder`, then `build`: the set
/// of that one pattern, there exactly when globset accepts the pattern
/// (see `globset_accepts`); which patterns it refuses is not stated here.
#[verifier::external_body]
pub(crate) fn build_globset(pattern: &str) -> (r: Option<globset::GlobSet>)
    ensures
        r is Some <==> globset_accepts(pattern@),
        r matches Some(s) ==> globset_patterns(s) == seq![pattern@],
{
    let glob = match globset::Glob::new(pattern) {
        Ok(g) => g,
        Err(_) => return None,
    };
    let mut builder = globset::GlobSetBuilder::new();
    builder.add(glob);
    builder.build().ok()
}

/// `GlobSet::is_match`: whether a pattern of the set matches `path`.
#[verifier::external_body]
pub(crate) fn globset_is_match(set: &globset::GlobSet, path: &str) -> (r: bool)
    ensures
        r == glob_set_match(globset_patterns(*set), path@),
{
    set.is_match(path)
}

// ---------------------------------------------------------------------------
// Relative paths
// ---------------------------------------------------------------------------

/// `Path::strip_prefix`: the path that joined onto `root` gives `file`,
/// none when `root` is not a prefix of `file` component by component.
pub uninterp spec fn stripped_prefix(file: Seq<char>, root: Seq<char>) -> Option<Seq<char>>;

/// `Path::strip_prefix` (see `stripped_prefix`), as a string.
#[verifier::external_body]
pub(crate) fn strip_path_prefix(file: &str, root: &str) -> (r: Option<String>)
    ensures
        opt_chars(r) == stripped_prefix(file@, root@),
{
    match std::path::Path::new(file).strip_prefix(root) {
        Ok(p) => Some(p.to_string_lossy().into_owned()),
        Err(_) => None,
    }
}

pub open spec fn opt_chars(o: Option<String>) -> Option<Seq<char>> {
    match o {
        Some(s) => Some(s@),
        None => None,
    }
}

/// The path of `file` relative to `root`: `file` itself when `root` is
/// empty or not a prefix of it; its file name when it is `root` itself.
pub open spec fn relative_to(root: Seq<char>, file: Seq<char>) -> Seq<char> {
    if root.len() == 0 {
        file
    } else {
        match stripped_prefix(file, root) {
            Some(rel) => if rel.len() == 0 {
                match file_name(file) {
                    Some(n) => n,
                    None => file,
                }
            } else {
                rel
            },
            None => file,
        }
    }
}

/// The path of `file` relative to `root` (see `relative_to`).
pub fn relative_path(root: &str, file: &str) -> (r: String)
    ensures
        r@ == relative_to(root@, file@),
{
    let mut own = String::new();
    push_str(&mut own, file);
    if root.is_empty() {
        return own;
    }
    match strip_path_prefix(file, root) {
        Some(rel) => if rel.as_str().is_empty() {
            let v = chars_of(file);
            match file_name_bounds(v.as_slice()) {
                Some((a, b)) => string_of(slice_range(v.as_slice(), a, b).as_slice()),
                None => own,
            }
        } else {
            rel
        },
        None => own,
    }
}


// ---------------------------------------------------------------------------
// Extraction over files
// ---------------------------------------------------------------------------

/// A file of a project: its path relative to where the extraction starts,
/// and its content, none when it could not be read.
pub struct ProjectFile {
    pub path: String,
    pub content: Option<String>,
}

/// Why a type extraction failed.
#[derive(Debug, Clone, Copy, PartialEq, Eq, Structural)]
pub enum TypesError {
    /// globset refused the pattern.
    PatternRejected,
    /// The file could not be read.
    Unreadable,
    /// The file could not be parsed.
    Parse(ParseError),
}

/// A finished result: the count of kept types recorded, truncated exactly
/// when a limit was hit, within `limit`, and counting all it keeps; the
/// only limit hit is the type limit, and then more types were met than
/// kept.
pub open spec fn finished_result(r: TypeExtractionResult, limit: usize) -> bool {
    &&& r.types_included == r.types@.len()
    &&& r.truncated == (r.limit_hit is Some)
    &&& r.types@.len() <= limit
    &&& r.types@.len() <= r.total_types
    &&& r.limit_hit is None ==> r.total_types == r.types@.len()
    &&& r.limit_hit is Some ==> r.limit_hit == Some(LimitHit::TypeLimit) && r.total_types > r.types@.len()
}

/// A finished extraction is truncated exactly when it met more types than
/// it kept, and it never stops at the token limit.
pub proof fn law_truncated_when_types_left(r: TypeExtractionResult, limit: usize)
    requires
        finished_result(r, limit),
    ensures
        r.truncated <==> r.total_types > r.types_included,
        r.limit_hit != Some(LimitHit::TokenLimit),
{
}

fn file_selected(matcher: &Option<globset::GlobSet>, path: &str) -> (r: bool)
    ensures
        r == match matcher {
            Some(s) => glob_set_match(globset_patterns(*s), crate::paths::forward_slashes(path@)),
            None => true,
        },
{
    match matcher {
        Some(s) => {
            let normalized = crate::paths::normalize_path(path);
            globset_is_match(s, normalized.as_str())
        },
        None => true,
    }
}

/// A file as plain values: its path and its content, if read.
pub type FileInput = (Seq<char>, Option<Seq<char>>);

pub open spec fn project_file_views(v: Seq<ProjectFile>) -> Seq<FileInput> {
    v.map_values(|f: ProjectFile| (f.path@, opt_chars(f.content)))
}

/// Whether a path is selected: always without a pattern, else when the
/// pattern matches it with forward slashes.
pub open spec fn selected_by(pattern: Option<Seq<char>>, path: Seq<char>) -> bool {
    match pattern {
        None => true,
        Some(p) => glob_set_match(seq![p], crate::paths::forward_slashes(path)),
    }
}

/// The tree held for one file: none when the extraction had stopped
/// before it, or when it is not selected, was not read, is in no supported
/// language or does not parse; else a well-formed tree that is its parse.
pub open spec fn tree_fits(
    f: FileInput,
    t: Option<SyntaxTree>,
    pattern: Option<Seq<char>>,
    stopped: bool,
) -> bool {
    if stopped || !selected_by(pattern, f.0) || f.1 is None || supported_language(f.0) is None {
        t is None
    } else {
        let g = grammar_of(supported_language(f.0).unwrap());
        match crate::parser::parse_nodes(g, f.1.unwrap()) {
            Some(_) => t matches Some(tr) && tr.wf() && crate::parser::tree_is_parse(
                tr,
                g,
                f.1.unwrap(),
            ),
            None => t is None,
        }
    }
}

/// The trees held for the files, in order (see `tree_fits`).
pub open spec fn trees_match(
    files: Seq<FileInput>,
    trees: Seq<Option<SyntaxTree>>,
    pattern: Option<Seq<char>>,
    limit: int,
) -> bool
    decreases files.len(),
{
    &&& trees.len() == files.len()
    &&& files.len() > 0 ==> {
        &&& trees_match(files.drop_last(), trees.drop_last(), pattern, limit)
        &&& tree_fits(
            files.last(),
            trees.last(),
            pattern,
            extraction(files.drop_last(), trees.drop_last(), pattern, limit).2 is Some,
        )
    }
}

/// The kept types, the count of types met and the limit hit, over the
/// files in order: a file that is selected, was read, is in a supported
/// language and was parsed gives the types of its tree; the files after a
/// limit is hit are not looked at.
pub open spec fn extraction(
    files: Seq<FileInput>,
    trees: Seq<Option<SyntaxTree>>,
    pattern: Option<Seq<char>>,
    limit: int,
) -> (Seq<TypeView>, int, Option<LimitHit>)
    decreases files.len(),
{
    if files.len() == 0 {
        (seq![], 0, None)
    } else {
        let prev = extraction(files.drop_last(), trees.drop_last(), pattern, limit);
        let f = files.last();
        if prev.2 is Some {
            prev
        } else if selected_by(pattern, f.0) && f.1 is Some && supported_language(f.0) is Some
            && trees.last() is Some {
            add_within_limit(
                prev.0,
                prev.1,
                prev.2,
                types_of(trees.last().unwrap(), supported_language(f.0).unwrap(), f.0),
                limit,
            )
        } else {
            prev
        }
    }
}

/// Once the extraction over the first `k` files has hit a limit, files
/// after them with no tree change neither the outcome nor the fit of the
/// trees.
proof fn lemma_stopped_fill(
    files: Seq<FileInput>,
    trees: Seq<Option<SyntaxTree>>,
    pattern: Option<Seq<char>>,
    limit: int,
    k: int,
    j: int,
)
    requires
        0 <= k <= j <= files.len(),
        trees.len() == files.len(),
        trees_match(files.take(k), trees.take(k), pattern, limit),
        extraction(files.take(k), trees.take(k), pattern, limit).2 is Some,
        forall|i: int| k <= i < files.len() ==> (#[trigger] trees[i]) is None,
    ensures
        trees_match(files.take(j), trees.take(j), pattern, limit),
        extraction(files.take(j), trees.take(j), pattern, limit) == extraction(
            files.take(k),
            trees.take(k),
            pattern,
            limit,
        ),
    decreases j - k,
{
    if j > k {
        lemma_stopped_fill(files, trees, pattern, limit, k, j - 1);
        assert(files.take(j).drop_last() =~= files.take(j - 1));
        assert(trees.take(j).drop_last() =~= trees.take(j - 1));
        assert(trees.take(j).last() == trees[j - 1]);
    }
}

/// Extract the type definitions of the files of a directory, in order:
/// those whose path (with forward slashes) matches `pattern` when one is
/// given, that were read and are in a supported language; files that do not
/// parse are skipped; the extraction stops at the first type beyond the
/// limit (`max_types`, at most `HARD_TYPE_LIMIT`, which 0 stands for).
/// `Err` only when globset refuses the pattern.
pub fn extract_types(files: &Vec<ProjectFile>, pattern: Option<&str>, max_types: usize) -> (r:
    Result<TypeExtractionResult, TypesError>)
    ensures
        r is Err <==> (pattern is Some && !globset_accepts(pattern.unwrap()@)),
        r is Err ==> r == Err::<TypeExtractionResult, TypesError>(TypesError::PatternRejected),
        r matches Ok(res) ==> finished_result(res, effective_limit_of(max_types)),
        r matches Ok(res) ==> none_counted(type_views(res.types@)),
        r matches Ok(res) ==> exists|trees: Seq<Option<SyntaxTree>>|
            #![trigger extraction(project_file_views(files@), trees, opt_str(pattern), effective_limit_of(max_types) as int)]
            {
                let e = extraction(
                    project_file_views(files@),
                    trees,
                    opt_str(pattern),
                    effective_limit_of(max_types) as int,
                );
                &&& trees_match(
                    project_file_views(files@),
                    trees,
                    opt_str(pattern),
                    effective_limit_of(max_types) as int,
                )
                &&& type_views(res.types@) == e.0
                &&& res.total_types == e.1
                &&& res.limit_hit == e.2
            },
{
    let ghost fv = project_file_views(files@);
    let ghost pv = opt_str(pattern);
    let matcher = match pattern {
        Some(p) => match build_globset(p) {
            Some(s) => Some(s),
            None => return Err(TypesError::PatternRejected),
        },
        None => None,
    };
    let limit = effective_limit(max_types);
    let mut result = TypeExtractionResult::new();
    let ghost mut trees: Seq<Option<SyntaxTree>> = seq![];
    let mut k: usize = 0;
    assert(fv.take(0) =~= seq![]);
    while k < files.len()
        invariant
            limit == effective_limit_of(max_types),
            limit <= HARD_TYPE_LIMIT,
            open_result(result, limit),
            result.types_included == 0,
            !result.truncated,
            k <= files@.len(),
            fv == project_file_views(files@),
            pv == opt_str(pattern),
            match matcher {
                Some(s) => pattern is Some && globset_patterns(s) == seq![pattern.unwrap()@],
                None => pattern is None,
            },
            pattern is Some ==> globset_accepts(pattern.unwrap()@),
            trees_match(fv.take(k as int), trees, pv, limit as int),
            result.limit_hit is None,
            ({
                let e = extraction(fv.take(k as int), trees, pv, limit as int);
                &&& type_views(result.types@) == e.0
                &&& result.total_types == e.1
                &&& result.limit_hit == e.2
            }),
        decreases files@.len() - k,
    {
        let f = &files[k];
        let ghost fk = fv[k as int];
        assert(fk == (f.path@, opt_chars(f.content)));
        assert(fv.take(k + 1).drop_last() =~= fv.take(k as int));
        assert(fv.take(k + 1).last() == fk);
        let ghost before = result;
        let ghost mut tk: Option<SyntaxTree> = None;
        let sel = file_selected(&matcher, f.path.as_str());
        assert(sel == selected_by(pv, f.path@));
        if sel {
            if let Some(content) = &f.content {
                if let Some(language) = detect_language(f.path.as_str()) {
                    let outcome = process_file_with_source(
                        content.as_str(),
                        f.path.as_str(),
                        language,
                        limit,
                        &mut result,
                    );
                    proof {
                        if outcome is Ok {
                            let t = choose|t: SyntaxTree|
                                #![trigger types_of(t, language, f.path@)]
                                {
                                    let s = add_within_limit(
                                        type_views(before.types@),
                                        before.total_types as int,
                                        before.limit_hit,
                                        types_of(t, language, f.path@),
                                        limit as int,
                                    );
                                    &&& t.wf()
                                    &&& crate::parser::tree_is_parse(t, grammar_of(language), content@)
                                    &&& type_views(result.types@) == s.0
                                    &&& result.total_types == s.1
                                    &&& result.limit_hit == s.2
                                };
                            tk = Some(t);
                        }
                    }
                }
            }
        }
        proof {
            let nt = trees.push(tk);
            assert(nt.drop_last() =~= trees);
            assert(nt.last() == tk);
            assert(tree_fits(fk, tk, pv, false));
            assert(trees_match(fv.take(k + 1), nt, pv, limit as int));
            trees = nt;
        }
        if result.limit_hit.is_some() {
            proof {
                let rest_trees = trees + Seq::new((files@.len() - (k + 1)) as nat, |i: int| None::<SyntaxTree>);
                assert(rest_trees.take(k + 1) =~= trees);
                assert(fv.take(k + 1).len() == k + 1);
                lemma_stopped_fill(fv, rest_trees, pv, limit as int, k + 1, fv.len() as int);
                assert(fv.take(fv.len() as int) =~= fv);
                assert(rest_trees.take(fv.len() as int) =~= rest_trees);
                law_extracted_types_uncounted(fv, rest_trees, pv, limit as int);
            }
            result.finalize();
            return Ok(result);
        }
        k = k + 1;
    }
    proof {
        assert(fv.take(files.len() as int) =~= fv);
        law_extracted_types_uncounted(fv, trees, pv, limit as int);
    }
    result.finalize();
    Ok(result)
}

/// A text option as a sequence option.
pub open spec fn opt_str(o: Option<&str>) -> Option<Seq<char>> {
    match o {
        Some(s) => Some(s@),
        None => None,
    }
}

/// Extract the type definitions of one file: none when it is hidden or its
/// path does not match `pattern`; `Err` when globset refuses the pattern,
/// when the file could not be read or parsed.
pub fn extract_types_from_file(file: &ProjectFile, pattern: Option<&str>, max_types: usize) -> (r:
    Result<TypeExtractionResult, TypesError>)
    ensures
        r == Err::<TypeExtractionResult, TypesError>(TypesError::PatternRejected) <==> (pattern is Some
            && !globset_accepts(pattern.unwrap()@)),
        r matches Ok(res) ==> finished_result(res, effective_limit_of(max_types)),
        r matches Ok(res) ==> none_counted(type_views(res.types@)),
        !(r matches Err(TypesError::PatternRejected)) && (crate::paths::is_hidden_path(file.path@)
            || !selected_by(opt_str(pattern), file.path@)) ==> (r matches Ok(res) && res.types@.len()
            == 0 && res.total_types == 0),
        !(r matches Err(TypesError::PatternRejected)) && !crate::paths::is_hidden_path(file.path@)
            && selected_by(opt_str(pattern), file.path@) ==> {
            &&& file.content is None <==> r == Err::<TypeExtractionResult, TypesError>(
                TypesError::Unreadable,
            )
            &&& file.content is Some && supported_language(file.path@) is None ==> (r matches Ok(
                res,
            ) && res.types@.len() == 0 && res.total_types == 0)
            &&& file.content is Some && supported_language(file.path@) is Some ==> {
                &&& r is Ok <==> crate::parser::parse_nodes(
                    grammar_of(supported_language(file.path@).unwrap()),
                    file.content.unwrap()@,
                ) is Some
                &&& r is Err ==> r matches Err(TypesError::Parse(_))
            }
        },
        r matches Ok(res) ==> (!crate::paths::is_hidden_path(file.path@) && selected_by(
            opt_str(pattern),
            file.path@,
        ) && supported_language(file.path@) is Some ==> exists|t: SyntaxTree|
            #![trigger types_of(t, supported_language(file.path@).unwrap(), file.path@)]
            {
                let s = add_within_limit(
                    seq![],
                    0,
                    None,
                    types_of(t, supported_language(file.path@).unwrap(), file.path@),
                    effective_limit_of(max_types) as int,
                );
                &&& t.wf()
                &&& opt_chars(file.content) == Some(t.source@)
                &&& crate::parser::tree_is_parse(
                    t,
                    grammar_of(supported_language(file.path@).unwrap()),
                    t.source@,
                )
                &&& type_views(res.types@) == s.0
                &&& res.total_types == s.1
                &&& res.limit_hit == s.2
            }),
{
    let matcher = match pattern {
        Some(p) => match build_globset(p) {
            Some(s) => Some(s),
            None => return Err(TypesError::PatternRejected),
        },
        None => None,
    };
    let limit = effective_limit(max_types);
    let mut result = TypeExtractionResult::new();
    assert(type_views(result.types@) =~= seq![]);
    if crate::paths::is_hidden(file.path.as_str()) || !file_selected(&matcher, file.path.as_str()) {
        result.finalize();
        return Ok(result);
    }
    let content = match &file.content {
        Some(c) => c,
        None => return Err(TypesError::Unreadable),
    };
    if let Some(language) = detect_language(file.path.as_str()) {
        if let Err(e) = process_file_with_source(
            content.as_str(),
            file.path.as_str(),
            language,
            limit,
            &mut result,
        ) {
            return Err(TypesError::Parse(e));
        }
    }
    result.finalize();
    Ok(result)
}
} // verus!
