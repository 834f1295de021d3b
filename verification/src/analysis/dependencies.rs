//! Dependencies of a source file inside its project: which paths each
//! `mod`, `use crate::`, `import` or `from` names, and which of them are
//! kept once the files that exist are known.
use vstd::prelude::*;
use crate::analysis::edit_context::ident_char;
use crate::analysis::file_shape::captured;
use crate::paths::{file_name, name_stem};
use crate::parser::Language;
use crate::syntax::SyntaxTree;
use crate::text::{
    chars_of, first_index, last_index, lines, push_chars, push_str, split_str, starts_with,
    str_eq, string_of, trim, trim_start, views,
};

verus! {

// ---------------------------------------------------------------------------
// Paths
// ---------------------------------------------------------------------------

/// `Path::join` on strings: an absolute `b` replaces `a`, an empty `a`
/// gives `b`, else a `/` goes between them unless `a` ends with one.
pub open spec fn join_path(a: Seq<char>, b: Seq<char>) -> Seq<char> {
    if b.len() > 0 && b[0] == '/' {
        b
    } else if a.len() == 0 {
        b
    } else if a.last() == '/' {
        a + b
    } else {
        a + seq!['/'] + b
    }
}

/// `Path::join` on strings (see `join_path`).
pub fn join_paths(a: &str, b: &str) -> (r: String)
    ensures
        r@ == join_path(a@, b@),
{
    let av = chars_of(a);
    let bv = chars_of(b);
    let mut out = String::new();
    if bv.len() > 0 && bv[0] == '/' {
        push_chars(&mut out, bv.as_slice());
        return out;
    }
    if av.len() == 0 {
        push_chars(&mut out, bv.as_slice());
        return out;
    }
    push_chars(&mut out, av.as_slice());
    if av[av.len() - 1] != '/' {
        crate::text::push_char(&mut out, '/');
    }
    push_chars(&mut out, bv.as_slice());
    out
}

/// The directory of a path written with single `/`: what comes before its
/// last `/` (`/` itself for a top-level entry, empty for a bare name);
/// none for an empty path or `/`.
pub open spec fn parent_dir(p: Seq<char>) -> Option<Seq<char>> {
    let i = last_index(p, '/');
    if p.len() == 0 || p == seq!['/'] {
        None
    } else if i < 0 {
        Some(seq![])
    } else if i == 0 {
        Some(seq!['/'])
    } else {
        Some(p.take(i))
    }
}

/// The directory of a path (see `parent_dir`).
pub fn parent_of(p: &str) -> (r: Option<String>)
    ensures
        match r {
            Some(s) => parent_dir(p@) == Some(s@),
            None => parent_dir(p@) is None,
        },
{
    let v = chars_of(p);
    let is_root = v.len() == 1 && v[0] == '/';
    proof {
        if is_root {
            assert(v@ =~= seq!['/']);
        } else if v@ == seq!['/'] {
            assert(v@[0] == '/');
        }
    }
    if v.len() == 0 || is_root {
        return None;
    }
    assert(v@.take(v.len() as int) =~= v@);
    match crate::text::rfind_char(v.as_slice(), '/', v.len()) {
        None => {
            proof {
                crate::text::lemma_last_index(v@, '/');
            }
            Some(String::new())
        },
        Some(i) => {
            proof {
                crate::text::lemma_last_index(v@, '/');
                assert(v@.take(v.len() as int) =~= v@);
            }
            if i == 0 {
                let mut s = String::new();
                crate::text::push_char(&mut s, '/');
                assert(s@ =~= seq!['/']);
                Some(s)
            } else {
                let r = crate::text::string_of_range(v.as_slice(), 0, i);
                assert(r@ =~= v@.take(i as int));
                Some(r)
            }
        },
    }
}

/// `Path::with_extension` for a path that does not end with `/`: the
/// extension of its last component replaced by (or extended with) `ext`;
/// a path whose last component is empty, `.` or `..` stays as it is.
pub open spec fn with_ext(p: Seq<char>, ext: Seq<char>) -> Seq<char> {
    let i = last_index(p, '/');
    let name = p.skip(i + 1);
    if name.len() == 0 || name == seq!['.'] || name == seq!['.', '.'] {
        p
    } else {
        p.take(i + 1) + name_stem(name) + seq!['.'] + ext
    }
}

fn stem_end(name: &[char]) -> (r: usize)
    ensures
        r <= name.len(),
        name@.take(r as int) == name_stem(name@),
{
    let r = match crate::text::rfind_char(name, '.', name.len()) {
        Some(k) => if k > 0 {
            k
        } else {
            name.len()
        },
        None => name.len(),
    };
    proof {
        crate::text::lemma_last_index(name@, '.');
        assert(name@.take(name.len() as int) =~= name@);
    }
    r
}

fn last_component_start(v: &[char]) -> (r: usize)
    ensures
        r <= v.len(),
        r == last_index(v@, '/') + 1,
{
    let r = match crate::text::rfind_char(v, '/', v.len()) {
        Some(i) => i + 1,
        None => 0,
    };
    proof {
        crate::text::lemma_last_index(v@, '/');
        assert(v@.take(v.len() as int) =~= v@);
    }
    r
}

fn is_dot_name(name: &[char]) -> (r: bool)
    ensures
        r == (name@.len() == 0 || name@ == seq!['.'] || name@ == seq!['.', '.']),
{
    let dot = name.len() == 1 && name[0] == '.';
    let dotdot = name.len() == 2 && name[0] == '.' && name[1] == '.';
    proof {
        if name@ == seq!['.'] {
            assert(name@.len() == 1 && name@[0] == '.');
        }
        if name@ == seq!['.', '.'] {
            assert(name@.len() == 2 && name@[0] == '.' && name@[1] == '.');
        }
        if dot {
            assert(name@ =~= seq!['.']);
        }
        if dotdot {
            assert(name@ =~= seq!['.', '.']);
        }
    }
    name.len() == 0 || dot || dotdot
}

/// `Path::with_extension` (see `with_ext`).
pub fn with_extension(p: &str, ext: &str) -> (r: String)
    ensures
        r@ == with_ext(p@, ext@),
{
    let v = chars_of(p);
    let start = last_component_start(v.as_slice());
    let name = crate::text::slice_range(v.as_slice(), start, v.len());
    assert(name@ =~= v@.skip(last_index(v@, '/') + 1));
    if is_dot_name(name.as_slice()) {
        return string_of(v.as_slice());
    }
    let e = stem_end(name.as_slice());
    let mut out = crate::text::string_of_range(v.as_slice(), 0, start);
    let stem = crate::text::slice_range(name.as_slice(), 0, e);
    assert(stem@ =~= name@.take(e as int));
    push_chars(&mut out, stem.as_slice());
    crate::text::push_char(&mut out, '.');
    push_str(&mut out, ext);
    assert(out@ =~= with_ext(v@, ext@));
    out
}

// ---------------------------------------------------------------------------
// Rust
// ---------------------------------------------------------------------------

/// How many of the first characters of `s` make up a token (ASCII
/// letters, digits and `_`).
pub open spec fn lead_ident(s: Seq<char>) -> nat
    decreases s.len(),
{
    if s.len() > 0 && ident_char(s[0]) {
        1 + lead_ident(s.drop_first())
    } else {
        0
    }
}

/// The first segment of a Rust path: the token at its start (after
/// whitespace); none when there is none.
pub open spec fn first_segment(rest: Seq<char>) -> Option<Seq<char>> {
    let t = trim_start(rest);
    let n = lead_ident(t);
    if n == 0 {
        None
    } else {
        Some(t.take(n as int))
    }
}

proof fn lemma_lead_ident(s: Seq<char>, k: int)
    requires
        0 <= k <= s.len(),
        forall|j: int| 0 <= j < k ==> ident_char(#[trigger] s[j]),
        k == s.len() || !ident_char(s[k]),
    ensures
        lead_ident(s) == k,
    decreases k,
{
    if k > 0 {
        lemma_lead_ident(s.drop_first(), k - 1);
    }
}

/// The first segment of a Rust path (see `first_segment`).
pub fn first_rust_path_segment(rest: &str) -> (r: Option<String>)
    ensures
        match r {
            Some(s) => first_segment(rest@) == Some(s@),
            None => first_segment(rest@) is None,
        },
{
    let v = chars_of(rest);
    let a = crate::text::skip_ws(v.as_slice(), 0, v.len());
    proof {
        crate::text::lemma_lead_ws(v@);
        assert(v@.subrange(0, v.len() as int) =~= v@);
    }
    let t = crate::text::slice_range(v.as_slice(), a, v.len());
    assert(t@ =~= trim_start(v@));
    let mut k: usize = 0;
    while k < t.len() && (('a' <= t[k] && t[k] <= 'z') || ('A' <= t[k] && t[k] <= 'Z') || ('0' <= t[k]
        && t[k] <= '9') || t[k] == '_')
        invariant
            k <= t.len(),
            forall|j: int| 0 <= j < k ==> ident_char(#[trigger] t@[j]),
        decreases t.len() - k,
    {
        k = k + 1;
    }
    proof {
        lemma_lead_ident(t@, k as int);
    }
    if k == 0 {
        None
    } else {
        Some(crate::text::string_of_range(t.as_slice(), 0, k))
    }
}

/// The pieces of the module list of a `use crate::{a::X, b::Y}` inside the
/// braces (up to the first `}`), split at `,`.
pub open spec fn brace_parts(t: Seq<char>) -> Seq<Seq<char>> {
    let inner = t.drop_first();
    let close = first_index(inner, '}');
    let body = if close < inner.len() {
        inner.take(close)
    } else {
        inner
    };
    split_str(body, seq![','])
}

/// The first segment of each piece, those that have one.
pub open spec fn segments_of(parts: Seq<Seq<char>>) -> Seq<Seq<char>>
    decreases parts.len(),
{
    if parts.len() == 0 {
        seq![]
    } else {
        segments_of(parts.drop_last()) + match first_segment(trim(parts.last())) {
            Some(s) => seq![s],
            None => seq![],
        }
    }
}

/// The modules that what follows `use crate::` names: the first segment of
/// each item of a braced list, else the first segment.
pub open spec fn use_crate_modules(rest: Seq<char>) -> Seq<Seq<char>> {
    let t = trim(rest);
    if t.len() > 0 && t[0] == '{' {
        segments_of(brace_parts(t))
    } else {
        match first_segment(t) {
            Some(s) => seq![s],
            None => seq![],
        }
    }
}

/// The modules that what follows `use crate::` names (see
/// `use_crate_modules`).
pub fn rust_use_crate_modules(rest: &str) -> (r: Vec<String>)
    ensures
        views(r@) == use_crate_modules(rest@),
{
    let t = crate::text::trim_str(rest);
    let tv = chars_of(t.as_str());
    let mut out: Vec<String> = Vec::new();
    if tv.len() > 0 && tv[0] == '{' {
        let inner = crate::text::slice_range(tv.as_slice(), 1, tv.len());
        assert(inner@ =~= tv@.drop_first());
        let close = crate::text::line_end_char(inner.as_slice(), '}');
        let body = crate::text::slice_range(inner.as_slice(), 0, close);
        proof {
            if close < inner.len() {
                assert(body@ =~= inner@.take(close as int));
            } else {
                assert(body@ =~= inner@);
            }
        }
        let comma: Vec<char> = vec![','];
        assert(comma@ =~= seq![',']);
        let parts = crate::text::split_pieces(body.as_slice(), comma.as_slice());
        let ghost pv = crate::text::char_views(parts@);
        assert(pv == brace_parts(tv@));
        let mut i: usize = 0;
        assert(views(out@) =~= segments_of(pv.take(0)));
        while i < parts.len()
            invariant
                i <= parts.len(),
                pv == crate::text::char_views(parts@),
                views(out@) == segments_of(pv.take(i as int)),
            decreases parts.len() - i,
        {
            let piece = string_of(parts[i].as_slice());
            let trimmed = crate::text::trim_str(piece.as_str());
            assert(pv.take(i + 1).drop_last() =~= pv.take(i as int));
            assert(pv.take(i + 1).last() == parts@[i as int]@);
            let ghost before = views(out@);
            if let Some(s) = first_rust_path_segment(trimmed.as_str()) {
                out.push(s);
                assert(views(out@) =~= before.push(s@));
            }
            assert(views(out@) =~= segments_of(pv.take(i + 1)));
            i = i + 1;
        }
        assert(pv.take(parts.len() as int) =~= pv);
    } else {
        if let Some(s) = first_rust_path_segment(t.as_str()) {
            out.push(s);
            assert(views(out@) =~= seq![s@]);
        } else {
            assert(views(out@) =~= seq![]);
        }
    }
    out
}

/// `s` with every repetition of `p` at its start removed
/// (`str::trim_start_matches`).
pub open spec fn strip_repeated(s: Seq<char>, p: Seq<char>) -> Seq<char>
    decreases s.len(),
{
    if p.len() > 0 && starts_with(s, p) {
        strip_repeated(s.skip(p.len() as int), p)
    } else {
        s
    }
}

/// The modules named by one line: a line that starts (after whitespace)
/// with `use `, then `crate::`.
pub open spec fn line_use_modules(line: Seq<char>) -> Seq<Seq<char>> {
    let l = trim_start(line);
    if !starts_with(l, "use "@) {
        seq![]
    } else {
        let rest = trim_start(strip_repeated(l, "use "@));
        if starts_with(rest, "crate::"@) {
            use_crate_modules(rest.skip(7))
        } else {
            seq![]
        }
    }
}

/// The modules named by `use crate::` lines, line by line.
pub open spec fn use_modules(ls: Seq<Seq<char>>) -> Seq<Seq<char>>
    decreases ls.len(),
{
    if ls.len() == 0 {
        seq![]
    } else {
        use_modules(ls.drop_last()) + line_use_modules(ls.last())
    }
}

fn strip_repeated_exec(v: &[char], lit: &str) -> (r: Vec<char>)
    requires
        lit@.len() > 0,
    ensures
        r@ == strip_repeated(v@, lit@),
{
    let p = chars_of(lit);
    let mut pos: usize = 0;
    assert(v@.skip(0) =~= v@);
    while p.len() <= v.len() - pos && crate::text::occurs_at_exec(v, p.as_slice(), pos)
        invariant
            pos <= v.len(),
            p@ == lit@,
            p@.len() > 0,
            strip_repeated(v@, lit@) == strip_repeated(v@.skip(pos as int), lit@),
        decreases v.len() - pos,
    {
        assert(starts_with(v@.skip(pos as int), p@)) by {
            assert(v@.skip(pos as int).take(p@.len() as int) =~= v@.subrange(pos as int, pos + p@.len()));
        }
        assert(v@.skip(pos as int).skip(p@.len() as int) =~= v@.skip(pos + p@.len()));
        pos = pos + p.len();
    }
    proof {
        if starts_with(v@.skip(pos as int), p@) {
            assert(v@.skip(pos as int).take(p@.len() as int) =~= v@.subrange(pos as int, pos + p@.len()));
        }
    }
    crate::text::slice_range(v, pos, v.len())
}

/// The modules named by the `use crate::` lines of a source (see
/// `use_modules`).
pub fn rust_use_modules(source: &str) -> (r: Vec<String>)
    ensures
        views(r@) == use_modules(lines(source@)),
{
    let v = chars_of(source);
    let bounds = crate::text::line_bounds(v.as_slice());
    let ghost ls = lines(v@);
    let mut out: Vec<String> = Vec::new();
    let mut i: usize = 0;
    assert(views(out@) =~= use_modules(ls.take(0)));
    while i < bounds.len()
        invariant
            i <= bounds.len(),
            v@ == source@,
            ls == lines(v@),
            bounds@.len() == ls.len(),
            forall|k: int|
                0 <= k < bounds@.len() ==> {
                    &&& (#[trigger] bounds@[k]).0 <= bounds@[k].1 <= v@.len()
                    &&& v@.subrange(bounds@[k].0 as int, bounds@[k].1 as int) == ls[k]
                },
            views(out@) == use_modules(ls.take(i as int)),
        decreases bounds.len() - i,
    {
        let (a, b) = bounds[i];
        let line = crate::text::slice_range(v.as_slice(), a, b);
        assert(line@ == ls[i as int]);
        let s = crate::text::skip_ws(line.as_slice(), 0, line.len());
        proof {
            crate::text::lemma_lead_ws(line@);
            assert(line@.subrange(0, line.len() as int) =~= line@);
        }
        let l = crate::text::slice_range(line.as_slice(), s, line.len());
        assert(l@ =~= trim_start(line@));
        let ghost before = views(out@);
        assert(ls.take(i + 1).drop_last() =~= ls.take(i as int));
        assert(ls.take(i + 1).last() == ls[i as int]);
        proof {
            reveal_strlit("use ");
        }
        if crate::text::starts_with_lit(l.as_slice(), "use ") {
            let stripped = strip_repeated_exec(l.as_slice(), "use ");
            let k = crate::text::skip_ws(stripped.as_slice(), 0, stripped.len());
            proof {
                crate::text::lemma_lead_ws(stripped@);
                assert(stripped@.subrange(0, stripped.len() as int) =~= stripped@);
            }
            let rest = crate::text::slice_range(stripped.as_slice(), k, stripped.len());
            assert(rest@ =~= trim_start(stripped@));
            if crate::text::starts_with_lit(rest.as_slice(), "crate::") {
                proof {
                    reveal_strlit("crate::");
                }
                let after = crate::text::slice_range(rest.as_slice(), 7, rest.len());
                assert(after@ =~= rest@.skip(7));
                let mods = rust_use_crate_modules(string_of(after.as_slice()).as_str());
                let mut m: usize = 0;
                while m < mods.len()
                    invariant
                        m <= mods.len(),
                        views(out@) == before + views(mods@).take(m as int),
                    decreases mods.len() - m,
                {
                    let ghost b2 = views(out@);
                    out.push(mods[m].clone());
                    assert(views(out@) =~= b2.push(mods@[m as int]@));
                    assert(views(mods@).take(m + 1) =~= views(mods@).take(m as int).push(mods@[m as int]@));
                    m = m + 1;
                }
                assert(views(mods@).take(mods.len() as int) =~= views(mods@));
            } else {
                assert(views(out@) =~= before + seq![]);
            }
        } else {
            assert(views(out@) =~= before + seq![]);
        }
        i = i + 1;
    }
    assert(ls.take(bounds.len() as int) =~= ls);
    out
}

/// The closest directory named `src` among the directories above a file,
/// stopping at the project root; else `src` of the root when that is a
/// directory; else the root.
pub open spec fn crate_src_root(file: Seq<char>, root: Seq<char>, root_src_is_dir: bool) -> Seq<char> {
    match src_ancestor(parent_dir(file), root) {
        Some(d) => d,
        None => if root_src_is_dir {
            join_path(root, "src"@)
        } else {
            root
        },
    }
}

pub proof fn lemma_parent_shorter(p: Seq<char>)
    ensures
        parent_dir(p) matches Some(q) ==> q.len() < p.len(),
{
    crate::text::lemma_last_index(p, '/');
    if p.len() == 1 && last_index(p, '/') == 0 {
        assert(p =~= seq!['/']);
    }
}

/// Walking up from `dir`: the first directory named `src`, unless the root
/// comes first.
pub open spec fn src_ancestor(dir: Option<Seq<char>>, root: Seq<char>) -> Option<Seq<char>>
    decreases
            match dir {
                Some(c) => c.len() + 1,
                None => 0,
            },
{
    match dir {
        None => None,
        Some(c) => if file_name(c) == Some("src"@) {
            Some(c)
        } else if c == root {
            None
        } else {
            proof {
                lemma_parent_shorter(c);
            }
            src_ancestor(parent_dir(c), root)
        },
    }
}

/// The source root of the crate of a file (see `crate_src_root`); whether
/// `src` of the root is a directory is asked of the caller.
pub fn rust_crate_src_root(file_path: &str, project_root: &str, root_src_is_dir: bool) -> (r: String)
    ensures
        r@ == crate_src_root(file_path@, project_root@, root_src_is_dir),
{
    let mut dir = parent_of(file_path);
    loop
        invariant
            src_ancestor(parent_dir(file_path@), project_root@) == src_ancestor(
                match dir {
                    Some(d) => Some(d@),
                    None => None,
                },
                project_root@,
            ),
        ensures
            src_ancestor(parent_dir(file_path@), project_root@) is None,
        decreases
                match dir {
                    Some(d) => d@.len() + 1,
                    None => 0,
                },
    {
        match dir {
            None => break,
            Some(c) => {
                let cv = chars_of(c.as_str());
                let is_src = match crate::paths::file_name_bounds(cv.as_slice()) {
                    Some((a, b)) => {
                        let n = crate::text::slice_range(cv.as_slice(), a, b);
                        assert(n@ =~= cv@.subrange(a as int, b as int));
                        crate::text::eq_lit(n.as_slice(), "src")
                    },
                    None => false,
                };
                if is_src {
                    return c;
                }
                if str_eq(c.as_str(), project_root) {
                    break;
                }
                proof {
                    lemma_parent_shorter(c@);
                }
                dir = parent_of(c.as_str());
            },
        }
    }
    if root_src_is_dir {
        join_paths(project_root, "src")
    } else {
        let mut r = String::new();
        push_str(&mut r, project_root);
        r
    }
}

// ---------------------------------------------------------------------------
// What the imports name
// ---------------------------------------------------------------------------

/// Node `i` is what a file's imports name: a Rust `mod` name without a
/// body, a Python imported or `from` module, a JavaScript or TypeScript
/// import source, a Go import path, a Haskell imported module.
pub open spec fn import_capture(t: SyntaxTree, i: int, l: Language) -> bool {
    match l {
        Language::Rust => captured(t, i, "mod_item"@, "identifier"@, Some("name"@)) && t.child_by_field(
            t.parent(i).unwrap() as int,
            "body"@,
        ) is None,
        Language::Python => captured(t, i, "import_statement"@, "dotted_name"@, Some("name"@))
            || captured(t, i, "import_from_statement"@, "dotted_name"@, Some("module_name"@)),
        Language::JavaScript | Language::TypeScript => captured(
            t,
            i,
            "import_statement"@,
            "string"@,
            Some("source"@),
        ),
        Language::Go => captured(
            t,
            i,
            "import_spec"@,
            "interpreted_string_literal"@,
            Some("path"@),
        ),
        Language::Haskell => captured(t, i, "import"@, "module"@, Some("module"@)),
        _ => false,
    }
}

/// The texts of the import captures among the first `k` nodes, in order.
pub open spec fn import_texts(t: SyntaxTree, k: int, l: Language) -> Seq<Seq<char>>
    decreases k,
{
    if k <= 0 {
        seq![]
    } else {
        import_texts(t, k - 1, l) + if import_capture(t, k - 1, l) {
            seq![t.text(k - 1)]
        } else {
            seq![]
        }
    }
}

fn capture_is(
    tree: &SyntaxTree,
    i: usize,
    parent: &str,
    child: &str,
    field: &str,
) -> (r: bool)
    requires
        tree.wf(),
        i < tree.len(),
    ensures
        r == captured(*tree, i as int, parent@, child@, Some(field@)),
{
    if !tree.kind_is(i, child) {
        return false;
    }
    let p = match tree.nodes[i].parent {
        Some(p) => p,
        None => return false,
    };
    tree.kind_is(p, parent) && tree.field_of_is(i, field)
}

fn import_capture_exec(tree: &SyntaxTree, i: usize, language: Language) -> (r: bool)
    requires
        tree.wf(),
        i < tree.len(),
    ensures
        r == import_capture(*tree, i as int, language),
{
    match language {
        Language::Rust => {
            if !capture_is(tree, i, "mod_item", "identifier", "name") {
                return false;
            }
            let p = tree.nodes[i].parent.unwrap();
            tree.child_by_field_name(p, "body").is_none()
        },
        Language::Python => capture_is(tree, i, "import_statement", "dotted_name", "name")
            || capture_is(tree, i, "import_from_statement", "dotted_name", "module_name"),
        Language::JavaScript | Language::TypeScript => capture_is(
            tree,
            i,
            "import_statement",
            "string",
            "source",
        ),
        Language::Go => capture_is(tree, i, "import_spec", "interpreted_string_literal", "path"),
        Language::Haskell => capture_is(tree, i, "import", "module", "module"),
        _ => false,
    }
}

/// The texts that a file's imports name, in document order (see
/// `import_texts`).
pub fn collect_import_texts(tree: &SyntaxTree, language: Language) -> (r: Vec<String>)
    requires
        tree.wf(),
    ensures
        views(r@) == import_texts(*tree, tree.len(), language),
{
    let mut out: Vec<String> = Vec::new();
    let mut i: usize = 0;
    assert(views(out@) =~= import_texts(*tree, 0, language));
    while i < tree.nodes.len()
        invariant
            tree.wf(),
            i <= tree.len(),
            views(out@) == import_texts(*tree, i as int, language),
        decreases tree.len() - i,
    {
        let ghost before = views(out@);
        if import_capture_exec(tree, i, language) {
            let t = tree.node_text(i);
            out.push(t);
            assert(views(out@) =~= before.push(tree.text(i as int)));
        }
        assert(views(out@) =~= import_texts(*tree, i + 1, language));
        i = i + 1;
    }
    out
}

// ---------------------------------------------------------------------------
// Candidate paths
// ---------------------------------------------------------------------------

/// A group of candidate paths: the first that exists stands for the
/// dependency.
pub type Group = Seq<Seq<char>>;

pub open spec fn groups_view(v: Seq<Vec<String>>) -> Seq<Group> {
    v.map_values(|g: Vec<String>| views(g@))
}

/// Rust: for each `mod` name, `name.rs` then `name/mod.rs` next to the
/// file; then for each `use crate::` module, `m.rs` and `m/mod.rs` under
/// the crate's source root, each on its own.
pub open spec fn rust_groups(mods: Seq<Seq<char>>, uses: Seq<Seq<char>>, dir: Seq<char>, src: Seq<char>) -> Seq<
    Group,
> {
    mods.map_values(
        |n: Seq<char>| seq![join_path(dir, n + ".rs"@), join_path(join_path(dir, n), "mod.rs"@)],
    ) + use_groups(uses, src)
}

pub open spec fn use_groups(uses: Seq<Seq<char>>, src: Seq<char>) -> Seq<Group>
    decreases uses.len(),
{
    if uses.len() == 0 {
        seq![]
    } else {
        let m = uses.last();
        use_groups(uses.drop_last(), src) + seq![
            seq![join_path(src, m + ".rs"@)],
            seq![join_path(join_path(src, m), "mod.rs"@)],
        ]
    }
}

fn single(s: String) -> (r: Vec<String>)
    ensures
        views(r@) == seq![s@],
{
    let mut v: Vec<String> = Vec::new();
    v.push(s);
    assert(views(v@) =~= seq![s@]);
    v
}

fn with_suffix(a: &str, b: &str) -> (r: String)
    ensures
        r@ == a@ + b@,
{
    let mut s = String::new();
    push_str(&mut s, a);
    push_str(&mut s, b);
    s
}

/// The candidate groups of a Rust file (see `rust_groups`).
pub fn rust_dependency_groups(mods: &Vec<String>, uses: &Vec<String>, dir: &str, src: &str) -> (r: Vec<
    Vec<String>,
>)
    ensures
        groups_view(r@) == rust_groups(views(mods@), views(uses@), dir@, src@),
{
    let mut out: Vec<Vec<String>> = Vec::new();
    let ghost mv = views(mods@);
    let mut i: usize = 0;
    while i < mods.len()
        invariant
            i <= mods.len(),
            mv == views(mods@),
            groups_view(out@) == mv.take(i as int).map_values(
                |n: Seq<char>| seq![join_path(dir@, n + ".rs"@), join_path(join_path(dir@, n), "mod.rs"@)],
            ),
        decreases mods.len() - i,
    {
        let n = mods[i].as_str();
        let a = join_paths(dir, with_suffix(n, ".rs").as_str());
        let b = join_paths(join_paths(dir, n).as_str(), "mod.rs");
        let mut g: Vec<String> = Vec::new();
        g.push(a);
        g.push(b);
        let ghost before = groups_view(out@);
        let ghost gv = views(g@);
        out.push(g);
        assert(gv =~= seq![join_path(dir@, mv[i as int] + ".rs"@), join_path(join_path(dir@, mv[i as int]), "mod.rs"@)]);
        assert(groups_view(out@) =~= before.push(gv));
        assert(mv.take(i + 1).map_values(
            |n: Seq<char>| seq![join_path(dir@, n + ".rs"@), join_path(join_path(dir@, n), "mod.rs"@)],
        ) =~= mv.take(i as int).map_values(
            |n: Seq<char>| seq![join_path(dir@, n + ".rs"@), join_path(join_path(dir@, n), "mod.rs"@)],
        ).push(gv));
        i = i + 1;
    }
    assert(mv.take(mods.len() as int) =~= mv);
    let ghost first = groups_view(out@);
    let ghost uv = views(uses@);
    let mut j: usize = 0;
    assert(first =~= first + use_groups(uv.take(0), src@));
    while j < uses.len()
        invariant
            j <= uses.len(),
            uv == views(uses@),
            groups_view(out@) == first + use_groups(uv.take(j as int), src@),
        decreases uses.len() - j,
    {
        let m = uses[j].as_str();
        let a = join_paths(src, with_suffix(m, ".rs").as_str());
        let b = join_paths(join_paths(src, m).as_str(), "mod.rs");
        let ghost before = groups_view(out@);
        out.push(single(a));
        out.push(single(b));
        assert(uv.take(j + 1).drop_last() =~= uv.take(j as int));
        assert(uv.take(j + 1).last() == uv[j as int]);
        assert(groups_view(out@) =~= before + seq![
            seq![join_path(src@, uv[j as int] + ".rs"@)],
            seq![join_path(join_path(src@, uv[j as int]), "mod.rs"@)],
        ]);
        j = j + 1;
    }
    assert(uv.take(uses.len() as int) =~= uv);
    out
}

/// The path a dotted Python module names below `dir`.
pub open spec fn dotted_path(dir: Seq<char>, parts: Seq<Seq<char>>) -> Seq<char>
    decreases parts.len(),
{
    if parts.len() == 0 {
        dir
    } else {
        join_path(dotted_path(dir, parts.drop_last()), parts.last())
    }
}

/// Python: for each module, `module.py` then `module/__init__.py` below the
/// file's directory.
pub open spec fn python_group(dir: Seq<char>, module: Seq<char>) -> Group {
    let c = dotted_path(dir, split_str(module, seq!['.']));
    seq![with_ext(c, "py"@), join_path(c, "__init__.py"@)]
}

/// The candidates of one Python module (see `python_group`).
pub fn push_python_module(dir: &str, module: &str) -> (r: Vec<String>)
    ensures
        views(r@) == python_group(dir@, module@),
{
    let mv = chars_of(module);
    let dot: Vec<char> = vec!['.'];
    assert(dot@ =~= seq!['.']);
    let parts = crate::text::split_pieces(mv.as_slice(), dot.as_slice());
    let ghost pv = crate::text::char_views(parts@);
    let mut c = String::new();
    push_str(&mut c, dir);
    let mut i: usize = 0;
    assert(pv.take(0) =~= seq![]);
    while i < parts.len()
        invariant
            i <= parts.len(),
            pv == crate::text::char_views(parts@),
            c@ == dotted_path(dir@, pv.take(i as int)),
        decreases parts.len() - i,
    {
        let part = string_of(parts[i].as_slice());
        c = join_paths(c.as_str(), part.as_str());
        assert(pv.take(i + 1).drop_last() =~= pv.take(i as int));
        assert(pv.take(i + 1).last() == parts@[i as int]@);
        i = i + 1;
    }
    assert(pv.take(parts.len() as int) =~= pv);
    let a = with_extension(c.as_str(), "py");
    let b = join_paths(c.as_str(), "__init__.py");
    let mut g: Vec<String> = Vec::new();
    g.push(a);
    g.push(b);
    assert(views(g@) =~= python_group(dir@, module@));
    g
}

/// A quote character of a JavaScript string.
pub open spec fn quote_char(c: char) -> bool {
    c == '"' || c == '\''
}

pub open spec fn lead_quotes(s: Seq<char>) -> nat
    decreases s.len(),
{
    if s.len() > 0 && quote_char(s[0]) {
        1 + lead_quotes(s.drop_first())
    } else {
        0
    }
}

pub open spec fn trail_quotes(s: Seq<char>) -> nat
    decreases s.len(),
{
    if s.len() > 0 && quote_char(s.last()) {
        1 + trail_quotes(s.drop_last())
    } else {
        0
    }
}

/// `s` with its quote characters removed from both ends
/// (`trim_matches`).
pub open spec fn trim_quotes(s: Seq<char>) -> Seq<char> {
    let t = s.skip(lead_quotes(s) as int);
    t.take(t.len() - trail_quotes(t))
}

proof fn lemma_lead_quotes(s: Seq<char>, k: int)
    requires
        0 <= k <= s.len(),
        forall|j: int| 0 <= j < k ==> quote_char(#[trigger] s[j]),
        k == s.len() || !quote_char(s[k]),
    ensures
        lead_quotes(s) == k,
    decreases k,
{
    if k > 0 {
        lemma_lead_quotes(s.drop_first(), k - 1);
    }
}

proof fn lemma_trail_quotes(s: Seq<char>, k: int)
    requires
        0 <= k <= s.len(),
        forall|j: int| s.len() - k <= j < s.len() ==> quote_char(#[trigger] s[j]),
        k == s.len() || !quote_char(s[s.len() - k - 1]),
    ensures
        trail_quotes(s) == k,
    decreases k,
{
    if k > 0 {
        lemma_trail_quotes(s.drop_last(), k - 1);
    }
}

/// A text with its quote characters trimmed (see `trim_quotes`).
pub fn trim_quote_chars(text: &str) -> (r: String)
    ensures
        r@ == trim_quotes(text@),
{
    let v = chars_of(text);
    let mut a: usize = 0;
    while a < v.len() && (v[a] == '"' || v[a] == '\'')
        invariant
            a <= v.len(),
            forall|j: int| 0 <= j < a ==> quote_char(#[trigger] v@[j]),
        decreases v.len() - a,
    {
        a = a + 1;
    }
    proof {
        lemma_lead_quotes(v@, a as int);
    }
    let t = crate::text::slice_range(v.as_slice(), a, v.len());
    assert(t@ =~= v@.skip(a as int));
    let mut k: usize = 0;
    while k < t.len() && (t[t.len() - k - 1] == '"' || t[t.len() - k - 1] == '\'')
        invariant
            k <= t.len(),
            forall|j: int| t.len() - k <= j < t.len() ==> quote_char(#[trigger] t@[j]),
        decreases t.len() - k,
    {
        k = k + 1;
    }
    proof {
        lemma_trail_quotes(t@, k as int);
    }
    crate::text::string_of_range(t.as_slice(), 0, t.len() - k)
}

/// The extensions tried for a relative JavaScript or TypeScript import.
pub open spec fn js_exts() -> Seq<Seq<char>> {
    seq!["ts"@, "tsx"@, "js"@, "jsx"@, "mjs"@, "cjs"@]
}

/// The index files tried for an import of a directory.
pub open spec fn js_index_files() -> Seq<Seq<char>> {
    seq!["index.ts"@, "index.tsx"@, "index.js"@, "index.jsx"@]
}

/// JavaScript and TypeScript: the import with each extension, then the
/// index files below it, then the import as written.
pub open spec fn js_group(dir: Seq<char>, spec: Seq<char>) -> Group {
    let c = join_path(dir, spec);
    js_exts().map_values(|e: Seq<char>| with_ext(c, e)) + js_index_files().map_values(
        |f: Seq<char>| join_path(c, f),
    ) + seq![c]
}

/// The candidates of one relative JavaScript or TypeScript import (see
/// `js_group`).
pub fn resolve_js_ts_spec(spec: &str, dir: &str) -> (r: Vec<String>)
    ensures
        views(r@) == js_group(dir@, spec@),
{
    let c = join_paths(dir, spec);
    let mut g: Vec<String> = Vec::new();
    g.push(with_extension(c.as_str(), "ts"));
    g.push(with_extension(c.as_str(), "tsx"));
    g.push(with_extension(c.as_str(), "js"));
    g.push(with_extension(c.as_str(), "jsx"));
    g.push(with_extension(c.as_str(), "mjs"));
    g.push(with_extension(c.as_str(), "cjs"));
    g.push(join_paths(c.as_str(), "index.ts"));
    g.push(join_paths(c.as_str(), "index.tsx"));
    g.push(join_paths(c.as_str(), "index.js"));
    g.push(join_paths(c.as_str(), "index.jsx"));
    let cc = c.clone();
    g.push(cc);
    assert(views(g@) =~= js_group(dir@, spec@));
    g
}

/// Haskell: a dotted module as a path, `A.B.C` as `A/B/C.hs`.
pub open spec fn haskell_module_path(module: Seq<char>) -> Seq<char> {
    crate::text::join(split_str(module, seq!['.']), seq!['/']) + ".hs"@
}

/// The candidates of a Haskell module: the module path below each root.
pub open spec fn haskell_group(roots: Seq<Seq<char>>, module: Seq<char>) -> Group {
    roots.map_values(|r: Seq<char>| join_path(r, haskell_module_path(module)))
}

/// The candidates of one Haskell module (see `haskell_group`).
pub fn push_haskell_module(roots: &Vec<String>, module: &str) -> (r: Vec<String>)
    ensures
        views(r@) == haskell_group(views(roots@), module@),
{
    let mv = chars_of(module);
    let dot: Vec<char> = vec!['.'];
    assert(dot@ =~= seq!['.']);
    let parts = crate::text::split_pieces(mv.as_slice(), dot.as_slice());
    let mut strs: Vec<String> = Vec::new();
    let mut i: usize = 0;
    while i < parts.len()
        invariant
            i <= parts.len(),
            views(strs@) == crate::text::char_views(parts@).take(i as int),
        decreases parts.len() - i,
    {
        let ghost before = views(strs@);
        strs.push(string_of(parts[i].as_slice()));
        assert(views(strs@) =~= before.push(parts@[i as int]@));
        assert(crate::text::char_views(parts@).take(i + 1) =~= crate::text::char_views(parts@).take(
            i as int,
        ).push(parts@[i as int]@));
        i = i + 1;
    }
    assert(crate::text::char_views(parts@).take(parts.len() as int) =~= crate::text::char_views(parts@));
    let joined = crate::text::join_strings(&strs, "/");
    let rel = with_suffix(joined.as_str(), ".hs");
    proof {
        reveal_strlit("/");
        assert("/"@ =~= seq!['/']);
    }
    let mut out: Vec<String> = Vec::new();
    let mut k: usize = 0;
    while k < roots.len()
        invariant
            k <= roots.len(),
            rel@ == haskell_module_path(module@),
            views(out@) == views(roots@).take(k as int).map_values(
                |r: Seq<char>| join_path(r, haskell_module_path(module@)),
            ),
        decreases roots.len() - k,
    {
        let ghost before = views(out@);
        out.push(join_paths(roots[k].as_str(), rel.as_str()));
        assert(views(out@) =~= before.push(join_path(roots@[k as int]@, haskell_module_path(module@))));
        assert(views(roots@).take(k + 1).map_values(
            |r: Seq<char>| join_path(r, haskell_module_path(module@)),
        ) =~= views(roots@).take(k as int).map_values(
            |r: Seq<char>| join_path(r, haskell_module_path(module@)),
        ).push(join_path(roots@[k as int]@, haskell_module_path(module@))));
        k = k + 1;
    }
    assert(views(roots@).take(roots.len() as int) =~= views(roots@));
    out
}

// ---------------------------------------------------------------------------
// Choosing among the candidates
// ---------------------------------------------------------------------------

/// How a group of candidates gives a dependency.
#[derive(Debug, Clone, Copy, PartialEq, Eq, Structural)]
pub enum PickRule {
    /// The first candidate that exists (Python, JavaScript, TypeScript).
    FirstExisting,
    /// The first candidate that exists, unless it was already given (Rust).
    FirstExistingOnce,
    /// The first candidate that exists and was not given yet (Haskell).
    FirstExistingUnseen,
}

/// Whether candidate `j` of group `g` exists (an absent answer counts as
/// no).
pub open spec fn exists_flag(e: Seq<Seq<bool>>, g: int, j: int) -> bool {
    0 <= g < e.len() && 0 <= j < e[g].len() && e[g][j]
}

/// The first candidate of a group, from `j` on, that exists (and, when
/// `unseen`, was not given yet).
pub open spec fn first_pick(
    grp: Group,
    e: Seq<Seq<bool>>,
    gi: int,
    seen: Set<Seq<char>>,
    unseen: bool,
    j: int,
) -> Option<int>
    decreases grp.len() - j,
{
    if j < 0 || j >= grp.len() {
        None
    } else if exists_flag(e, gi, j) && (!unseen || !seen.contains(grp[j])) {
        Some(j)
    } else {
        first_pick(grp, e, gi, seen, unseen, j + 1)
    }
}

pub proof fn lemma_first_pick(grp: Group, e: Seq<Seq<bool>>, gi: int, seen: Set<Seq<char>>, unseen: bool, j: int)
    requires
        0 <= j,
    ensures
        first_pick(grp, e, gi, seen, unseen, j) matches Some(k) ==> j <= k < grp.len(),
    decreases grp.len() - j,
{
    if j < grp.len() {
        lemma_first_pick(grp, e, gi, seen, unseen, j + 1);
    }
}

/// The dependencies the groups give, in order, and the paths given.
pub open spec fn pick_paths(groups: Seq<Group>, e: Seq<Seq<bool>>, rule: PickRule) -> (
    Seq<Seq<char>>,
    Set<Seq<char>>,
)
    decreases groups.len(),
{
    if groups.len() == 0 {
        (seq![], Set::empty())
    } else {
        let prev = pick_paths(groups.drop_last(), e, rule);
        let gi = groups.len() - 1;
        let grp = groups.last();
        match first_pick(grp, e, gi, prev.1, rule == PickRule::FirstExistingUnseen, 0) {
            None => prev,
            Some(j) => if rule == PickRule::FirstExisting {
                (prev.0.push(grp[j]), prev.1)
            } else if prev.1.contains(grp[j]) {
                prev
            } else {
                (prev.0.push(grp[j]), prev.1.insert(grp[j]))
            },
        }
    }
}

fn flag_of(exists: &Vec<Vec<bool>>, g: usize, j: usize) -> (r: bool)
    ensures
        r == exists_flag(exists@.map_values(|v: Vec<bool>| v@), g as int, j as int),
{
    if g < exists.len() && j < exists[g].len() {
        exists[g][j]
    } else {
        false
    }
}

pub(crate) fn in_seen(seen: &Vec<String>, p: &String) -> (r: bool)
    ensures
        r == views(seen@).contains(p@),
{
    let mut k: usize = 0;
    while k < seen.len()
        invariant
            k <= seen.len(),
            forall|j: int| 0 <= j < k ==> seen@[j]@ != p@,
        decreases seen.len() - k,
    {
        if str_eq(seen[k].as_str(), p.as_str()) {
            assert(views(seen@)[k as int] == p@);
            return true;
        }
        k = k + 1;
    }
    assert forall|j: int| 0 <= j < views(seen@).len() implies views(seen@)[j] != p@ by {
        assert(views(seen@)[j] == seen@[j]@);
    }
    false
}

pub(crate) proof fn lemma_views_push_set(v: Seq<String>, s: String)
    ensures
        views(v.push(s)).to_set() == views(v).to_set().insert(s@),
{
    assert(views(v.push(s)) =~= views(v).push(s@));
    assert(views(v).push(s@).to_set() =~= views(v).to_set().insert(s@)) by {
        assert forall|x: Seq<char>| views(v).push(s@).to_set().contains(x) implies views(v).to_set().insert(
            s@,
        ).contains(x) by {
            let k = choose|k: int| 0 <= k < views(v).push(s@).len() && views(v).push(s@)[k] == x;
            if k < views(v).len() {
                assert(views(v)[k] == x);
                assert(views(v).contains(x));
            }
        }
        assert forall|x: Seq<char>| views(v).to_set().insert(s@).contains(x) implies views(v).push(
            s@,
        ).to_set().contains(x) by {
            if x == s@ {
                assert(views(v).push(s@)[views(v).len() as int] == x);
            } else {
                assert(views(v).contains(x));
                let k = choose|k: int| 0 <= k < views(v).len() && views(v)[k] == x;
                assert(views(v).push(s@)[k] == x);
            }
        }
    }
}

/// The dependencies the candidate groups give, once it is known which
/// candidates exist (see `pick_paths`).
pub fn select_dependencies(groups: &Vec<Vec<String>>, exists: &Vec<Vec<bool>>, rule: PickRule) -> (r:
    Vec<String>)
    ensures
        views(r@) == pick_paths(groups_view(groups@), exists@.map_values(|v: Vec<bool>| v@), rule).0,
{
    let ghost gv = groups_view(groups@);
    let ghost ev = exists@.map_values(|v: Vec<bool>| v@);
    let mut out: Vec<String> = Vec::new();
    let mut seen: Vec<String> = Vec::new();
    let mut g: usize = 0;
    assert(gv.take(0) =~= seq![]);
    assert(views(seen@).to_set() =~= Set::<Seq<char>>::empty());
    while g < groups.len()
        invariant
            g <= groups.len(),
            gv == groups_view(groups@),
            ev == exists@.map_values(|v: Vec<bool>| v@),
            views(out@) == pick_paths(gv.take(g as int), ev, rule).0,
            views(seen@).to_set() == pick_paths(gv.take(g as int), ev, rule).1,
        decreases groups.len() - g,
    {
        let grp = &groups[g];
        let ghost prev = pick_paths(gv.take(g as int), ev, rule);
        assert(gv.take(g + 1).drop_last() =~= gv.take(g as int));
        assert(gv.take(g + 1).last() == views(grp@));
        let unseen = rule == PickRule::FirstExistingUnseen;
        let mut j: usize = 0;
        let mut found: Option<usize> = None;
        while j < grp.len()
            invariant_except_break
                found is None,
            invariant
                j <= grp.len(),
                first_pick(views(grp@), ev, g as int, prev.1, unseen, 0) == first_pick(
                    views(grp@),
                    ev,
                    g as int,
                    prev.1,
                    unseen,
                    j as int,
                ),
                ev == exists@.map_values(|v: Vec<bool>| v@),
                views(seen@).to_set() == prev.1,
            ensures
                match found {
                    None => first_pick(views(grp@), ev, g as int, prev.1, unseen, 0) is None,
                    Some(k) => first_pick(views(grp@), ev, g as int, prev.1, unseen, 0) == Some(
                        k as int,
                    ) && k < grp.len(),
                },
            decreases grp.len() - j,
        {
            let present = flag_of(exists, g, j);
            let ok = present && (!unseen || !in_seen(&seen, &grp[j]));
            proof {
                if views(seen@).contains(grp@[j as int]@) {
                    assert(views(seen@).to_set().contains(grp@[j as int]@));
                }
                if views(seen@).to_set().contains(grp@[j as int]@) {
                    assert(views(seen@).contains(grp@[j as int]@));
                }
                assert(views(grp@)[j as int] == grp@[j as int]@);
            }
            if ok {
                found = Some(j);
                break;
            }
            j = j + 1;
        }
        match found {
            None => {},
            Some(k) => {
                let p = &grp[k];
                assert(views(grp@)[k as int] == p@);
                if rule == PickRule::FirstExisting {
                    let ghost b = views(out@);
                    out.push(p.clone());
                    assert(views(out@) =~= b.push(p@));
                } else {
                    let was = in_seen(&seen, p);
                    proof {
                        if views(seen@).contains(p@) {
                            assert(views(seen@).to_set().contains(p@));
                        }
                        if views(seen@).to_set().contains(p@) {
                            assert(views(seen@).contains(p@));
                        }
                    }
                    if !was {
                        let ghost b = views(out@);
                        let ghost sb = seen@;
                        out.push(p.clone());
                        seen.push(p.clone());
                        assert(views(out@) =~= b.push(p@));
                        proof {
                            lemma_views_push_set(sb, seen@[sb.len() as int]);
                            assert(seen@ == sb.push(seen@[sb.len() as int]));
                        }
                    }
                }
            },
        }
        g = g + 1;
    }
    assert(gv.take(groups.len() as int) =~= gv);
    out
}

// ---------------------------------------------------------------------------
// The groups of a file
// ---------------------------------------------------------------------------

/// The directory of a file, or the project root when it has none.
pub open spec fn file_dir(file: Seq<char>, root: Seq<char>) -> Seq<char> {
    match parent_dir(file) {
        Some(d) => d,
        None => root,
    }
}

/// The relative JavaScript or TypeScript imports among the import texts:
/// quotes trimmed, starting with `.`.
pub open spec fn relative_specs(texts: Seq<Seq<char>>) -> Seq<Seq<char>>
    decreases texts.len(),
{
    if texts.len() == 0 {
        seq![]
    } else {
        let sp = trim_quotes(texts.last());
        relative_specs(texts.drop_last()) + if sp.len() > 0 && sp[0] == '.' {
            seq![sp]
        } else {
            seq![]
        }
    }
}

/// The candidate groups of a parsed file's dependencies and the rule that
/// chooses among them; none for a language without them here (Go has its
/// own steps).
pub open spec fn file_groups(
    t: SyntaxTree,
    l: Language,
    source: Seq<char>,
    file: Seq<char>,
    root: Seq<char>,
    root_src_is_dir: bool,
    haskell_roots: Seq<Seq<char>>,
) -> Option<(Seq<Group>, PickRule)> {
    let texts = import_texts(t, t.len(), l);
    let dir = file_dir(file, root);
    match l {
        Language::Rust => Some(
            (
                rust_groups(
                    texts,
                    use_modules(lines(source)),
                    dir,
                    crate_src_root(file, root, root_src_is_dir),
                ),
                PickRule::FirstExistingOnce,
            ),
        ),
        Language::Python => Some(
            (texts.map_values(|m: Seq<char>| python_group(dir, m)), PickRule::FirstExisting),
        ),
        Language::JavaScript | Language::TypeScript => Some(
            (
                relative_specs(texts).map_values(|sp: Seq<char>| js_group(dir, sp)),
                PickRule::FirstExisting,
            ),
        ),
        Language::Haskell => Some(
            (
                texts.map_values(|m: Seq<char>| haskell_group(haskell_roots, m)),
                PickRule::FirstExistingUnseen,
            ),
        ),
        _ => None,
    }
}

pub(crate) fn file_dir_exec(file: &str, root: &str) -> (r: String)
    ensures
        r@ == file_dir(file@, root@),
{
    match parent_of(file) {
        Some(d) => d,
        None => {
            let mut s = String::new();
            push_str(&mut s, root);
            s
        },
    }
}

/// The candidate groups of a parsed file (see `file_groups`).
pub fn groups_from_tree(
    tree: &SyntaxTree,
    language: Language,
    source: &str,
    file_path: &str,
    project_root: &str,
    root_src_is_dir: bool,
    haskell_roots: &Vec<String>,
) -> (r: Option<(Vec<Vec<String>>, PickRule)>)
    requires
        tree.wf(),
    ensures
        match file_groups(
            *tree,
            language,
            source@,
            file_path@,
            project_root@,
            root_src_is_dir,
            views(haskell_roots@),
        ) {
            Some((g, rule)) => r matches Some((v, q)) && groups_view(v@) == g && q == rule,
            None => r is None,
        },
{
    let texts = collect_import_texts(tree, language);
    let ghost tv = views(texts@);
    let dir = file_dir_exec(file_path, project_root);
    match language {
        Language::Rust => {
            let uses = rust_use_modules(source);
            let src = rust_crate_src_root(file_path, project_root, root_src_is_dir);
            let g = rust_dependency_groups(&texts, &uses, dir.as_str(), src.as_str());
            Some((g, PickRule::FirstExistingOnce))
        },
        Language::Python => {
            let mut out: Vec<Vec<String>> = Vec::new();
            let mut i: usize = 0;
            while i < texts.len()
                invariant
                    i <= texts.len(),
                    tv == views(texts@),
                    groups_view(out@) == tv.take(i as int).map_values(
                        |m: Seq<char>| python_group(dir@, m),
                    ),
                decreases texts.len() - i,
            {
                let ghost b = groups_view(out@);
                let g = push_python_module(dir.as_str(), texts[i].as_str());
                out.push(g);
                assert(groups_view(out@) =~= b.push(python_group(dir@, tv[i as int])));
                assert(tv.take(i + 1).map_values(|m: Seq<char>| python_group(dir@, m)) =~= tv.take(
                    i as int,
                ).map_values(|m: Seq<char>| python_group(dir@, m)).push(python_group(dir@, tv[i as int])));
                i = i + 1;
            }
            assert(tv.take(texts.len() as int) =~= tv);
            Some((out, PickRule::FirstExisting))
        },
        Language::JavaScript | Language::TypeScript => {
            let mut specs: Vec<String> = Vec::new();
            let mut i: usize = 0;
            assert(views(specs@) =~= relative_specs(tv.take(0)));
            while i < texts.len()
                invariant
                    i <= texts.len(),
                    tv == views(texts@),
                    views(specs@) == relative_specs(tv.take(i as int)),
                decreases texts.len() - i,
            {
                let sp = trim_quote_chars(texts[i].as_str());
                let spv = chars_of(sp.as_str());
                assert(tv.take(i + 1).drop_last() =~= tv.take(i as int));
                assert(tv.take(i + 1).last() == tv[i as int]);
                let ghost b = views(specs@);
                if spv.len() > 0 && spv[0] == '.' {
                    specs.push(sp);
                    assert(views(specs@) =~= b.push(trim_quotes(tv[i as int])));
                } else {
                    assert(views(specs@) =~= b + seq![]);
                }
                i = i + 1;
            }
            assert(tv.take(texts.len() as int) =~= tv);
            let ghost sv = views(specs@);
            let mut out: Vec<Vec<String>> = Vec::new();
            let mut k: usize = 0;
            while k < specs.len()
                invariant
                    k <= specs.len(),
                    sv == views(specs@),
                    groups_view(out@) == sv.take(k as int).map_values(|sp: Seq<char>| js_group(dir@, sp)),
                decreases specs.len() - k,
            {
                let ghost b = groups_view(out@);
                let g = resolve_js_ts_spec(specs[k].as_str(), dir.as_str());
                out.push(g);
                assert(groups_view(out@) =~= b.push(js_group(dir@, sv[k as int])));
                assert(sv.take(k + 1).map_values(|sp: Seq<char>| js_group(dir@, sp)) =~= sv.take(
                    k as int,
                ).map_values(|sp: Seq<char>| js_group(dir@, sp)).push(js_group(dir@, sv[k as int])));
                k = k + 1;
            }
            assert(sv.take(specs.len() as int) =~= sv);
            Some((out, PickRule::FirstExisting))
        },
        Language::Haskell => {
            let mut out: Vec<Vec<String>> = Vec::new();
            let mut i: usize = 0;
            while i < texts.len()
                invariant
                    i <= texts.len(),
                    tv == views(texts@),
                    groups_view(out@) == tv.take(i as int).map_values(
                        |m: Seq<char>| haskell_group(views(haskell_roots@), m),
                    ),
                decreases texts.len() - i,
            {
                let ghost b = groups_view(out@);
                let g = push_haskell_module(haskell_roots, texts[i].as_str());
                out.push(g);
                assert(groups_view(out@) =~= b.push(haskell_group(views(haskell_roots@), tv[i as int])));
                assert(tv.take(i + 1).map_values(|m: Seq<char>| haskell_group(views(haskell_roots@), m))
                    =~= tv.take(i as int).map_values(
                    |m: Seq<char>| haskell_group(views(haskell_roots@), m),
                ).push(haskell_group(views(haskell_roots@), tv[i as int])));
                i = i + 1;
            }
            assert(tv.take(texts.len() as int) =~= tv);
            Some((out, PickRule::FirstExistingUnseen))
        },
        _ => None,
    }
}

/// The directories, from a file's directory up to the project root, where
/// a Haskell module hierarchy may start.
pub open spec fn ancestors_upto(dir: Option<Seq<char>>, root: Seq<char>) -> Seq<Seq<char>>
    decreases
            match dir {
                Some(c) => c.len() + 1,
                None => 0,
            },
{
    match dir {
        None => seq![],
        Some(c) => if c == root {
            seq![c]
        } else {
            proof {
                lemma_parent_shorter(c);
            }
            seq![c] + ancestors_upto(parent_dir(c), root)
        },
    }
}

/// Haskell source roots to look for, most specific first: the directories
/// from the file's up to the root, then `src`, `lib` and the root itself;
/// each is kept when it is a directory, once.
pub open spec fn haskell_root_candidates_of(file: Seq<char>, root: Seq<char>) -> Seq<Seq<char>> {
    ancestors_upto(Some(file_dir(file, root)), root) + seq![
        join_path(root, "src"@),
        join_path(root, "lib"@),
        root,
    ]
}

/// The Haskell source roots to look for (see `haskell_root_candidates_of`).
pub fn haskell_source_roots(file_path: &str, project_root: &str) -> (r: Vec<String>)
    ensures
        views(r@) == haskell_root_candidates_of(file_path@, project_root@),
{
    let mut out: Vec<String> = Vec::new();
    let mut cur: Option<String> = Some(file_dir_exec(file_path, project_root));
    let ghost start = Some(file_dir(file_path@, project_root@));
    assert(views(out@) =~= seq![]);
    loop
        invariant_except_break
            ancestors_upto(start, project_root@) == views(out@) + ancestors_upto(
                match cur {
                    Some(d) => Some(d@),
                    None => None,
                },
                project_root@,
            ),
        ensures
            ancestors_upto(start, project_root@) == views(out@),
        decreases
                match cur {
                    Some(d) => d@.len() + 1,
                    None => 0,
                },
    {
        match cur {
            None => {
                assert(views(out@) + seq![] =~= views(out@));
                break;
            },
            Some(c) => {
                let ghost b = views(out@);
                let at_root = str_eq(c.as_str(), project_root);
                let next = if at_root {
                    None
                } else {
                    proof {
                        lemma_parent_shorter(c@);
                    }
                    parent_of(c.as_str())
                };
                out.push(c);
                assert(views(out@) =~= b.push(out@[b.len() as int]@));
                if at_root {
                    assert(views(out@) =~= b + seq![out@[b.len() as int]@]);
                    break;
                }
                assert(b + (seq![out@[b.len() as int]@] + ancestors_upto(
                    match next {
                        Some(d) => Some(d@),
                        None => None,
                    },
                    project_root@,
                )) =~= views(out@) + ancestors_upto(
                    match next {
                        Some(d) => Some(d@),
                        None => None,
                    },
                    project_root@,
                ));
                cur = next;
            },
        }
    }
    let ghost b = views(out@);
    out.push(join_paths(project_root, "src"));
    out.push(join_paths(project_root, "lib"));
    let mut r = String::new();
    push_str(&mut r, project_root);
    out.push(r);
    assert(views(out@) =~= b + seq![
        join_path(project_root@, "src"@),
        join_path(project_root@, "lib"@),
        project_root@,
    ]);
    out
}

// ---------------------------------------------------------------------------
// Go
// ---------------------------------------------------------------------------

/// The module path that `go.mod` declares: the first line that, trimmed,
/// starts with `module ` and names something after it.
pub open spec fn go_module_of(ls: Seq<Seq<char>>) -> Option<Seq<char>>
    decreases ls.len(),
{
    if ls.len() == 0 {
        None
    } else {
        let l = trim(ls[0]);
        if starts_with(l, "module "@) && trim(l.skip(7)).len() > 0 {
            Some(trim(l.skip(7)))
        } else {
            go_module_of(ls.drop_first())
        }
    }
}

/// The module path that a `go.mod` text declares (see `go_module_of`).
pub fn read_go_module_path(content: &str) -> (r: Option<String>)
    ensures
        match r {
            Some(m) => go_module_of(lines(content@)) == Some(m@),
            None => go_module_of(lines(content@)) is None,
        },
{
    let v = chars_of(content);
    let bounds = crate::text::line_bounds(v.as_slice());
    let ghost ls = lines(v@);
    let mut i: usize = 0;
    assert(ls.skip(0) =~= ls);
    while i < bounds.len()
        invariant
            i <= bounds.len(),
            v@ == content@,
            ls == lines(v@),
            bounds@.len() == ls.len(),
            forall|k: int|
                0 <= k < bounds@.len() ==> {
                    &&& (#[trigger] bounds@[k]).0 <= bounds@[k].1 <= v@.len()
                    &&& v@.subrange(bounds@[k].0 as int, bounds@[k].1 as int) == ls[k]
                },
            go_module_of(ls) == go_module_of(ls.skip(i as int)),
        decreases bounds.len() - i,
    {
        let (a, b) = bounds[i];
        let line = crate::text::slice_range(v.as_slice(), a, b);
        let l = crate::text::trim_chars(line.as_slice());
        assert(ls.skip(i as int)[0] == ls[i as int]);
        assert(ls.skip(i as int).drop_first() =~= ls.skip(i + 1));
        proof {
            reveal_strlit("module ");
        }
        if crate::text::starts_with_lit(l.as_slice(), "module ") {
            let rest = crate::text::slice_range(l.as_slice(), 7, l.len());
            assert(rest@ =~= l@.skip(7));
            let m = crate::text::trim_chars(rest.as_slice());
            if m.len() > 0 {
                return Some(string_of(m.as_slice()));
            }
        }
        i = i + 1;
    }
    assert(ls.skip(bounds.len() as int) =~= seq![]);
    None
}

/// The directory an import path stands for before it is known to exist: a
/// relative import below the file's directory; an import of the module
/// (or of a package in it) below the project root; none otherwise.
pub open spec fn go_import_dir(
    import: Seq<char>,
    dir: Seq<char>,
    root: Seq<char>,
    module: Option<Seq<char>>,
) -> Option<Seq<char>> {
    if import.len() > 0 && import[0] == '.' {
        Some(join_path(dir, import))
    } else {
        match module {
            None => None,
            Some(m) => if import == m {
                Some(join_path(root, seq![]))
            } else if starts_with(import, m + seq!['/']) {
                Some(join_path(root, import.skip(m.len() as int + 1)))
            } else {
                None
            },
        }
    }
}

/// The directory an import path stands for (see `go_import_dir`); the
/// caller keeps it when it is a directory inside the project.
pub fn resolve_go_import(import_path: &str, dir: &str, project_root: &str, go_module: Option<&str>) -> (r:
    Option<String>)
    ensures
        match r {
            Some(d) => go_import_dir(
                import_path@,
                dir@,
                project_root@,
                match go_module {
                    Some(m) => Some(m@),
                    None => None,
                },
            ) == Some(d@),
            None => go_import_dir(
                import_path@,
                dir@,
                project_root@,
                match go_module {
                    Some(m) => Some(m@),
                    None => None,
                },
            ) is None,
        },
{
    let iv = chars_of(import_path);
    if iv.len() > 0 && iv[0] == '.' {
        return Some(join_paths(dir, import_path));
    }
    let m = match go_module {
        Some(m) => m,
        None => return None,
    };
    if str_eq(import_path, m) {
        let r = join_paths(project_root, "");
        proof {
            reveal_strlit("");
            assert(""@ =~= Seq::<char>::empty());
        }
        return Some(r);
    }
    let mut prefix = String::new();
    push_str(&mut prefix, m);
    crate::text::push_char(&mut prefix, '/');
    let pv = chars_of(prefix.as_str());
    assert(pv@ =~= m@ + seq!['/']);
    if crate::text::starts_with_chars(iv.as_slice(), pv.as_slice()) {
        let rest = crate::text::string_of_range(iv.as_slice(), pv.len(), iv.len());
        assert(rest@ =~= iv@.skip(m@.len() as int + 1));
        Some(join_paths(project_root, rest.as_str()))
    } else {
        None
    }
}

/// The import paths of a parsed Go file, quotes trimmed
/// (`trim_matches('"')`), in order.
pub fn go_import_paths(tree: &SyntaxTree) -> (r: Vec<String>)
    requires
        tree.wf(),
    ensures
        views(r@) == import_texts(*tree, tree.len(), Language::Go).map_values(
            |x: Seq<char>| crate::text::trim_char(x, '"'),
        ),
{
    let texts = collect_import_texts(tree, Language::Go);
    let ghost tv = views(texts@);
    let mut out: Vec<String> = Vec::new();
    let mut i: usize = 0;
    while i < texts.len()
        invariant
            i <= texts.len(),
            tv == views(texts@),
            views(out@) == tv.take(i as int).map_values(|x: Seq<char>| crate::text::trim_char(x, '"')),
        decreases texts.len() - i,
    {
        let v = chars_of(texts[i].as_str());
        let t = crate::text::trim_char_exec(v.as_slice(), '"');
        let ghost b = views(out@);
        out.push(string_of(t.as_slice()));
        assert(views(out@) =~= b.push(crate::text::trim_char(tv[i as int], '"')));
        assert(tv.take(i + 1).map_values(|x: Seq<char>| crate::text::trim_char(x, '"')) =~= tv.take(
            i as int,
        ).map_values(|x: Seq<char>| crate::text::trim_char(x, '"')).push(
            crate::text::trim_char(tv[i as int], '"'),
        ));
        i = i + 1;
    }
    assert(tv.take(texts.len() as int) =~= tv);
    out
}

/// A Go source file that is not a test: its extension is `go` and its
/// name does not end with `_test.go`.
pub open spec fn go_source_file(p: Seq<char>) -> bool {
    &&& crate::paths::path_extension(p) == Some("go"@)
    &&& !(file_name(p) matches Some(n) && crate::text::ends_with(n, "_test.go"@))
}

pub open spec fn after_text(d: Seq<char>) -> spec_fn(Seq<char>) -> bool {
    |e: Seq<char>| crate::text::text_order(d, e) < 0
}

/// `d` put before the first text that comes after it.
pub open spec fn insert_text(s: Seq<Seq<char>>, d: Seq<char>) -> Seq<Seq<char>> {
    match crate::analysis::call_graph::first_where(s, after_text(d)) {
        None => s.push(d),
        Some(i) => s.insert(i, d),
    }
}

/// The Go source files among `listing`, sorted.
pub open spec fn sorted_go_files(listing: Seq<Seq<char>>) -> Seq<Seq<char>>
    decreases listing.len(),
{
    if listing.len() == 0 {
        seq![]
    } else {
        let prev = sorted_go_files(listing.drop_last());
        if go_source_file(listing.last()) {
            insert_text(prev, listing.last())
        } else {
            prev
        }
    }
}

fn is_go_source(p: &str) -> (r: bool)
    ensures
        r == go_source_file(p@),
{
    let v = chars_of(p);
    let ext_go = match crate::paths::extension_bounds(v.as_slice()) {
        Some((a, b)) => {
            let e = crate::text::slice_range(v.as_slice(), a, b);
            crate::text::eq_lit(e.as_slice(), "go")
        },
        None => false,
    };
    let test = match crate::paths::file_name_bounds(v.as_slice()) {
        Some((a, b)) => {
            let n = crate::text::slice_range(v.as_slice(), a, b);
            assert(n@ =~= v@.subrange(a as int, b as int));
            crate::text::ends_with_lit(n.as_slice(), "_test.go")
        },
        None => false,
    };
    ext_go && !test
}

/// The Go source files of a package directory listing, sorted (see
/// `sorted_go_files`).
pub fn go_package_files(listing: &Vec<String>) -> (r: Vec<String>)
    ensures
        views(r@) == sorted_go_files(views(listing@)),
{
    let ghost lv = views(listing@);
    let mut files: Vec<String> = Vec::new();
    let mut i: usize = 0;
    assert(views(files@) =~= sorted_go_files(lv.take(0)));
    while i < listing.len()
        invariant
            i <= listing.len(),
            lv == views(listing@),
            views(files@) == sorted_go_files(lv.take(i as int)),
        decreases listing.len() - i,
    {
        assert(lv.take(i + 1).drop_last() =~= lv.take(i as int));
        assert(lv.take(i + 1).last() == listing@[i as int]@);
        if is_go_source(listing[i].as_str()) {
            let d = listing[i].clone();
            let ghost s = views(files@);
            let mut j: usize = 0;
            while j < files.len() && !(crate::text::compare_strs(d.as_str(), files[j].as_str()) < 0)
                invariant
                    j <= files.len(),
                    s == views(files@),
                    forall|k: int| 0 <= k < j ==> !after_text(d@)(#[trigger] s[k]),
                decreases files.len() - j,
            {
                assert(!after_text(d@)(s[j as int]));
                j = j + 1;
            }
            proof {
                let p = after_text(d@);
                crate::analysis::call_graph::lemma_first_where(s, p);
                if j < files.len() {
                    assert(p(s[j as int]));
                    match crate::analysis::call_graph::first_where(s, p) {
                        Some(m) => {
                            if m < j {
                                assert(!p(s[m]));
                            } else if m > j {
                                assert(!p(s[j as int]));
                            }
                        },
                        None => {
                            assert(!p(s[j as int]));
                        },
                    }
                } else {
                    if let Some(m) = crate::analysis::call_graph::first_where(s, p) {
                        assert(!p(s[m]));
                    }
                }
            }
            let ghost dv = d@;
            if j == files.len() {
                files.push(d);
                assert(views(files@) =~= s.push(dv));
            } else {
                files.insert(j, d);
                assert(views(files@) =~= s.insert(j as int, dv));
            }
        }
        i = i + 1;
    }
    assert(lv.take(listing.len() as int) =~= lv);
    files
}

} // verus!
