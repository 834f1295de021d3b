//! Comments around declarations: leading comment blocks, doc-comment text
//! and Haskell comment markers.
use vstd::prelude::*;
use crate::parser::Language;
use crate::text::{
    chars_of, contains, contains_lit, ends_with, ends_with_lit, join, line_bounds, lines,
    push_chars, push_str, skip_ws, slice_range, starts_with, starts_with_lit, string_of,
    trim, trim_bounds, trim_chars, trim_start,
};

verus! {

/// How comments are treated in returned code.
#[derive(Debug, Clone, Copy, PartialEq, Eq, Structural)]
pub enum CommentMode {
    /// Code is returned as it stands.
    Plain,
    /// The contiguous comment block above the code is prepended.
    Leading,
}

impl CommentMode {
    /// `Some("leading")` selects `Leading`; anything else selects `None`.
    pub fn from_option(value: Option<&str>) -> (r: CommentMode)
        ensures
            r == (if value matches Some(v) && v@ == "leading"@ {
                CommentMode::Leading
            } else {
                CommentMode::Plain
            }),
    {
        match value {
            Some(v) => {
                let c = chars_of(v);
                if crate::text::eq_lit(c.as_slice(), "leading") {
                    CommentMode::Leading
                } else {
                    CommentMode::Plain
                }
            },
            None => CommentMode::Plain,
        }
    }

    /// Whether leading comments are included.
    pub fn includes_leading(self) -> (r: bool)
        ensures
            r == (self == CommentMode::Leading),
    {
        match self {
            CommentMode::Leading => true,
            CommentMode::Plain => false,
        }
    }
}

/// Languages whose line comments start with `//`.
pub open spec fn slash_comment_language(l: Language) -> bool {
    match l {
        Language::Rust | Language::JavaScript | Language::TypeScript | Language::Swift
        | Language::CSharp | Language::Java | Language::Go => true,
        _ => false,
    }
}

/// A trimmed line is a line comment of `l`.
pub open spec fn line_comment(t: Seq<char>, l: Language) -> bool {
    if l == Language::Python {
        starts_with(t, "#"@)
    } else if slash_comment_language(l) {
        starts_with(t, "//"@)
    } else {
        false
    }
}

/// Whether a trimmed line is a line comment of the language.
pub fn is_line_comment_text(trimmed: &[char], language: Language) -> (r: bool)
    ensures
        r == line_comment(trimmed@, language),
{
    match language {
        Language::Python => starts_with_lit(trimmed, "#"),
        Language::Rust | Language::JavaScript | Language::TypeScript | Language::Swift
        | Language::CSharp | Language::Java | Language::Go => starts_with_lit(trimmed, "//"),
        _ => false,
    }
}

/// Whether the language has `/* ... */` block comments.
pub fn supports_block_comments(language: Language) -> (r: bool)
    ensures
        r == slash_comment_language(language),
{
    match language {
        Language::Rust | Language::JavaScript | Language::TypeScript | Language::Swift
        | Language::CSharp | Language::Java | Language::Go => true,
        _ => false,
    }
}

/// Scanning upwards from line `i`: the first line of the comment block that
/// ends at line `i`. `in_block` holds while inside a `/* ... */` block whose
/// `*/` line was already taken; there every line is taken up to and including
/// the one that contains `/*`.
pub open spec fn block_start(ls: Seq<Seq<char>>, i: int, l: Language, in_block: bool) -> int
    decreases i + 1,
{
    if i < 0 || i >= ls.len() {
        i + 1
    } else if in_block {
        if contains(ls[i], "/*"@) {
            block_start(ls, i - 1, l, false)
        } else {
            block_start(ls, i - 1, l, true)
        }
    } else {
        let t = trim(ls[i]);
        if t.len() == 0 {
            i + 1
        } else if line_comment(t, l) {
            block_start(ls, i - 1, l, false)
        } else if slash_comment_language(l) && ends_with(t, "*/"@) {
            block_start(ls, i - 1, l, true)
        } else {
            i + 1
        }
    }
}

pub proof fn lemma_block_start(ls: Seq<Seq<char>>, i: int, l: Language, in_block: bool)
    requires
        i < ls.len(),
    ensures
        0 <= block_start(ls, i, l, in_block) <= i + 1 || (i < 0 && block_start(ls, i, l, in_block) == i + 1),
    decreases i + 1,
{
    if i >= 0 {
        lemma_block_start(ls, i - 1, l, false);
        lemma_block_start(ls, i - 1, l, true);
    }
}

/// The comment block directly above the (1-based) line `start_line` of
/// `source`: the contiguous line comments and block comments that end on the
/// line before it, in source order, joined by newlines.
pub open spec fn leading_comment_block(source: Seq<char>, start_line: int, l: Language) -> Option<
    Seq<char>,
> {
    let ls = lines(source);
    let idx = start_line - 2;
    if start_line < 2 || idx >= ls.len() {
        None
    } else if trim(ls[idx]).len() == 0 {
        None
    } else {
        let k = block_start(ls, idx, l, false);
        if k > idx {
            None
        } else {
            Some(join(ls.subrange(k, idx + 1), "\n"@))
        }
    }
}

/// The comment block above line `start_line` (1-based), if any.
pub fn extract_leading_comment_block(source: &str, start_line: usize, language: Language) -> (r:
    Option<String>)
    ensures
        match r {
            Some(s) => leading_comment_block(source@, start_line as int, language) == Some(s@),
            None => leading_comment_block(source@, start_line as int, language) is None,
        },
{
    let v = chars_of(source);
    let lb = line_bounds(v.as_slice());
    let ghost ls = lines(v@);
    if start_line < 2 || start_line - 2 >= lb.len() {
        return None;
    }
    let idx0 = start_line - 2;
    let (a0, b0) = lb[idx0];
    let (ta, tb) = trim_bounds(v.as_slice(), a0, b0);
    assert(v@.subrange(a0 as int, b0 as int) == ls[idx0 as int]);
    if ta == tb {
        return None;
    }
    // Scan upwards; `k` is one past the next line to look at.

    let mut k: usize = idx0 + 1;
    let mut in_block = false;
    let mut done = false;
    proof {
        lemma_block_start(ls, idx0 as int, language, false);
    }
    while k > 0 && !done
        invariant
            ls == lines(v@),
            lb@.len() == ls.len(),
            forall|j: int|
                0 <= j < lb@.len() ==> {
                    &&& (#[trigger] lb@[j]).0 <= lb@[j].1 <= v@.len()
                    &&& v@.subrange(lb@[j].0 as int, lb@[j].1 as int) == ls[j]
                },
            idx0 < ls.len(),
            0 <= k <= idx0 + 1,
            !done ==> block_start(ls, idx0 as int, language, false) == block_start(
                ls,
                k - 1,
                language,
                in_block,
            ),
            done ==> block_start(ls, idx0 as int, language, false) == k,
        decreases k + (if done { 0int } else { 1int }),
    {
        let i = k - 1;
        let (a, b) = lb[i];
        let ghost line = ls[i as int];
        assert(v@.subrange(a as int, b as int) == line);
        if in_block {
            let line_v = slice_range(v.as_slice(), a, b);
            if contains_lit(line_v.as_slice(), "/*") {
                in_block = false;
            }
            k = i;
        } else {
            let t = trim_chars(slice_range(v.as_slice(), a, b).as_slice());
            if t.len() == 0 {
                done = true;
            } else if is_line_comment_text(t.as_slice(), language) {
                k = i;
            } else if supports_block_comments(language) && ends_with_lit(t.as_slice(), "*/") {
                in_block = true;
                k = i;
            } else {
                done = true;
            }
        }
    }
    let start = k;
    if start > idx0 {
        return None;
    }
    // Join lines start..=idx0 with newlines.
    let mut out = String::new();
    let mut j = start;
    while j <= idx0
        invariant
            ls == lines(v@),
            lb@.len() == ls.len(),
            forall|q: int|
                0 <= q < lb@.len() ==> {
                    &&& (#[trigger] lb@[q]).0 <= lb@[q].1 <= v@.len()
                    &&& v@.subrange(lb@[q].0 as int, lb@[q].1 as int) == ls[q]
                },
            start <= j <= idx0 + 1,
            idx0 < ls.len(),
            idx0 < lb.len(),
            j > start ==> out@ == join(ls.subrange(start as int, j as int), "\n"@),
            j == start ==> out@.len() == 0,
        decreases idx0 + 1 - j,
    {
        let (a, b) = lb[j];
        if j > start {
            push_str(&mut out, "\n");
        }
        let piece = slice_range(v.as_slice(), a, b);
        push_chars(&mut out, piece.as_slice());
        proof {
            let p = ls.subrange(start as int, j + 1);
            assert(p.drop_last() =~= ls.subrange(start as int, j as int));
            assert(p.last() == ls[j as int]);
            if j == start {
                assert(out@ =~= p[0]);
            }
        }
        j = j + 1;
    }
    Some(out)
}

/// `code`, with the leading comment block above `start_line` prepended (and a
/// newline between them) when `mode` asks for it. Nothing when there is no
/// code, or when leading comments are asked for and there are none.
pub fn prepend_leading_comments_to_code(
    source: &str,
    start_line: usize,
    language: Language,
    code: Option<String>,
    mode: CommentMode,
) -> (r: Option<String>)
    ensures
        match code {
            None => r is None,
            Some(c) => if mode == CommentMode::Plain {
                r == Some(c)
            } else {
                match leading_comment_block(source@, start_line as int, language) {
                    None => r is None,
                    Some(b) => r matches Some(s) && s@ == b + "\n"@ + c@,
                }
            },
        },
{
    let code = match code {
        Some(c) => c,
        None => return None,
    };
    if !mode.includes_leading() {
        return Some(code);
    }
    let comments = match extract_leading_comment_block(source, start_line, language) {
        Some(c) => c,
        None => return None,
    };
    let mut s = comments;
    push_str(&mut s, "\n");
    push_str(&mut s, code.as_str());
    Some(s)
}

} // verus!

verus! {

/// Doc text of one comment: the comment without its marker, trimmed; empty
/// when the comment is not a doc comment of the language.
pub open spec fn doc_from_comment(text: Seq<char>, l: Language) -> Seq<char> {
    let t = trim(text);
    match l {
        Language::Rust | Language::Swift | Language::CSharp => if starts_with(t, "///"@) {
            trim(t.skip(3))
        } else if starts_with(t, "//!"@) {
            trim(t.skip(3))
        } else {
            seq![]
        },
        Language::Python => if starts_with(t, "#"@) {
            trim(t.skip(1))
        } else {
            seq![]
        },
        Language::JavaScript | Language::TypeScript | Language::Java | Language::Go => if starts_with(
            t,
            "/**"@,
        ) && ends_with(t, "*/"@) {
            let rest = t.skip(3);
            if ends_with(rest, "*/"@) {
                trim(rest.take(rest.len() - 2))
            } else {
                seq![]
            }
        } else if starts_with(t, "//"@) {
            trim(t.skip(2))
        } else {
            seq![]
        },
        _ => seq![],
    }
}

/// `trim(v[from..])` as a new vector.
fn trim_from(v: &[char], from: usize) -> (r: Vec<char>)
    requires
        from <= v.len(),
    ensures
        r@ == trim(v@.skip(from as int)),
{
    let (a, b) = trim_bounds(v, from, v.len());
    assert(v@.subrange(from as int, v.len() as int) == v@.skip(from as int));
    slice_range(v, a, b)
}

/// Documentation text of a comment (see `doc_from_comment`).
pub fn extract_doc_from_comment(comment_text: &str, language: Language) -> (r: String)
    ensures
        r@ == doc_from_comment(comment_text@, language),
{
    let t = trim_chars(chars_of(comment_text).as_slice());
    match language {
        Language::Rust | Language::Swift | Language::CSharp => {
            if starts_with_lit(t.as_slice(), "///") {
                proof { reveal_strlit("///"); }
                string_of(trim_from(t.as_slice(), 3).as_slice())
            } else if starts_with_lit(t.as_slice(), "//!") {
                proof { reveal_strlit("//!"); }
                string_of(trim_from(t.as_slice(), 3).as_slice())
            } else {
                String::new()
            }
        },
        Language::Python => {
            if starts_with_lit(t.as_slice(), "#") {
                proof { reveal_strlit("#"); }
                string_of(trim_from(t.as_slice(), 1).as_slice())
            } else {
                String::new()
            }
        },
        Language::JavaScript | Language::TypeScript | Language::Java | Language::Go => {
            if starts_with_lit(t.as_slice(), "/**") && ends_with_lit(t.as_slice(), "*/") {
                proof { reveal_strlit("/**"); }
                proof { reveal_strlit("*/"); }
                let rest = slice_range(t.as_slice(), 3, t.len());
                assert(rest@ =~= t@.skip(3));
                if ends_with_lit(rest.as_slice(), "*/") {
                    let inner = slice_range(rest.as_slice(), 0, rest.len() - 2);
                    assert(inner@ =~= rest@.take(rest@.len() - 2));
                    let (a, b) = trim_bounds(inner.as_slice(), 0, inner.len());
                    assert(inner@.subrange(0, inner@.len() as int) == inner@);
                    string_of(slice_range(inner.as_slice(), a, b).as_slice())
                } else {
                    String::new()
                }
            } else if starts_with_lit(t.as_slice(), "//") {
                proof { reveal_strlit("//"); }
                string_of(trim_from(t.as_slice(), 2).as_slice())
            } else {
                String::new()
            }
        },
        _ => String::new(),
    }
}

/// A Haskell comment without its markers (`{- -}`, `--`, and a Haddock `|` or `^`).
pub open spec fn strip_haskell_markers(text: Seq<char>) -> Seq<char> {
    let t = trim(text);
    let t = if starts_with(t, "{-"@) {
        let s = t.skip(2);
        if ends_with(s, "-}"@) {
            trim(s.take(s.len() - 2))
        } else {
            trim(s)
        }
    } else {
        trim(t)
    };
    let t = if starts_with(t, "--"@) {
        trim_start(t.skip(2))
    } else {
        trim_start(t)
    };
    let t = if starts_with(t, "|"@) || starts_with(t, "^"@) {
        t.skip(1)
    } else {
        t
    };
    trim(t)
}

/// Strip Haskell/Haddock comment markers.
pub fn strip_haskell_comment_markers(text: &str) -> (r: String)
    ensures
        r@ == strip_haskell_markers(text@),
{
    proof { reveal_strlit("{-"); }
    proof { reveal_strlit("-}"); }
    proof { reveal_strlit("--"); }
    proof { reveal_strlit("|"); }
    proof { reveal_strlit("^"); }
    let t0 = trim_chars(chars_of(text).as_slice());
    let t1 = if starts_with_lit(t0.as_slice(), "{-") {
        let s = slice_range(t0.as_slice(), 2, t0.len());
        assert(s@ =~= t0@.skip(2));
        if ends_with_lit(s.as_slice(), "-}") {
            let inner = slice_range(s.as_slice(), 0, s.len() - 2);
            assert(inner@ =~= s@.take(s@.len() - 2));
            trim_chars(inner.as_slice())
        } else {
            trim_chars(s.as_slice())
        }
    } else {
        trim_chars(t0.as_slice())
    };
    let t2 = if starts_with_lit(t1.as_slice(), "--") {
        let k = skip_ws(t1.as_slice(), 2, t1.len());
        let r = slice_range(t1.as_slice(), k, t1.len());
        assert(t1@.subrange(2, t1@.len() as int) == t1@.skip(2));
        assert(r@ =~= trim_start(t1@.skip(2)));
        r
    } else {
        let k = skip_ws(t1.as_slice(), 0, t1.len());
        let r = slice_range(t1.as_slice(), k, t1.len());
        assert(t1@.subrange(0, t1@.len() as int) == t1@);
        assert(r@ =~= trim_start(t1@));
        r
    };
    let t3 = if starts_with_lit(t2.as_slice(), "|") || starts_with_lit(t2.as_slice(), "^") {
        let r = slice_range(t2.as_slice(), 1, t2.len());
        assert(r@ =~= t2@.skip(1));
        r
    } else {
        t2
    };
    string_of(trim_chars(t3.as_slice()).as_slice())
}

} // verus!
