//! Supported languages, their detection from a path, and parsing into
//! syntax trees.
use vstd::prelude::*;
use crate::text::{ascii_lower, ascii_lower_chars, chars_eq, chars_of, push_str, slice_range, string_of};
use crate::paths::{extension_bounds, path_extension};
use crate::syntax::{SyntaxNode, SyntaxTree};

pub mod ts;
pub mod detection_laws;

use self::ts::{
    grammar_c_sharp, grammar_css, grammar_go, grammar_haskell, grammar_html, grammar_java,
    grammar_javascript, grammar_python, grammar_rust, grammar_swift, grammar_typescript, parse_raw,
    raw_views, ts_parse, RawNode, RawView,
};

verus! {


/// Supported programming languages for tree-sitter parsing.
#[derive(Debug, Clone, Copy, PartialEq, Eq, Hash, Structural)]
pub enum Language {
    /// Rust (.rs)
    Rust,
    /// Python (.py)
    Python,
    /// JavaScript (.js, .mjs, .cjs)
    JavaScript,
    /// TypeScript (.ts, .tsx)
    TypeScript,
    /// HTML (.html, .htm)
    Html,
    /// CSS (.css)
    Css,
    /// Swift (.swift)
    Swift,
    /// C# (.cs)
    CSharp,
    /// Java (.java)
    Java,
    /// Go (.go)
    Go,
    /// Haskell (.hs)
    Haskell,
}

/// Human-readable name of a language.
pub open spec fn language_name(l: Language) -> Seq<char> {
    match l {
        Language::Rust => "Rust"@,
        Language::Python => "Python"@,
        Language::JavaScript => "JavaScript"@,
        Language::TypeScript => "TypeScript"@,
        Language::Html => "HTML"@,
        Language::Css => "CSS"@,
        Language::Swift => "Swift"@,
        Language::CSharp => "C#"@,
        Language::Java => "Java"@,
        Language::Go => "Go"@,
        Language::Haskell => "Haskell"@,
    }
}

impl Language {
    /// Human-readable name of the language.
    pub fn name(&self) -> (r: &'static str)
        ensures
            r@ == language_name(*self),
    {
        match self {
            Language::Rust => "Rust",
            Language::Python => "Python",
            Language::JavaScript => "JavaScript",
            Language::TypeScript => "TypeScript",
            Language::Html => "HTML",
            Language::Css => "CSS",
            Language::Swift => "Swift",
            Language::CSharp => "C#",
            Language::Java => "Java",
            Language::Go => "Go",
            Language::Haskell => "Haskell",
        }
    }
}

/// The language that a lower-case extension denotes, as `detect_language` maps it.
pub open spec fn language_for_extension(ext: Seq<char>) -> Option<Language> {
    if ext == "rs"@ {
        Some(Language::Rust)
    } else if ext == "py"@ {
        Some(Language::Python)
    } else if ext == "js"@ || ext == "mjs"@ || ext == "cjs"@ {
        Some(Language::JavaScript)
    } else if ext == "ts"@ || ext == "tsx"@ {
        Some(Language::TypeScript)
    } else if ext == "html"@ || ext == "htm"@ {
        Some(Language::Html)
    } else if ext == "css"@ {
        Some(Language::Css)
    } else if ext == "swift"@ {
        Some(Language::Swift)
    } else if ext == "cs"@ {
        Some(Language::CSharp)
    } else if ext == "java"@ {
        Some(Language::Java)
    } else if ext == "go"@ {
        Some(Language::Go)
    } else if ext == "hs"@ {
        Some(Language::Haskell)
    } else {
        None
    }
}

/// Why no language could be detected for a path.
#[derive(Debug, Clone, PartialEq, Eq)]
pub enum LanguageError {
    /// The path has no file extension (the path is carried).
    NoExtension(String),
    /// The extension (lower-cased) is not one of the supported ones.
    UnsupportedExtension(String),
}

impl LanguageError {
    /// The error message.
    pub fn message(&self) -> (r: String)
        ensures
            match self {
                LanguageError::NoExtension(p) => r@ == "No file extension found in path: "@ + p@,
                LanguageError::UnsupportedExtension(e) => r@ == "Unsupported file extension: ."@
                    + e@,
            },
    {
        match self {
            LanguageError::NoExtension(p) => {
                let mut s = String::new();
                push_str(&mut s, "No file extension found in path: ");
                push_str(&mut s, p.as_str());
                s
            },
            LanguageError::UnsupportedExtension(e) => {
                let mut s = String::new();
                push_str(&mut s, "Unsupported file extension: .");
                push_str(&mut s, e.as_str());
                s
            },
        }
    }
}

/// Whether `ext` equals the literal `lit`.
fn ext_is(ext: &[char], lit: &str) -> (r: bool)
    ensures
        r == (ext@ == lit@),
{
    let l = chars_of(lit);
    chars_eq(ext, l.as_slice())
}

/// Language of a lower-case extension.
pub fn language_for_ext(ext: &[char]) -> (r: Option<Language>)
    ensures
        r == language_for_extension(ext@),
{
    if ext_is(ext, "rs") {
        Some(Language::Rust)
    } else if ext_is(ext, "py") {
        Some(Language::Python)
    } else if ext_is(ext, "js") || ext_is(ext, "mjs") || ext_is(ext, "cjs") {
        Some(Language::JavaScript)
    } else if ext_is(ext, "ts") || ext_is(ext, "tsx") {
        Some(Language::TypeScript)
    } else if ext_is(ext, "html") || ext_is(ext, "htm") {
        Some(Language::Html)
    } else if ext_is(ext, "css") {
        Some(Language::Css)
    } else if ext_is(ext, "swift") {
        Some(Language::Swift)
    } else if ext_is(ext, "cs") {
        Some(Language::CSharp)
    } else if ext_is(ext, "java") {
        Some(Language::Java)
    } else if ext_is(ext, "go") {
        Some(Language::Go)
    } else if ext_is(ext, "hs") {
        Some(Language::Haskell)
    } else {
        None
    }
}

/// `str::to_lowercase` of a text: its Unicode lower case.
pub uninterp spec fn unicode_lower(s: Seq<char>) -> Seq<char>;

/// `str::to_lowercase` (see `unicode_lower`). Letters `A` to `Z` have `a`
/// to `z` as their Unicode lower case and the other ASCII characters are
/// their own, so on ASCII text it is the ASCII lower case.
#[verifier::external_body]
fn to_lowercase_text(s: &str) -> (r: String)
    ensures
        r@ == unicode_lower(s@),
        (forall|i: int| 0 <= i < s@.len() ==> (s@[i] as u32) < 128) ==> r@ == ascii_lower(s@),
{
    s.to_lowercase()
}

/// Detect the programming language from the extension of a path
/// (case-insensitive); a path without an extension, or with one that is not
/// supported, is an error, which gives the extension in lower case.
pub fn detect_language(path: &str) -> (r: Result<Language, LanguageError>)
    ensures
        match path_extension(path@) {
            None => r matches Err(LanguageError::NoExtension(p)) && p@ == path@,
            Some(ext) => match language_for_extension(ascii_lower(ext)) {
                Some(l) => r == Ok::<Language, LanguageError>(l),
                None => r matches Err(LanguageError::UnsupportedExtension(e)) && e@ == unicode_lower(ext),
            },
        },
{
    let v = chars_of(path);
    match extension_bounds(v.as_slice()) {
        None => {
            let p = string_of(v.as_slice());
            Err(LanguageError::NoExtension(p))
        },
        Some((a, b)) => {
            let e = slice_range(v.as_slice(), a, b);
            let low = ascii_lower_chars(e.as_slice());
            match language_for_ext(low.as_slice()) {
                Some(l) => Ok(l),
                None => Err(LanguageError::UnsupportedExtension(to_lowercase_text(string_of(e.as_slice()).as_str()))),
            }
        },
    }
}



impl Language {
    /// The tree-sitter grammar of this language.
    pub fn tree_sitter_language(&self) -> tree_sitter_language::LanguageFn {
        match self {
            Language::Rust => grammar_rust(),
            Language::Python => grammar_python(),
            Language::JavaScript => grammar_javascript(),
            Language::TypeScript => grammar_typescript(),
            Language::Html => grammar_html(),
            Language::Css => grammar_css(),
            Language::Swift => grammar_swift(),
            Language::CSharp => grammar_c_sharp(),
            Language::Java => grammar_java(),
            Language::Go => grammar_go(),
            Language::Haskell => grammar_haskell(),
        }
    }
}

/// Why source code could not be turned into a syntax tree.
#[derive(Debug, Clone, Copy, PartialEq, Eq, Structural)]
pub enum ParseError {
    /// The parser refused the grammar or returned no tree.
    NoTree,
    /// The tree did not fit the source (a position outside it, a broken
    /// nesting); this does not happen with a tree-sitter tree of that source.
    Malformed,
}

/// UTF-8 width of a character.
pub open spec fn utf8_width(c: char) -> int {
    let u = c as u32;
    if u < 0x80 {
        1
    } else if u < 0x800 {
        2
    } else if u < 0x10000 {
        3
    } else {
        4
    }
}

pub(crate) fn utf8_width_exec(c: char) -> (r: usize)
    ensures
        r == utf8_width(c),
        1 <= r <= 4,
{
    let u = c as u32;
    if u < 0x80 {
        1
    } else if u < 0x800 {
        2
    } else if u < 0x10000 {
        3
    } else {
        4
    }
}

/// Length of `s` in UTF-8 bytes.
pub open spec fn utf8_len(s: Seq<char>) -> int
    decreases s.len(),
{
    if s.len() == 0 {
        0
    } else {
        utf8_len(s.drop_last()) + utf8_width(s.last())
    }
}

pub proof fn lemma_utf8_len_nonneg(s: Seq<char>)
    ensures
        utf8_len(s) >= 0,
    decreases s.len(),
{
    if s.len() > 0 {
        lemma_utf8_len_nonneg(s.drop_last());
    }
}

/// Index of the character of `s` that starts at or contains UTF-8 byte
/// offset `b`; `s.len()` from the end on.
pub open spec fn char_at_byte(s: Seq<char>, b: int) -> int
    decreases s.len(),
{
    if s.len() == 0 {
        0
    } else if b < utf8_len(s.drop_last()) {
        char_at_byte(s.drop_last(), b)
    } else if b < utf8_len(s) {
        s.len() - 1
    } else {
        s.len() as int
    }
}

/// For each UTF-8 byte offset of `chars` (and the end), the index of the
/// character that starts at or contains it (see `char_at_byte`).
pub fn byte_to_char_map(chars: &[char]) -> (r: Vec<usize>)
    requires
        chars.len() < usize::MAX,
    ensures
        r@.len() == utf8_len(chars@) + 1,
        r@.len() >= 1,
        forall|b: int| 0 <= b < r@.len() ==> (#[trigger] r@[b]) == char_at_byte(chars@, b),
        forall|b: int| 0 <= b < r@.len() ==> (#[trigger] r@[b]) <= chars.len(),
{
    let mut map: Vec<usize> = Vec::new();
    let mut k: usize = 0;
    while k < chars.len()
        invariant
            k <= chars.len() < usize::MAX,
            map@.len() == utf8_len(chars@.take(k as int)),
            forall|b: int|
                0 <= b < map@.len() ==> (#[trigger] map@[b]) == char_at_byte(
                    chars@.take(k as int),
                    b,
                ),
            forall|b: int| 0 <= b < map@.len() ==> (#[trigger] map@[b]) < k,
        decreases chars.len() - k,
    {
        let ghost pre = chars@.take(k as int);
        let ghost next = chars@.take(k + 1);
        assert(next.drop_last() =~= pre);
        assert(next.last() == chars@[k as int]);
        let w = utf8_width_exec(chars[k]);
        let ghost base = map@.len();
        let mut j: usize = 0;
        while j < w
            invariant
                j <= w <= 4,
                w == utf8_width(chars@[k as int]),
                k < chars.len(),
                next.drop_last() == pre,
                next.last() == chars@[k as int],
                pre == chars@.take(k as int),
                next == chars@.take(k + 1),
                base == utf8_len(pre),
                map@.len() == base + j,
                forall|b: int| 0 <= b < base ==> (#[trigger] map@[b]) == char_at_byte(pre, b),
                forall|b: int| base <= b < map@.len() ==> (#[trigger] map@[b]) == k,
                forall|b: int| 0 <= b < base ==> (#[trigger] map@[b]) < k,
            decreases w - j,
        {
            map.push(k);
            j = j + 1;
        }
        assert forall|b: int| 0 <= b < map@.len() implies (#[trigger] map@[b]) == char_at_byte(
            next,
            b,
        ) by {
            if b < base {
                assert(char_at_byte(next, b) == char_at_byte(pre, b));
            } else {
                assert(char_at_byte(next, b) == next.len() - 1);
            }
        }
        k = k + 1;
    }
    assert(chars@.take(chars.len() as int) =~= chars@);
    proof {
        let all = chars@;
        lemma_utf8_len_nonneg(all);
        if all.len() > 0 {
            assert(char_at_byte(all, utf8_len(all)) == all.len());
        }
    }
    map.push(chars.len());
    map
}

/// The number of a language in the name of its parse (see `ts_parse`).
pub open spec fn language_code(l: Language) -> u8 {
    match l {
        Language::Rust => 0,
        Language::Python => 1,
        Language::JavaScript => 2,
        Language::TypeScript => 3,
        Language::Html => 4,
        Language::Css => 5,
        Language::Swift => 6,
        Language::CSharp => 7,
        Language::Java => 8,
        Language::Go => 9,
        Language::Haskell => 10,
    }
}

/// A node of a syntax tree as plain values: kind, field, named, character
/// range, start row and column, end row and column, parent.
pub type NodeView = (
    Seq<char>,
    Option<Seq<char>>,
    bool,
    usize,
    usize,
    usize,
    usize,
    usize,
    usize,
    Option<usize>,
);

pub open spec fn node_view(n: SyntaxNode) -> NodeView {
    (
        n.kind@,
        match n.field {
            Some(f) => Some(f@),
            None => None,
        },
        n.named,
        n.start,
        n.end,
        n.start_row,
        n.start_col,
        n.end_row,
        n.end_col,
        n.parent,
    )
}

pub open spec fn node_views(v: Seq<SyntaxNode>) -> Seq<NodeView> {
    v.map_values(|n: SyntaxNode| node_view(n))
}

/// The nodes of the first raw nodes, and the stack of the indices of the
/// nodes open at the last one (one per depth): each node's character range
/// from its byte range, its parent the node open one level up. None when a
/// node does not fit: a byte range reversed or past the source, a depth
/// that does not follow the nesting, a character range outside its
/// parent's, a position at `usize::MAX`, or an end row before the start
/// row.
pub open spec fn flat_nodes(chars: Seq<char>, raws: Seq<RawView>) -> Option<(Seq<NodeView>, Seq<usize>)>
    decreases raws.len(),
{
    if raws.len() == 0 {
        Some((seq![], seq![]))
    } else {
        match flat_nodes(chars, raws.drop_last()) {
            None => None,
            Some(prev) => {
                let i = raws.len() - 1;
                let r = raws.last();
                let depth = r.6 as int;
                let start = char_at_byte(chars, r.3.0 as int);
                let end = char_at_byte(chars, r.3.1 as int);
                if r.3.0 > r.3.1 || r.3.1 > utf8_len(chars) || start > end {
                    None
                } else if (i == 0 && depth != 0) || (i > 0 && (depth == 0 || depth > prev.1.len())) {
                    None
                } else if i > 0 && (start < prev.0[prev.1[depth - 1] as int].3 || end > prev.0[prev.1[depth
                    - 1] as int].4) {
                    None
                } else if r.4.0 == usize::MAX || r.4.1 == usize::MAX || r.5.0 == usize::MAX || r.5.1
                    == usize::MAX || r.4.0 > r.5.0 {
                    None
                } else {
                    let parent = if i == 0 {
                        None
                    } else {
                        Some(prev.1[depth - 1])
                    };
                    Some(
                        (
                            prev.0.push(
                                (
                                    r.0,
                                    r.1,
                                    r.2,
                                    start as usize,
                                    end as usize,
                                    r.4.0,
                                    r.4.1,
                                    r.5.0,
                                    r.5.1,
                                    parent,
                                ),
                            ),
                            prev.1.take(depth).push(i as usize),
                        ),
                    )
                }
            },
        }
    }
}

/// The nodes of a syntax tree over `chars` from tree-sitter's nodes (see
/// `flat_nodes`); none when they do not fit, when there are none, or when
/// the source or the tree is too large to index.
pub open spec fn tree_nodes(chars: Seq<char>, raws: Seq<RawView>) -> Option<Seq<NodeView>> {
    if chars.len() >= usize::MAX - 1 || raws.len() == 0 || raws.len() >= usize::MAX - 1 {
        None
    } else {
        match flat_nodes(chars, raws) {
            Some(p) => Some(p.0),
            None => None,
        }
    }
}

/// The nodes of the syntax tree of `source` in `language`: tree-sitter's
/// parse (see `ts_parse`) made into a tree (see `tree_nodes`); none when
/// tree-sitter gives no tree or its nodes do not fit.
pub open spec fn parse_nodes(language: Language, source: Seq<char>) -> Option<Seq<NodeView>> {
    match ts_parse(language_code(language), source) {
        None => None,
        Some(raws) => tree_nodes(source, raws),
    }
}

/// `t` is the syntax tree of `source` in `language`.
pub open spec fn tree_is_parse(t: SyntaxTree, language: Language, source: Seq<char>) -> bool {
    &&& t.source@ == source
    &&& parse_nodes(language, source) == Some(node_views(t.nodes@))
}

/// The nodes of tree-sitter over `source` as a `SyntaxTree` (see
/// `tree_nodes`).
fn flatten(source: &str, raws: &Vec<RawNode>) -> (r: Result<SyntaxTree, ParseError>)
    ensures
        r matches Ok(t) ==> t.wf() && t.spans_nest() && t.source@ == source@,
        r matches Ok(t) ==> tree_nodes(source@, raws@.map_values(|n: RawNode| n@)) == Some(
            node_views(t.nodes@),
        ),
        r is Err ==> r == Err::<SyntaxTree, ParseError>(ParseError::Malformed) && tree_nodes(
            source@,
            raws@.map_values(|n: RawNode| n@),
        ) is None,
{
    let ghost rv = raws@.map_values(|n: RawNode| n@);
    let chars = chars_of(source);
    let count = raws.len();
    if chars.len() >= usize::MAX - 1 || count == 0 || count >= usize::MAX - 1 {
        return Err(ParseError::Malformed);
    }
    let map = byte_to_char_map(chars.as_slice());
    proof {
        lemma_utf8_len_nonneg(chars@);
    }
    let mut nodes: Vec<SyntaxNode> = Vec::new();
    let mut stack: Vec<usize> = Vec::new();
    let mut i: usize = 0;
    assert(rv.take(0) =~= seq![]);
    assert(node_views(nodes@) =~= seq![]);
    assert(stack@ =~= seq![]);
    while i < count
        invariant
            i <= count < usize::MAX - 1,
            count == raws@.len(),
            rv == raws@.map_values(|n: RawNode| n@),
            nodes@.len() == i,
            chars@ == source@,
            chars@.len() < usize::MAX - 1,
            map@.len() == utf8_len(chars@) + 1,
            forall|b: int| 0 <= b < map@.len() ==> (#[trigger] map@[b]) == char_at_byte(chars@, b),
            forall|b: int| 0 <= b < map@.len() ==> (#[trigger] map@[b]) <= chars.len(),
            flat_nodes(chars@, rv.take(i as int)) == Some((node_views(nodes@), stack@)),
            forall|j: int| 0 <= j < stack@.len() ==> (#[trigger] stack@[j]) < i,
            i > 0 ==> nodes@[0].parent is None,
            forall|j: int|
                0 < j < nodes@.len() ==> ((#[trigger] nodes@[j]).parent matches Some(p) && p < j),
            forall|j: int|
                0 < j < nodes@.len() ==> ((#[trigger] nodes@[j]).parent matches Some(p) && 0 <= p < j
                    && nodes@[p as int].start <= nodes@[j].start && nodes@[j].end <= nodes@[p as int].end),
            forall|j: int|
                0 <= j < nodes@.len() ==> (#[trigger] nodes@[j]).start <= nodes@[j].end
                    <= chars@.len(),
            forall|j: int|
                0 <= j < nodes@.len() ==> {
                    &&& (#[trigger] nodes@[j]).start_row < usize::MAX
                    &&& nodes@[j].start_col < usize::MAX
                    &&& nodes@[j].end_row < usize::MAX
                    &&& nodes@[j].end_col < usize::MAX
                    &&& nodes@[j].start_row <= nodes@[j].end_row
                },
        decreases count - i,
    {
        let raw = &raws[i];
        let ghost rw = rv[i as int];
        assert(rw == raw@);
        assert(rv.take(i + 1).drop_last() =~= rv.take(i as int));
        assert(rv.take(i + 1).last() == rw);
        let ghost prev = (node_views(nodes@), stack@);
        let depth = raw.depth as usize;
        let (sb, eb) = (raw.at[0], raw.at[1]);
        if sb > eb || eb >= map.len() {
            proof {
                lemma_malformed_stays(chars@, rv, i as int + 1);
            }
            return Err(ParseError::Malformed);
        }
        let start = map[sb];
        let end = map[eb];
        if start > end {
            proof {
                lemma_malformed_stays(chars@, rv, i as int + 1);
            }
            return Err(ParseError::Malformed);
        }
        let parent = if i == 0 {
            if depth != 0 {
                proof {
                    lemma_malformed_stays(chars@, rv, i as int + 1);
                }
                return Err(ParseError::Malformed);
            }
            None
        } else {
            if depth == 0 || depth > stack.len() {
                proof {
                    lemma_malformed_stays(chars@, rv, i as int + 1);
                }
                return Err(ParseError::Malformed);
            }
            let p = stack[depth - 1];
            assert(prev.0[p as int] == node_view(nodes@[p as int]));
            if start < nodes[p].start || end > nodes[p].end {
                proof {
                    lemma_malformed_stays(chars@, rv, i as int + 1);
                }
                return Err(ParseError::Malformed);
            }
            Some(p)
        };
        let (sr, sc) = (raw.at[2], raw.at[3]);
        let (er, ec) = (raw.at[4], raw.at[5]);
        if sr == usize::MAX || sc == usize::MAX || er == usize::MAX || ec == usize::MAX || sr > er {
            proof {
                lemma_malformed_stays(chars@, rv, i as int + 1);
            }
            return Err(ParseError::Malformed);
        }
        stack.truncate(depth);
        stack.push(i);
        let kind = copy_text(&raw.kind);
        let field = match &raw.field {
            Some(f) => Some(copy_text(f)),
            None => None,
        };
        let node = SyntaxNode {
            kind,
            field,
            named: raw.named,
            start,
            end,
            start_row: sr,
            start_col: sc,
            end_row: er,
            end_col: ec,
            parent,
        };
        let ghost nv = node_view(node);
        nodes.push(node);
        assert(node_views(nodes@) =~= prev.0.push(nv));
        assert(stack@ =~= prev.1.take(depth as int).push(i));
        i = i + 1;
    }
    assert(rv.take(count as int) =~= rv);
    Ok(SyntaxTree { source: chars, nodes })
}

/// Once a prefix of the raw nodes does not fit, no longer prefix does.
proof fn lemma_malformed_stays(chars: Seq<char>, rv: Seq<RawView>, k: int)
    requires
        0 <= k <= rv.len(),
        flat_nodes(chars, rv.take(k)) is None,
    ensures
        flat_nodes(chars, rv) is None,
    decreases rv.len() - k,
{
    if k < rv.len() {
        assert(rv.take(k + 1).drop_last() =~= rv.take(k));
        lemma_malformed_stays(chars, rv, k + 1);
    } else {
        assert(rv.take(k) =~= rv);
    }
}

fn copy_text(s: &String) -> (r: String)
    ensures
        r@ == s@,
{
    let mut out = String::new();
    push_str(&mut out, s.as_str());
    out
}

/// Parse source code into a syntax tree with the grammar of `language`: the
/// tree of tree-sitter's parse (see `parse_nodes`); a tree is returned for
/// invalid code too, with error nodes in it. `NoTree` when tree-sitter
/// refuses the grammar or gives no tree, `Malformed` when its nodes do not
/// fit the source.
pub fn parse_code(source: &str, language: Language) -> (r: Result<SyntaxTree, ParseError>)
    ensures
        r matches Ok(t) ==> t.wf() && t.spans_nest() && tree_is_parse(t, language, source@),
        r is Ok <==> parse_nodes(language, source@) is Some,
        r == Err::<SyntaxTree, ParseError>(ParseError::NoTree) <==> ts_parse(language_code(language), source@) is None,
{
    let raws = match parse_raw(language, source) {
        Some(v) => v,
        None => return Err(ParseError::NoTree),
    };
    flatten(source, &raws)
}

} // verus!
