//! The shape of a Tailwind CSS file: the variables of its `@theme` block,
//! the classes of its `@layer components` and `@layer utilities` blocks
//! with the utilities they `@apply`, and its keyframes.
use vstd::prelude::*;
use crate::analysis::shape::{CssFileShape, CustomClass, KeyframeInfo, ThemeVariable};
use crate::analysis::tailwind::count_char;
use crate::parser::{byte_to_char_map, char_at_byte, utf8_len};
use crate::text::{char_views, chars_of, push_str, slice_range, split_words, string_of, trim, trim_chars, views, words};

verus! {

// ---------------------------------------------------------------------------
// Regular expressions
// ---------------------------------------------------------------------------

/// The matches of regex `pattern` in `text`, left to right and not
/// overlapping (`Regex::captures_iter`), each as the UTF-8 byte span of
/// each of its groups (none for a group that took no part).
pub uninterp spec fn regex_captures(pattern: Seq<char>, text: Seq<char>) -> Seq<
    Seq<Option<(usize, usize)>>,
>;

/// Whether `Regex::new` accepts `pattern`.
pub uninterp spec fn regex_accepts(pattern: Seq<char>) -> bool;

/// The spans of `caps` lie in `text`, start before end, on character
/// boundaries.
pub open spec fn valid_spans(text: Seq<char>, caps: Seq<Seq<Option<(usize, usize)>>>) -> bool {
    forall|m: int, g: int|
        #![trigger caps[m][g]]
        0 <= m < caps.len() && 0 <= g < caps[m].len() ==> (caps[m][g] matches Some(sp) ==> {
            &&& sp.0 <= sp.1 <= utf8_len(text)
            &&& utf8_len(text.take(char_at_byte(text, sp.0 as int))) == sp.0
            &&& utf8_len(text.take(char_at_byte(text, sp.1 as int))) == sp.1
        })
}

/// `Regex::new(pattern)` and `captures_iter(text)`: the byte spans of the
/// groups of each match (see `regex_captures`); as the regex documentation
/// states, they lie in the text, start before end, on character
/// boundaries. None exactly when regex refuses the pattern (see
/// `regex_accepts`).
#[verifier::external_body]
pub(crate) fn captures_iter(pattern: &str, text: &str) -> (r: Option<Vec<Vec<Option<(usize, usize)>>>>)
    ensures
        r is Some <==> regex_accepts(pattern@),
        r matches Some(v) ==> {
            &&& v@.map_values(|m: Vec<Option<(usize, usize)>>| m@) == regex_captures(pattern@, text@)
            &&& valid_spans(text@, regex_captures(pattern@, text@))
        },
{
    let re = match regex::Regex::new(pattern) {
        Ok(re) => re,
        Err(_) => return None,
    };
    Some(
        re.captures_iter(text).map(
            |c| c.iter().map(|m| m.map(|m| (m.start(), m.end()))).collect(),
        ).collect(),
    )
}

// ---------------------------------------------------------------------------
// Offsets and spans
// ---------------------------------------------------------------------------

/// Group `g` of match `m`, if it took part.
pub open spec fn group(m: Seq<Option<(usize, usize)>>, g: int) -> Option<(usize, usize)> {
    if 0 <= g < m.len() {
        m[g]
    } else {
        None
    }
}

/// The text of byte span `sp` of `text`.
pub open spec fn span_text(text: Seq<char>, sp: (usize, usize)) -> Seq<char> {
    let a = char_at_byte(text, sp.0 as int);
    let b = char_at_byte(text, sp.1 as int);
    if 0 <= a <= b <= text.len() {
        text.subrange(a, b)
    } else {
        seq![]
    }
}

/// The 1-based line of byte offset `b` of `text`.
pub open spec fn line_at(text: Seq<char>, b: int) -> usize {
    (count_char(text.take(char_at_byte(text, b)), '\n') + 1) as usize
}

/// A text with its byte-to-character map.
pub(crate) struct Indexed {
    pub(crate) chars: Vec<char>,
    pub(crate) map: Vec<usize>,
}

pub(crate) open spec fn indexed_wf(x: Indexed) -> bool {
    &&& x.chars@.len() < usize::MAX
    &&& x.map@.len() == utf8_len(x.chars@) + 1
    &&& forall|b: int| 0 <= b < x.map@.len() ==> (#[trigger] x.map@[b]) == char_at_byte(x.chars@, b)
    &&& forall|b: int| 0 <= b < x.map@.len() ==> (#[trigger] x.map@[b]) <= x.chars@.len()
}

proof fn lemma_char_at_byte_end(s: Seq<char>, b: int)
    requires
        b >= utf8_len(s),
    ensures
        char_at_byte(s, b) == s.len(),
    decreases s.len(),
{
}

proof fn lemma_char_at_byte_bound(s: Seq<char>, b: int)
    ensures
        0 <= char_at_byte(s, b) <= s.len(),
    decreases s.len(),
{
    if s.len() > 0 {
        lemma_char_at_byte_bound(s.drop_last(), b);
    }
}

pub(crate) fn index_text(text: &str) -> (r: Option<Indexed>)
    ensures
        r is Some <==> text@.len() < usize::MAX,
        r matches Some(x) ==> indexed_wf(x) && x.chars@ == text@,
{
    let chars = chars_of(text);
    if chars.len() >= usize::MAX {
        return None;
    }
    let map = byte_to_char_map(chars.as_slice());
    Some(Indexed { chars, map })
}

/// The character index of byte offset `b`.
fn char_index(x: &Indexed, b: usize) -> (r: usize)
    requires
        indexed_wf(*x),
    ensures
        r == char_at_byte(x.chars@, b as int),
        r <= x.chars@.len(),
{
    if b < x.map.len() {
        x.map[b]
    } else {
        proof {
            lemma_char_at_byte_end(x.chars@, b as int);
        }
        x.chars.len()
    }
}

pub(crate) fn span_chars(x: &Indexed, sp: (usize, usize)) -> (r: Vec<char>)
    requires
        indexed_wf(*x),
    ensures
        r@ == span_text(x.chars@, sp),
{
    let a = char_index(x, sp.0);
    let b = char_index(x, sp.1);
    if a <= b {
        slice_range(x.chars.as_slice(), a, b)
    } else {
        Vec::new()
    }
}

fn line_of(x: &Indexed, b: usize) -> (r: usize)
    requires
        indexed_wf(*x),
    ensures
        r == line_at(x.chars@, b as int),
{
    let c = char_index(x, b);
    crate::analysis::tailwind::calculate_line(x.chars.as_slice(), c)
}

pub(crate) fn group_of(m: &Vec<Option<(usize, usize)>>, g: usize) -> (r: Option<(usize, usize)>)
    ensures
        r == group(m@, g as int),
{
    if g < m.len() {
        m[g]
    } else {
        None
    }
}

// ---------------------------------------------------------------------------
// The shape
// ---------------------------------------------------------------------------

pub open spec fn theme_pattern() -> Seq<char> {
    "@theme\\s*\\{([\\s\\S]*?)\\}"@
}

pub open spec fn variable_pattern() -> Seq<char> {
    "(?m)^\\s*(--[\\w-]+)\\s*:\\s*([^;]+);"@
}

pub open spec fn layer_pattern() -> Seq<char> {
    "@layer\\s+(components|utilities)\\s*\\{"@
}

pub open spec fn class_pattern() -> Seq<char> {
    "\\.([\\w-]+)\\s*\\{([^}]*)\\}"@
}

pub open spec fn apply_pattern() -> Seq<char> {
    "@apply\\s+([^;]+);"@
}

pub open spec fn keyframes_pattern() -> Seq<char> {
    "@keyframes\\s+([\\w-]+)\\s*\\{"@
}

/// Whether regex accepts every pattern a CSS file is read with.
pub open spec fn css_patterns_accepted() -> bool {
    &&& regex_accepts(theme_pattern())
    &&& regex_accepts(variable_pattern())
    &&& regex_accepts(layer_pattern())
    &&& regex_accepts(class_pattern())
    &&& regex_accepts(apply_pattern())
    &&& regex_accepts(keyframes_pattern())
}

pub proof fn lemma_span_text_len(text: Seq<char>, sp: (usize, usize))
    ensures
        span_text(text, sp).len() <= text.len(),
{
}

/// Name, value and line of a theme variable.
pub type ThemeView = (Seq<char>, Seq<char>, usize);

/// The variables among the matches `vars` of the variable pattern in the
/// theme block `content`, which starts at byte `base` of `src`: each name,
/// trimmed value and line of its name.
pub open spec fn theme_variables(
    src: Seq<char>,
    content: Seq<char>,
    base: int,
    vars: Seq<Seq<Option<(usize, usize)>>>,
) -> Seq<ThemeView>
    decreases vars.len(),
{
    if vars.len() == 0 {
        seq![]
    } else {
        let r = theme_variables(src, content, base, vars.drop_last());
        let m = vars.last();
        match (group(m, 1), group(m, 2)) {
            (Some(n), Some(v)) => r.push(
                (span_text(content, n), trim(span_text(content, v)), line_at(src, base + n.0)),
            ),
            _ => r,
        }
    }
}

/// The variables of the first `@theme` block of `src`.
pub open spec fn css_theme(src: Seq<char>) -> Seq<ThemeView> {
    let caps = regex_captures(theme_pattern(), src);
    if caps.len() == 0 {
        seq![]
    } else {
        match group(caps[0], 1) {
            Some(g) => {
                let content = span_text(src, g);
                theme_variables(src, content, g.0 as int, regex_captures(variable_pattern(), content))
            },
            None => seq![],
        }
    }
}

/// Position (in `s`) of the brace that closes a block open `depth` times
/// at the start of `s`.
pub open spec fn closing_brace(s: Seq<char>, depth: int) -> Option<int>
    decreases s.len(),
{
    if s.len() == 0 {
        None
    } else {
        let rest = if s[0] == '{' {
            closing_brace(s.drop_first(), depth + 1)
        } else if s[0] == '}' {
            if depth == 1 {
                None
            } else {
                closing_brace(s.drop_first(), depth - 1)
            }
        } else {
            closing_brace(s.drop_first(), depth)
        };
        if s[0] == '}' && depth == 1 {
            Some(0)
        } else {
            match rest {
                Some(k) => Some(k + 1),
                None => None,
            }
        }
    }
}

/// The utilities applied by the matches `applies` of the apply pattern in
/// `body`, in order.
pub open spec fn applied_utilities(body: Seq<char>, applies: Seq<Seq<Option<(usize, usize)>>>) -> Seq<
    Seq<char>,
>
    decreases applies.len(),
{
    if applies.len() == 0 {
        seq![]
    } else {
        let r = applied_utilities(body, applies.drop_last());
        match group(applies.last(), 1) {
            Some(g) => r + words(span_text(body, g)),
            None => r,
        }
    }
}

/// Name, applied utilities, layer and line of a layer class.
pub type ClassView = (Seq<char>, Seq<Seq<char>>, Option<Seq<char>>, usize);

/// The classes among the matches `classes` of the class pattern in the
/// layer `content` named `layer`, which starts at byte `base` of `src`.
pub open spec fn layer_classes(
    src: Seq<char>,
    content: Seq<char>,
    base: int,
    layer: Seq<char>,
    classes: Seq<Seq<Option<(usize, usize)>>>,
) -> Seq<ClassView>
    decreases classes.len(),
{
    if classes.len() == 0 {
        seq![]
    } else {
        let r = layer_classes(src, content, base, layer, classes.drop_last());
        let m = classes.last();
        match (group(m, 0), group(m, 1), group(m, 2)) {
            (Some(all), Some(n), Some(b)) => {
                let body = span_text(content, b);
                r.push(
                    (
                        span_text(content, n),
                        applied_utilities(body, regex_captures(apply_pattern(), body)),
                        Some(layer),
                        line_at(src, base + all.0),
                    ),
                )
            },
            _ => r,
        }
    }
}

/// The classes of the layer opened by match `m` of the layer pattern in
/// `src`: the block runs from the end of the match to its closing brace;
/// none when it is not closed or empty at once.
pub open spec fn layer_block_classes(src: Seq<char>, m: Seq<Option<(usize, usize)>>) -> Seq<ClassView> {
    match (group(m, 0), group(m, 1)) {
        (Some(all), Some(n)) => {
            let start = char_at_byte(src, all.1 as int);
            match closing_brace(src.skip(start), 1) {
                Some(k) => if k == 0 {
                    seq![]
                } else {
                    let content = src.subrange(start, start + k);
                    layer_classes(
                        src,
                        content,
                        all.1 as int,
                        span_text(src, n),
                        regex_captures(class_pattern(), content),
                    )
                },
                None => seq![],
            }
        },
        _ => seq![],
    }
}

/// The classes of the layers among the matches `layers`, in order.
pub open spec fn css_layers(src: Seq<char>, layers: Seq<Seq<Option<(usize, usize)>>>) -> Seq<ClassView>
    decreases layers.len(),
{
    if layers.len() == 0 {
        seq![]
    } else {
        css_layers(src, layers.drop_last()) + layer_block_classes(src, layers.last())
    }
}

/// Name and line of a keyframe animation.
pub type KeyframeView = (Seq<char>, usize);

/// The keyframes among the matches `kfs` of the keyframes pattern.
pub open spec fn css_keyframes(src: Seq<char>, kfs: Seq<Seq<Option<(usize, usize)>>>) -> Seq<KeyframeView>
    decreases kfs.len(),
{
    if kfs.len() == 0 {
        seq![]
    } else {
        let r = css_keyframes(src, kfs.drop_last());
        match (group(kfs.last(), 0), group(kfs.last(), 1)) {
            (Some(all), Some(n)) => r.push((span_text(src, n), line_at(src, all.0 as int))),
            _ => r,
        }
    }
}

pub open spec fn theme_views(v: Seq<ThemeVariable>) -> Seq<ThemeView> {
    v.map_values(|x: ThemeVariable| (x.name@, x.value@, x.line))
}

pub open spec fn class_views(v: Seq<CustomClass>) -> Seq<ClassView> {
    v.map_values(
        |x: CustomClass|
            (
                x.name@,
                views(x.applied_utilities@),
                match x.layer {
                    Some(l) => Some(l@),
                    None => None,
                },
                x.line,
            ),
    )
}

pub open spec fn keyframe_views(v: Seq<KeyframeInfo>) -> Seq<KeyframeView> {
    v.map_values(|x: KeyframeInfo| (x.name@, x.line))
}

/// Why a CSS file could not be read.
#[derive(Debug, Clone, Copy, PartialEq, Eq, Structural)]
pub enum CssError {
    /// regex refused one of the patterns.
    InvalidRegex,
    /// The source is too long to index.
    TooLong,
}

fn captures_or_err(pattern: &str, text: &str) -> (r: Result<Vec<Vec<Option<(usize, usize)>>>, CssError>)
    ensures
        r matches Ok(v) ==> {
            &&& v@.map_values(|m: Vec<Option<(usize, usize)>>| m@) == regex_captures(pattern@, text@)
            &&& valid_spans(text@, regex_captures(pattern@, text@))
        },
        r matches Err(e) ==> e == CssError::InvalidRegex,
        r is Ok <==> regex_accepts(pattern@),
{
    match captures_iter(pattern, text) {
        Some(v) => Ok(v),
        None => Err(CssError::InvalidRegex),
    }
}

fn collect_theme(src: &Indexed, source: &str, theme: &mut Vec<ThemeVariable>) -> (r: Result<(), CssError>)
    requires
        indexed_wf(*src),
        src.chars@ == source@,
        old(theme)@.len() == 0,
    ensures
        r is Ok ==> theme_views(final(theme)@) == css_theme(source@),
        r matches Err(e) ==> e == CssError::InvalidRegex,
        !regex_accepts(theme_pattern()) ==> r is Err,
        regex_accepts(theme_pattern()) && regex_accepts(variable_pattern()) ==> r is Ok,
{
    let caps = match captures_or_err("@theme\\s*\\{([\\s\\S]*?)\\}", source) {
        Ok(c) => c,
        Err(e) => return Err(e),
    };
    let ghost cv = caps@.map_values(|m: Vec<Option<(usize, usize)>>| m@);
    assert(theme_views(theme@) =~= seq![]);
    if caps.len() == 0 {
        return Ok(());
    }
    assert(cv[0] == caps@[0]@);
    let g = match group_of(&caps[0], 1) {
        Some(g) => g,
        None => return Ok(()),
    };
    let content_chars = span_chars(src, g);
    proof {
        lemma_span_text_len(src.chars@, g);
    }
    let content_text = string_of(content_chars.as_slice());
    let content = match index_text(content_text.as_str()) {
        Some(x) => x,
        None => return Err(CssError::TooLong),
    };
    let vars = match captures_or_err("(?m)^\\s*(--[\\w-]+)\\s*:\\s*([^;]+);", content_text.as_str()) {
        Ok(c) => c,
        Err(e) => return Err(e),
    };
    let ghost vv = vars@.map_values(|m: Vec<Option<(usize, usize)>>| m@);
    let ml = src.map.len();
    let mut k: usize = 0;
    assert(vv.take(0) =~= seq![]);
    while k < vars.len()
        invariant
            ml == src.map@.len(),
            indexed_wf(*src),
            indexed_wf(content),
            content.chars@ == content_text@,
            vv == vars@.map_values(|m: Vec<Option<(usize, usize)>>| m@),
            k <= vars@.len(),
            theme_views(theme@) == theme_variables(source@, content_text@, g.0 as int, vv.take(k as int)),
            src.chars@ == source@,
        decreases vars@.len() - k,
    {
        assert(vv.take(k + 1).drop_last() =~= vv.take(k as int));
        assert(vv.take(k + 1).last() == vars@[k as int]@);
        match (group_of(&vars[k], 1), group_of(&vars[k], 2)) {
            (Some(n), Some(v)) => {
                let abs = g.0.saturating_add(n.0);
                proof {
                    if g.0 + n.0 > usize::MAX {
                        lemma_char_at_byte_end(source@, abs as int);
                        lemma_char_at_byte_end(source@, g.0 + n.0);
                    }
                }
                let x = ThemeVariable {
                    name: string_of(span_chars(&content, n).as_slice()),
                    value: string_of(trim_chars(span_chars(&content, v).as_slice()).as_slice()),
                    line: line_of(src, abs),
                };
                assert(x.line == line_at(source@, g.0 + n.0));
                let ghost before = theme_views(theme@);
                theme.push(x);
                assert(theme_views(theme@) =~= before.push((x.name@, x.value@, x.line)));
            },
            _ => {},
        }
        k = k + 1;
    }
    assert(vv.take(vars@.len() as int) =~= vv);
    Ok(())
}

fn collect_keyframes(src: &Indexed, source: &str) -> (r: Result<Vec<KeyframeInfo>, CssError>)
    requires
        indexed_wf(*src),
        src.chars@ == source@,
    ensures
        r matches Ok(v) ==> keyframe_views(v@) == css_keyframes(
            source@,
            regex_captures(keyframes_pattern(), source@),
        ),
        r matches Err(e) ==> e == CssError::InvalidRegex,
        r is Ok <==> regex_accepts(keyframes_pattern()),
{
    let kfs = match captures_or_err("@keyframes\\s+([\\w-]+)\\s*\\{", source) {
        Ok(c) => c,
        Err(e) => return Err(e),
    };
    let ghost kv = kfs@.map_values(|m: Vec<Option<(usize, usize)>>| m@);
    let mut out: Vec<KeyframeInfo> = Vec::new();
    let mut k: usize = 0;
    assert(kv.take(0) =~= seq![]);
    assert(keyframe_views(out@) =~= seq![]);
    while k < kfs.len()
        invariant
            indexed_wf(*src),
            src.chars@ == source@,
            kv == kfs@.map_values(|m: Vec<Option<(usize, usize)>>| m@),
            k <= kfs@.len(),
            keyframe_views(out@) == css_keyframes(source@, kv.take(k as int)),
        decreases kfs@.len() - k,
    {
        assert(kv.take(k + 1).drop_last() =~= kv.take(k as int));
        assert(kv.take(k + 1).last() == kfs@[k as int]@);
        match (group_of(&kfs[k], 0), group_of(&kfs[k], 1)) {
            (Some(all), Some(n)) => {
                let x = KeyframeInfo {
                    name: string_of(span_chars(src, n).as_slice()),
                    line: line_of(src, all.0),
                };
                let ghost before = keyframe_views(out@);
                out.push(x);
                assert(keyframe_views(out@) =~= before.push((x.name@, x.line)));
            },
            _ => {},
        }
        k = k + 1;
    }
    assert(kv.take(kfs@.len() as int) =~= kv);
    Ok(out)
}

/// Position of the brace that closes a block open `depth` times, scanning
/// `v` from `from` (see `closing_brace`).
fn find_closing_brace(v: &[char], from: usize) -> (r: Option<usize>)
    requires
        from <= v.len() < usize::MAX,
    ensures
        match r {
            Some(k) => closing_brace(v@.skip(from as int), 1) == Some(k - from) && from <= k < v.len(),
            None => closing_brace(v@.skip(from as int), 1) is None,
        },
{
    let mut depth: usize = 1;
    let mut i = from;
    assert(v@.skip(from as int).skip(0) =~= v@.skip(from as int));
    while i < v.len()
        invariant
            from <= i <= v.len() < usize::MAX,
            1 <= depth <= i - from + 1,
            closing_brace(v@.skip(from as int), 1) == match closing_brace(v@.skip(i as int), depth as int) {
                Some(k) => Some(k + (i - from)),
                None => None,
            },
        decreases v.len() - i,
    {
        let ghost s = v@.skip(i as int);
        assert(s[0] == v@[i as int]);
        assert(s.drop_first() =~= v@.skip(i + 1));
        if v[i] == '}' {
            if depth == 1 {
                return Some(i);
            }
            depth = depth - 1;
        } else if v[i] == '{' {
            depth = depth + 1;
        }
        i = i + 1;
    }
    assert(v@.skip(i as int) =~= Seq::<char>::empty());
    None
}

fn applied_of(body: &str) -> (r: Result<Vec<String>, CssError>)
    ensures
        r matches Ok(v) ==> views(v@) == applied_utilities(body@, regex_captures(apply_pattern(), body@)),
        r is Ok <==> regex_accepts(apply_pattern()) && body@.len() < usize::MAX,
        r matches Err(e) ==> (e == CssError::InvalidRegex <==> !regex_accepts(apply_pattern())),
{
    let applies = match captures_or_err("@apply\\s+([^;]+);", body) {
        Ok(c) => c,
        Err(e) => return Err(e),
    };
    let ghost av = applies@.map_values(|m: Vec<Option<(usize, usize)>>| m@);
    let bx = match index_text(body) {
        Some(x) => x,
        None => return Err(CssError::TooLong),
    };
    let mut out: Vec<String> = Vec::new();
    let mut k: usize = 0;
    assert(av.take(0) =~= seq![]);
    assert(views(out@) =~= seq![]);
    while k < applies.len()
        invariant
            indexed_wf(bx),
            bx.chars@ == body@,
            av == applies@.map_values(|m: Vec<Option<(usize, usize)>>| m@),
            k <= applies@.len(),
            views(out@) == applied_utilities(body@, av.take(k as int)),
        decreases applies@.len() - k,
    {
        assert(av.take(k + 1).drop_last() =~= av.take(k as int));
        assert(av.take(k + 1).last() == applies@[k as int]@);
        if let Some(g) = group_of(&applies[k], 1) {
            let ws = split_words(span_chars(&bx, g).as_slice());
            let ghost base = views(out@);
            let mut q: usize = 0;
            assert(base + char_views(ws@).take(0) =~= base);
            while q < ws.len()
                invariant
                    q <= ws@.len(),
                    views(out@) == base + char_views(ws@).take(q as int),
                decreases ws@.len() - q,
            {
                let w = string_of(ws[q].as_slice());
                let ghost before = views(out@);
                out.push(w);
                assert(views(out@) =~= before.push(w@));
                assert(char_views(ws@).take(q + 1) =~= char_views(ws@).take(q as int).push(
                    ws@[q as int]@,
                ));
                q = q + 1;
            }
            assert(char_views(ws@).take(ws@.len() as int) =~= char_views(ws@));
        }
        k = k + 1;
    }
    assert(av.take(applies@.len() as int) =~= av);
    Ok(out)
}

fn collect_layer(src: &Indexed, m: &Vec<Option<(usize, usize)>>, out: &mut Vec<CustomClass>) -> (r:
    Result<(), CssError>)
    requires
        indexed_wf(*src),
    ensures
        r is Ok ==> class_views(final(out)@) == class_views(old(out)@) + layer_block_classes(
            src.chars@,
            m@,
        ),
        r matches Err(e) ==> e == CssError::InvalidRegex,
        regex_accepts(class_pattern()) && regex_accepts(apply_pattern()) ==> r is Ok,
{
    let ghost start_views = class_views(out@);
    let (all, n) = match (group_of(m, 0), group_of(m, 1)) {
        (Some(all), Some(n)) => (all, n),
        _ => {
            assert(start_views + seq![] =~= start_views);
            return Ok(());
        },
    };
    let start = char_index(src, all.1);
    let close = match find_closing_brace(src.chars.as_slice(), start) {
        Some(c) => c,
        None => {
            assert(start_views + seq![] =~= start_views);
            return Ok(());
        },
    };
    if close == start {
        assert(start_views + seq![] =~= start_views);
        return Ok(());
    }
    let content_chars = slice_range(src.chars.as_slice(), start, close);
    let content_text = string_of(content_chars.as_slice());
    let content = match index_text(content_text.as_str()) {
        Some(x) => x,
        None => return Err(CssError::TooLong),
    };
    let layer = string_of(span_chars(src, n).as_slice());
    let classes = match captures_or_err("\\.([\\w-]+)\\s*\\{([^}]*)\\}", content_text.as_str()) {
        Ok(c) => c,
        Err(e) => return Err(e),
    };
    let ghost cv = classes@.map_values(|m: Vec<Option<(usize, usize)>>| m@);
    let ml = src.map.len();
    let mut k: usize = 0;
    assert(cv.take(0) =~= seq![]);
    assert(class_views(out@) =~= start_views + seq![]);
    while k < classes.len()
        invariant
            ml == src.map@.len(),
            indexed_wf(*src),
            indexed_wf(content),
            content.chars@ == content_text@,
            cv == classes@.map_values(|m: Vec<Option<(usize, usize)>>| m@),
            k <= classes@.len(),
            class_views(out@) == start_views + layer_classes(
                src.chars@,
                content_text@,
                all.1 as int,
                layer@,
                cv.take(k as int),
            ),
        decreases classes@.len() - k,
    {
        assert(cv.take(k + 1).drop_last() =~= cv.take(k as int));
        assert(cv.take(k + 1).last() == classes@[k as int]@);
        match (group_of(&classes[k], 0), group_of(&classes[k], 1), group_of(&classes[k], 2)) {
            (Some(whole), Some(nm), Some(b)) => {
                let body = string_of(span_chars(&content, b).as_slice());
                proof {
                    lemma_span_text_len(content.chars@, b);
                }
                let applied = match applied_of(body.as_str()) {
                    Ok(a) => a,
                    Err(e) => return Err(e),
                };
                let abs = all.1.saturating_add(whole.0);
                proof {
                    if all.1 + whole.0 > usize::MAX {
                        lemma_char_at_byte_end(src.chars@, abs as int);
                        lemma_char_at_byte_end(src.chars@, all.1 + whole.0);
                    }
                }
                let x = CustomClass {
                    name: string_of(span_chars(&content, nm).as_slice()),
                    applied_utilities: applied,
                    layer: Some(layer.clone()),
                    line: line_of(src, abs),
                };
                let ghost before = class_views(out@);
                out.push(x);
                assert(class_views(out@) =~= before.push(
                    (x.name@, views(x.applied_utilities@), Some(layer@), x.line),
                ));
                assert(class_views(out@) =~= start_views + layer_classes(
                    src.chars@,
                    content_text@,
                    all.1 as int,
                    layer@,
                    cv.take(k + 1),
                ));
            },
            _ => {},
        }
        k = k + 1;
    }
    assert(cv.take(classes@.len() as int) =~= cv);
    proof {
        lemma_char_at_byte_bound(src.chars@, all.1 as int);
        assert(content_text@ == src.chars@.subrange(start as int, close as int));
        assert(src.chars@.skip(start as int).len() > 0);
    }
    Ok(())
}

/// The shape of a Tailwind CSS file: the variables of its first `@theme`
/// block (see `css_theme`), the classes of its `@layer components` and
/// `@layer utilities` blocks with the utilities they apply (see
/// `css_layers`) and its keyframes (see `css_keyframes`); `Err` only when
/// regex refuses a pattern or the source cannot be indexed.
pub fn extract_css_tailwind(source: &str, file_path: Option<&str>) -> (r: Result<CssFileShape, CssError>)
    ensures
        r matches Ok(s) ==> {
            &&& match file_path {
                Some(p) => s.path matches Some(q) && q@ == p@,
                None => s.path is None,
            }
            &&& theme_views(s.theme@) == css_theme(source@)
            &&& class_views(s.custom_classes@) == css_layers(
                source@,
                regex_captures(layer_pattern(), source@),
            )
            &&& keyframe_views(s.keyframes@) == css_keyframes(
                source@,
                regex_captures(keyframes_pattern(), source@),
            )
        },
        source@.len() >= usize::MAX ==> r == Err::<CssFileShape, CssError>(CssError::TooLong),
        r == Err::<CssFileShape, CssError>(CssError::TooLong) ==> source@.len() >= usize::MAX,
        r == Err::<CssFileShape, CssError>(CssError::InvalidRegex) ==> !css_patterns_accepted(),
        source@.len() < usize::MAX && css_patterns_accepted() ==> r is Ok,
{
    let src = match index_text(source) {
        Some(x) => x,
        None => return Err(CssError::TooLong),
    };
    let mut theme: Vec<ThemeVariable> = Vec::new();
    match collect_theme(&src, source, &mut theme) {
        Ok(()) => {},
        Err(e) => return Err(e),
    }
    let layers = match captures_or_err("@layer\\s+(components|utilities)\\s*\\{", source) {
        Ok(c) => c,
        Err(e) => return Err(e),
    };
    let ghost lv = layers@.map_values(|m: Vec<Option<(usize, usize)>>| m@);
    let mut custom_classes: Vec<CustomClass> = Vec::new();
    let mut k: usize = 0;
    assert(lv.take(0) =~= seq![]);
    assert(class_views(custom_classes@) =~= seq![]);
    while k < layers.len()
        invariant
            indexed_wf(src),
            src.chars@ == source@,
            lv == layers@.map_values(|m: Vec<Option<(usize, usize)>>| m@),
            k <= layers@.len(),
            class_views(custom_classes@) == css_layers(source@, lv.take(k as int)),
        decreases layers@.len() - k,
    {
        assert(lv.take(k + 1).drop_last() =~= lv.take(k as int));
        assert(lv.take(k + 1).last() == layers@[k as int]@);
        match collect_layer(&src, &layers[k], &mut custom_classes) {
            Ok(()) => {},
            Err(e) => return Err(e),
        }
        k = k + 1;
    }
    assert(lv.take(layers@.len() as int) =~= lv);
    let keyframes = match collect_keyframes(&src, source) {
        Ok(v) => v,
        Err(e) => return Err(e),
    };
    let path = match file_path {
        Some(p) => {
            let mut s = String::new();
            push_str(&mut s, p);
            Some(s)
        },
        None => None,
    };
    Ok(CssFileShape { path, theme, custom_classes, keyframes })
}

proof fn lemma_utf8_len_bound(s: Seq<char>)
    ensures
        utf8_len(s) <= 4 * s.len(),
    decreases s.len(),
{
    if s.len() > 0 {
        lemma_utf8_len_bound(s.drop_last());
    }
}

} // verus!
