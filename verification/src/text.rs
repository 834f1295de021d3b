//! Character-sequence helpers shared by the analyses, each with its
//! mathematical counterpart over `Seq<char>`.
use vstd::prelude::*;

verus! {

// ---------------------------------------------------------------------------
// Conversions
// ---------------------------------------------------------------------------

/// Appends one character to a string (`String::push`).
#[verifier::external_body]
pub(crate) fn push_char(s: &mut String, c: char)
    ensures
        final(s)@ == old(s)@.push(c),
{
    s.push(c);
}

/// The characters of a string, in order.
pub fn chars_of(s: &str) -> (r: Vec<char>)
    ensures
        r@ == s@,
{
    let mut out: Vec<char> = Vec::new();
    for c in it: s.chars()
        invariant
            out@ == it.seq().take(it.index() as int),
            it.seq() == s@,
    {
        out.push(c);
    }
    out
}

/// Builds a string from characters.
pub fn string_of(v: &[char]) -> (r: String)
    ensures
        r@ == v@,
{
    let mut s = String::new();
    let mut i: usize = 0;
    while i < v.len()
        invariant
            i <= v.len(),
            s@ == v@.take(i as int),
        decreases v.len() - i,
    {
        push_char(&mut s, v[i]);
        assert(v@.take(i as int).push(v@[i as int]) == v@.take(i + 1));
        i = i + 1;
    }
    assert(v@.take(v.len() as int) == v@);
    s
}

/// The characters `v[from..to]` as a string.
pub fn string_of_range(v: &[char], from: usize, to: usize) -> (r: String)
    requires
        from <= to <= v.len(),
    ensures
        r@ == v@.subrange(from as int, to as int),
{
    let mut s = String::new();
    let mut i: usize = from;
    while i < to
        invariant
            from <= i <= to <= v.len(),
            s@ == v@.subrange(from as int, i as int),
        decreases to - i,
    {
        push_char(&mut s, v[i]);
        assert(v@.subrange(from as int, i as int).push(v@[i as int]) == v@.subrange(
            from as int,
            i + 1,
        ));
        i = i + 1;
    }
    s
}

/// Appends the characters of `v` to `s`.
pub fn push_chars(s: &mut String, v: &[char])
    ensures
        final(s)@ == old(s)@ + v@,
{
    let mut i: usize = 0;
    while i < v.len()
        invariant
            i <= v.len(),
            s@ == old(s)@ + v@.take(i as int),
        decreases v.len() - i,
    {
        push_char(s, v[i]);
        assert(old(s)@ + v@.take(i as int).push(v@[i as int]) == old(s)@ + v@.take(i + 1));
        i = i + 1;
    }
    assert(v@.take(v.len() as int) == v@);
}

/// Appends a string to `s`.
pub fn push_str(s: &mut String, t: &str)
    ensures
        final(s)@ == old(s)@ + t@,
{
    let v = chars_of(t);
    push_chars(s, v.as_slice());
}

/// Equality of two character slices.
pub fn chars_eq(a: &[char], b: &[char]) -> (r: bool)
    ensures
        r == (a@ == b@),
{
    if a.len() != b.len() {
        return false;
    }
    let mut i: usize = 0;
    while i < a.len()
        invariant
            a.len() == b.len(),
            i <= a.len(),
            forall|j: int| 0 <= j < i ==> a@[j] == b@[j],
        decreases a.len() - i,
    {
        if a[i] != b[i] {
            return false;
        }
        i = i + 1;
    }
    assert(a@ =~= b@);
    true
}

/// Equality of two strings by their characters.
pub fn str_eq(a: &str, b: &str) -> (r: bool)
    ensures
        r == (a@ == b@),
{
    let va = chars_of(a);
    let vb = chars_of(b);
    chars_eq(va.as_slice(), vb.as_slice())
}

// ---------------------------------------------------------------------------
// Whitespace and trimming
// ---------------------------------------------------------------------------

/// Unicode `White_Space`, as `char::is_whitespace` defines it.
pub open spec fn is_ws(c: char) -> bool {
    let u = c as u32;
    ||| u == 0x20
    ||| (0x09 <= u && u <= 0x0D)
    ||| u == 0x85
    ||| u == 0xA0
    ||| u == 0x1680
    ||| (0x2000 <= u && u <= 0x200A)
    ||| u == 0x2028
    ||| u == 0x2029
    ||| u == 0x202F
    ||| u == 0x205F
    ||| u == 0x3000
}

/// Executable `char::is_whitespace`.
pub fn is_whitespace(c: char) -> (r: bool)
    ensures
        r == is_ws(c),
{
    let u = c as u32;
    u == 0x20 || (0x09 <= u && u <= 0x0D) || u == 0x85 || u == 0xA0 || u == 0x1680 || (0x2000
        <= u && u <= 0x200A) || u == 0x2028 || u == 0x2029 || u == 0x202F || u == 0x205F || u
        == 0x3000
}

/// Number of leading whitespace characters.
pub open spec fn lead_ws(s: Seq<char>) -> nat
    decreases s.len(),
{
    if s.len() > 0 && is_ws(s[0]) {
        1 + lead_ws(s.drop_first())
    } else {
        0
    }
}

/// Number of trailing whitespace characters.
pub open spec fn trail_ws(s: Seq<char>) -> nat
    decreases s.len(),
{
    if s.len() > 0 && is_ws(s.last()) {
        1 + trail_ws(s.drop_last())
    } else {
        0
    }
}

/// `str::trim_start`.
pub open spec fn trim_start(s: Seq<char>) -> Seq<char> {
    s.skip(lead_ws(s) as int)
}

/// `str::trim_end`.
pub open spec fn trim_end(s: Seq<char>) -> Seq<char> {
    s.take(s.len() - trail_ws(s))
}

/// `str::trim`.
pub open spec fn trim(s: Seq<char>) -> Seq<char> {
    trim_end(trim_start(s))
}

pub proof fn lemma_lead_ws(s: Seq<char>)
    ensures
        lead_ws(s) <= s.len(),
        forall|j: int| 0 <= j < lead_ws(s) ==> is_ws(#[trigger] s[j]),
        lead_ws(s) < s.len() ==> !is_ws(s[lead_ws(s) as int]),
    decreases s.len(),
{
    if s.len() > 0 && is_ws(s[0]) {
        lemma_lead_ws(s.drop_first());
        assert forall|j: int| 0 <= j < lead_ws(s) implies is_ws(#[trigger] s[j]) by {
            if j > 0 {
                assert(s[j] == s.drop_first()[j - 1]);
            }
        }
    }
}

pub proof fn lemma_trail_ws(s: Seq<char>)
    ensures
        trail_ws(s) <= s.len(),
        forall|j: int| s.len() - trail_ws(s) <= j < s.len() ==> is_ws(#[trigger] s[j]),
        trail_ws(s) < s.len() ==> !is_ws(s[s.len() - trail_ws(s) - 1]),
    decreases s.len(),
{
    if s.len() > 0 && is_ws(s.last()) {
        lemma_trail_ws(s.drop_last());
        assert forall|j: int| s.len() - trail_ws(s) <= j < s.len() implies is_ws(
            #[trigger] s[j],
        ) by {
            if j < s.len() - 1 {
                assert(s[j] == s.drop_last()[j]);
            }
        }
    }
}

/// The unique count characterising `lead_ws`.
pub proof fn lemma_lead_ws_unique(s: Seq<char>, k: int)
    requires
        0 <= k <= s.len(),
        forall|j: int| 0 <= j < k ==> is_ws(#[trigger] s[j]),
        k < s.len() ==> !is_ws(s[k]),
    ensures
        lead_ws(s) == k,
{
    lemma_lead_ws(s);
    if lead_ws(s) < k {
        assert(is_ws(s[lead_ws(s) as int]));
    }
    if k < lead_ws(s) {
        assert(is_ws(s[k]));
    }
}

pub proof fn lemma_trail_ws_unique(s: Seq<char>, k: int)
    requires
        0 <= k <= s.len(),
        forall|j: int| s.len() - k <= j < s.len() ==> is_ws(#[trigger] s[j]),
        k < s.len() ==> !is_ws(s[s.len() - k - 1]),
    ensures
        trail_ws(s) == k,
{
    lemma_trail_ws(s);
    if trail_ws(s) < k {
        assert(is_ws(s[s.len() - trail_ws(s) - 1]));
    }
    if k < trail_ws(s) {
        assert(is_ws(s[s.len() - k - 1]));
    }
}

/// Index of the first non-whitespace character of `v[from..to]` (or `to`).
pub fn skip_ws(v: &[char], from: usize, to: usize) -> (k: usize)
    requires
        from <= to <= v.len(),
    ensures
        from <= k <= to,
        lead_ws(v@.subrange(from as int, to as int)) == k - from,
{
    let mut k = from;
    while k < to && is_whitespace(v[k])
        invariant
            from <= k <= to <= v.len(),
            forall|j: int| from <= j < k ==> is_ws(#[trigger] v@[j]),
        decreases to - k,
    {
        k = k + 1;
    }
    let ghost s = v@.subrange(from as int, to as int);
    proof {
        assert forall|j: int| 0 <= j < k - from implies is_ws(#[trigger] s[j]) by {
            assert(s[j] == v@[from + j]);
        }
        if k < to {
            assert(s[k - from] == v@[k as int]);
        }
        lemma_lead_ws_unique(s, k - from);
    }
    k
}

/// End of `v[from..to]` once trailing whitespace is dropped.
pub fn back_ws(v: &[char], from: usize, to: usize) -> (k: usize)
    requires
        from <= to <= v.len(),
    ensures
        from <= k <= to,
        trail_ws(v@.subrange(from as int, to as int)) == to - k,
{
    let mut k = to;
    while k > from && is_whitespace(v[k - 1])
        invariant
            from <= k <= to <= v.len(),
            forall|j: int| k <= j < to ==> is_ws(#[trigger] v@[j]),
        decreases k - from,
    {
        k = k - 1;
    }
    let ghost s = v@.subrange(from as int, to as int);
    proof {
        assert forall|j: int| s.len() - (to - k) <= j < s.len() implies is_ws(#[trigger] s[j]) by {
            assert(s[j] == v@[from + j]);
        }
        if k > from {
            assert(s[s.len() - (to - k) - 1] == v@[k - 1]);
        }
        lemma_trail_ws_unique(s, (to - k) as int);
    }
    k
}

/// Bounds of `trim(v[from..to])` inside `v`.
pub fn trim_bounds(v: &[char], from: usize, to: usize) -> (r: (usize, usize))
    requires
        from <= to <= v.len(),
    ensures
        from <= r.0 <= r.1 <= to,
        v@.subrange(r.0 as int, r.1 as int) == trim(v@.subrange(from as int, to as int)),
        v@.subrange(r.0 as int, to as int) == trim_start(v@.subrange(from as int, to as int)),
        v@.subrange(from as int, back_ws_spec(v@, from as int, to as int)) == trim_end(
            v@.subrange(from as int, to as int),
        ),
{
    let a = skip_ws(v, from, to);
    let b = back_ws(v, a, to);
    let b2 = back_ws(v, from, to);
    proof {
        let s = v@.subrange(from as int, to as int);
        assert(trim_start(s) =~= v@.subrange(a as int, to as int));
        assert(trim(s) =~= v@.subrange(a as int, b as int));
        assert(trim_end(s) =~= v@.subrange(from as int, b2 as int));
    }
    (a, b)
}

/// End index of `trim_end(v[from..to])`.
pub open spec fn back_ws_spec(v: Seq<char>, from: int, to: int) -> int {
    to - trail_ws(v.subrange(from, to))
}

/// `str::trim` on a character slice.
pub fn trim_chars(v: &[char]) -> (r: Vec<char>)
    ensures
        r@ == trim(v@),
{
    let (a, b) = trim_bounds(v, 0, v.len());
    assert(v@.subrange(0, v.len() as int) == v@);
    slice_range(v, a, b)
}

/// `str::trim` returning a string.
pub fn trim_str(s: &str) -> (r: String)
    ensures
        r@ == trim(s@),
{
    let v = chars_of(s);
    let (a, b) = trim_bounds(v.as_slice(), 0, v.len());
    assert(v@.subrange(0, v.len() as int) == v@);
    string_of_range(v.as_slice(), a, b)
}

/// A copy of `v[from..to]`.
pub fn slice_range(v: &[char], from: usize, to: usize) -> (r: Vec<char>)
    requires
        from <= to <= v.len(),
    ensures
        r@ == v@.subrange(from as int, to as int),
{
    let mut out: Vec<char> = Vec::new();
    let mut i = from;
    while i < to
        invariant
            from <= i <= to <= v.len(),
            out@ == v@.subrange(from as int, i as int),
        decreases to - i,
    {
        out.push(v[i]);
        assert(v@.subrange(from as int, i as int).push(v@[i as int]) == v@.subrange(
            from as int,
            i + 1,
        ));
        i = i + 1;
    }
    out
}

// ---------------------------------------------------------------------------
// Prefixes, suffixes, containment
// ---------------------------------------------------------------------------

/// `s.starts_with(p)`.
pub open spec fn starts_with(s: Seq<char>, p: Seq<char>) -> bool {
    p.len() <= s.len() && s.take(p.len() as int) == p
}

/// `s.ends_with(p)`.
pub open spec fn ends_with(s: Seq<char>, p: Seq<char>) -> bool {
    p.len() <= s.len() && s.skip(s.len() - p.len()) == p
}

/// `p` occurs in `s` starting at `i`.
pub open spec fn occurs_at(s: Seq<char>, p: Seq<char>, i: int) -> bool {
    0 <= i && i + p.len() <= s.len() && s.subrange(i, i + p.len()) == p
}

/// `s.contains(p)`.
pub open spec fn contains(s: Seq<char>, p: Seq<char>) -> bool {
    exists|i: int| occurs_at(s, p, i)
}

/// Whether `p` occurs in `v` at position `i`.
pub fn occurs_at_exec(v: &[char], p: &[char], i: usize) -> (r: bool)
    ensures
        r == occurs_at(v@, p@, i as int),
{
    if i > v.len() || p.len() > v.len() - i {
        return false;
    }
    let mut j: usize = 0;
    while j < p.len()
        invariant
            i + p.len() <= v.len(),
            j <= p.len(),
            forall|k: int| 0 <= k < j ==> v@[i + k] == p@[k],
        decreases p.len() - j,
    {
        if v[i + j] != p[j] {
            assert(v@.subrange(i as int, i + p.len())[j as int] != p@[j as int]);
            return false;
        }
        j = j + 1;
    }
    assert(v@.subrange(i as int, i + p.len()) =~= p@);
    true
}

/// `s.starts_with(p)` on slices.
pub fn starts_with_chars(v: &[char], p: &[char]) -> (r: bool)
    ensures
        r == starts_with(v@, p@),
{
    let r = occurs_at_exec(v, p, 0);
    proof {
        if p@.len() <= v@.len() {
            assert(v@.subrange(0, p@.len() as int) == v@.take(p@.len() as int));
        }
    }
    r
}

/// `s.ends_with(p)` on slices.
pub fn ends_with_chars(v: &[char], p: &[char]) -> (r: bool)
    ensures
        r == ends_with(v@, p@),
{
    if p.len() > v.len() {
        return false;
    }
    let r = occurs_at_exec(v, p, v.len() - p.len());
    assert(v@.subrange(v.len() - p.len(), v.len() as int) == v@.skip(v.len() - p.len()));
    r
}

/// First position at or after `from` where `p` occurs in `v`.
pub fn find_from(v: &[char], p: &[char], from: usize) -> (r: Option<usize>)
    ensures
        match r {
            Some(i) => from <= i && occurs_at(v@, p@, i as int) && forall|j: int|
                from <= j < i ==> !occurs_at(v@, p@, j),
            None => forall|j: int| from <= j ==> !occurs_at(v@, p@, j),
        },
{
    let mut i = from;
    while i < v.len()
        invariant
            from <= i,
            forall|j: int| from <= j < i ==> !occurs_at(v@, p@, j),
        decreases v.len() - i,
    {
        if occurs_at_exec(v, p, i) {
            return Some(i);
        }
        i = i + 1;
    }
    if occurs_at_exec(v, p, i) {
        return Some(i);
    }
    proof {
        assert forall|j: int| from <= j implies !occurs_at(v@, p@, j) by {
            if j > i {
                assert(j + p@.len() > v@.len());
            }
        }
    }
    None
}

/// `s.contains(p)` on slices.
pub fn contains_chars(v: &[char], p: &[char]) -> (r: bool)
    ensures
        r == contains(v@, p@),
{
    match find_from(v, p, 0) {
        Some(i) => true,
        None => {
            assert forall|j: int| !occurs_at(v@, p@, j) by {
                if j >= 0 {
                }
            }
            false
        },
    }
}

/// `s.contains(c)` for one character.
pub open spec fn has_char(s: Seq<char>, c: char) -> bool {
    exists|i: int| 0 <= i < s.len() && s[i] == c
}

/// First index of `c` in `v[from..]`.
pub fn find_char(v: &[char], c: char, from: usize) -> (r: Option<usize>)
    ensures
        match r {
            Some(i) => from <= i < v.len() && v@[i as int] == c && forall|j: int|
                from <= j < i ==> v@[j] != c,
            None => forall|j: int| from <= j < v.len() ==> v@[j] != c,
        },
{
    let mut i = from;
    while i < v.len()
        invariant
            from <= i,
            forall|j: int| from <= j < i && j < v.len() ==> v@[j] != c,
        decreases v.len() - i,
    {
        if v[i] == c {
            return Some(i);
        }
        i = i + 1;
    }
    None
}

/// Whether `c` occurs in `v`.
pub fn has_char_exec(v: &[char], c: char) -> (r: bool)
    ensures
        r == has_char(v@, c),
{
    match find_char(v, c, 0) {
        Some(i) => true,
        None => false,
    }
}

// ---------------------------------------------------------------------------
// Lines
// ---------------------------------------------------------------------------

/// Index of the first `c` in `s`, or `s.len()`.
pub open spec fn first_index(s: Seq<char>, c: char) -> int
    decreases s.len(),
{
    if s.len() == 0 {
        0
    } else if s[0] == c {
        0
    } else {
        1 + first_index(s.drop_first(), c)
    }
}

pub proof fn lemma_first_index(s: Seq<char>, c: char)
    ensures
        0 <= first_index(s, c) <= s.len(),
        forall|j: int| 0 <= j < first_index(s, c) ==> s[j] != c,
        first_index(s, c) < s.len() ==> s[first_index(s, c)] == c,
    decreases s.len(),
{
    if s.len() > 0 && s[0] != c {
        lemma_first_index(s.drop_first(), c);
        assert forall|j: int| 0 <= j < first_index(s, c) implies s[j] != c by {
            if j > 0 {
                assert(s[j] == s.drop_first()[j - 1]);
            }
        }
    }
}

pub proof fn lemma_first_index_unique(s: Seq<char>, c: char, k: int)
    requires
        0 <= k <= s.len(),
        forall|j: int| 0 <= j < k ==> s[j] != c,
        k < s.len() ==> s[k] == c,
    ensures
        first_index(s, c) == k,
{
    lemma_first_index(s, c);
    if first_index(s, c) < k {
        assert(s[first_index(s, c)] != c);
    }
    if k < first_index(s, c) {
        assert(s[k] != c);
    }
}

/// A line without its trailing `\r`, as `str::lines` yields it.
pub open spec fn strip_cr(s: Seq<char>) -> Seq<char> {
    if s.len() > 0 && s.last() == '\r' {
        s.drop_last()
    } else {
        s
    }
}

/// `str::lines`: pieces ending at each `\n` (which is dropped together with a
/// `\r` before it); a final `\n` adds no empty line.
pub open spec fn lines(s: Seq<char>) -> Seq<Seq<char>>
    decreases s.len(),
{
    if s.len() == 0 {
        seq![]
    } else {
        let i = first_index(s, '\n');
        if i >= s.len() {
            seq![s]
        } else {
            proof {
                lemma_first_index(s, '\n');
            }
            seq![strip_cr(s.take(i))] + lines(s.skip(i + 1))
        }
    }
}

/// End of the line that starts at `from` (the index of its `\n`, or `v.len()`).
pub fn line_end(v: &[char], from: usize) -> (r: usize)
    requires
        from <= v.len(),
    ensures
        from <= r <= v.len(),
        r - from == first_index(v@.skip(from as int), '\n'),
{
    let r = match find_char(v, '\n', from) {
        Some(i) => i,
        None => v.len(),
    };
    proof {
        let s = v@.skip(from as int);
        assert forall|j: int| 0 <= j < r - from implies s[j] != '\n' by {
            assert(s[j] == v@[from + j]);
        }
        if r < v.len() {
            assert(s[r - from] == v@[r as int]);
        }
        lemma_first_index_unique(s, '\n', r - from);
    }
    r
}

/// `str::lines` as bounds `(start, end)` of each line in `v`.
pub fn line_bounds(v: &[char]) -> (r: Vec<(usize, usize)>)
    ensures
        r@.len() == lines(v@).len(),
        forall|k: int|
            0 <= k < r@.len() ==> {
                &&& (#[trigger] r@[k]).0 <= r@[k].1 <= v@.len()
                &&& v@.subrange(r@[k].0 as int, r@[k].1 as int) == lines(v@)[k]
            },
{
    let mut out: Vec<(usize, usize)> = Vec::new();
    let mut pos: usize = 0;
    proof {
        let f = |b: (usize, usize)| v@.subrange(b.0 as int, b.1 as int);
        assert(v@.skip(0) =~= v@);
        assert(out@.map_values(f) + lines(v@.skip(0)) =~= lines(v@));
    }
    while pos < v.len()
        invariant
            pos <= v.len(),
            lines(v@) == out@.map_values(
                |b: (usize, usize)| v@.subrange(b.0 as int, b.1 as int),
            ) + lines(v@.skip(pos as int)),
            forall|k: int| 0 <= k < out@.len() ==> (#[trigger] out@[k]).0 <= out@[k].1 <= v@.len(),
        decreases v.len() - pos,
    {
        let e = line_end(v, pos);
        let ghost s = v@.skip(pos as int);
        let mut stop = e;
        if stop > pos && v[stop - 1] == '\r' && e < v.len() {
            stop = stop - 1;
        }
        proof {
            lemma_first_index(s, '\n');
            if e < v.len() {
                assert(s.take(e - pos) =~= v@.subrange(pos as int, e as int));
                assert(s.skip(e - pos + 1) =~= v@.skip(e + 1));
                assert(strip_cr(s.take(e - pos)) =~= v@.subrange(pos as int, stop as int));
            } else {
                assert(s =~= v@.subrange(pos as int, e as int));
            }
        }
        let ghost before = out@;
        out.push((pos, stop));
        proof {
            let f = |b: (usize, usize)| v@.subrange(b.0 as int, b.1 as int);
            assert(out@.map_values(f) =~= before.map_values(f).push(
                v@.subrange(pos as int, stop as int),
            ));
        }
        if e < v.len() {
            pos = e + 1;
        } else {
            pos = v.len();
            assert(v@.skip(pos as int) =~= Seq::<char>::empty());
        }
    }
    proof {
        assert(v@.skip(pos as int) =~= Seq::<char>::empty());
        let f = |b: (usize, usize)| v@.subrange(b.0 as int, b.1 as int);
        assert(lines(v@) =~= out@.map_values(f));
        assert forall|k: int| 0 <= k < out@.len() implies v@.subrange(
            (#[trigger] out@[k]).0 as int,
            out@[k].1 as int,
        ) == lines(v@)[k] by {
            assert(out@.map_values(f)[k] == f(out@[k]));
        }
    }
    out
}

}

verus! {

// ---------------------------------------------------------------------------
// ASCII case
// ---------------------------------------------------------------------------

/// `char::to_ascii_lowercase`.
pub open spec fn lower_char(c: char) -> char {
    if 'A' <= c && c <= 'Z' {
        ((c as u32) + 32) as char
    } else {
        c
    }
}

/// `str::to_ascii_lowercase`.
pub open spec fn ascii_lower(s: Seq<char>) -> Seq<char> {
    s.map_values(|c: char| lower_char(c))
}

/// Executable `char::to_ascii_lowercase`.
pub fn lower_char_exec(c: char) -> (r: char)
    ensures
        r == lower_char(c),
{
    if 'A' <= c && c <= 'Z' {
        let u = (c as u32) + 32;
        (u as u8) as char
    } else {
        c
    }
}

/// `str::to_ascii_lowercase` on characters.
pub fn ascii_lower_chars(v: &[char]) -> (r: Vec<char>)
    ensures
        r@ == ascii_lower(v@),
{
    let mut out: Vec<char> = Vec::new();
    let mut i: usize = 0;
    while i < v.len()
        invariant
            i <= v.len(),
            out@ == ascii_lower(v@.take(i as int)),
        decreases v.len() - i,
    {
        out.push(lower_char_exec(v[i]));
        assert(ascii_lower(v@.take(i + 1)) =~= ascii_lower(v@.take(i as int)).push(
            lower_char(v@[i as int]),
        ));
        i = i + 1;
    }
    assert(v@.take(v.len() as int) == v@);
    out
}

/// Index of the last `c` in `s`, or -1.
pub open spec fn last_index(s: Seq<char>, c: char) -> int
    decreases s.len(),
{
    if s.len() == 0 {
        -1
    } else if s.last() == c {
        s.len() - 1
    } else {
        last_index(s.drop_last(), c)
    }
}

pub proof fn lemma_last_index(s: Seq<char>, c: char)
    ensures
        -1 <= last_index(s, c) < s.len(),
        forall|j: int| last_index(s, c) < j < s.len() ==> s[j] != c,
        last_index(s, c) >= 0 ==> s[last_index(s, c)] == c,
    decreases s.len(),
{
    if s.len() > 0 && s.last() != c {
        lemma_last_index(s.drop_last(), c);
        assert forall|j: int| last_index(s, c) < j < s.len() implies s[j] != c by {
            if j < s.len() - 1 {
                assert(s[j] == s.drop_last()[j]);
            }
        }
    }
}

pub proof fn lemma_last_index_unique(s: Seq<char>, c: char, k: int)
    requires
        -1 <= k < s.len(),
        forall|j: int| k < j < s.len() ==> s[j] != c,
        k >= 0 ==> s[k] == c,
    ensures
        last_index(s, c) == k,
{
    lemma_last_index(s, c);
    if last_index(s, c) < k {
        assert(s[k] != c);
    }
    if k < last_index(s, c) {
        assert(s[last_index(s, c)] != c);
    }
}

/// Index of the last `c` in `v[0..to]`, as `last_index`.
pub fn rfind_char(v: &[char], c: char, to: usize) -> (r: Option<usize>)
    requires
        to <= v.len(),
    ensures
        match r {
            Some(i) => i < to && last_index(v@.take(to as int), c) == i,
            None => last_index(v@.take(to as int), c) == -1,
        },
{
    let mut k = to;
    while k > 0 && v[k - 1] != c
        invariant
            k <= to <= v.len(),
            forall|j: int| k <= j < to ==> v@[j] != c,
        decreases k,
    {
        k = k - 1;
    }
    let ghost s = v@.take(to as int);
    proof {
        assert forall|j: int| k - 1 < j < s.len() implies s[j] != c by {
            assert(s[j] == v@[j]);
        }
        if k > 0 {
            assert(s[k - 1] == v@[k - 1]);
        }
        lemma_last_index_unique(s, c, k - 1);
    }
    if k == 0 {
        None
    } else {
        Some(k - 1)
    }
}

} // verus!

verus! {

// ---------------------------------------------------------------------------
// Joining
// ---------------------------------------------------------------------------

/// `parts.join(sep)`.
pub open spec fn join(parts: Seq<Seq<char>>, sep: Seq<char>) -> Seq<char>
    decreases parts.len(),
{
    if parts.len() == 0 {
        seq![]
    } else if parts.len() == 1 {
        parts[0]
    } else {
        join(parts.drop_last(), sep) + sep + parts.last()
    }
}

/// The views of a vector of strings.
pub open spec fn views(v: Seq<String>) -> Seq<Seq<char>> {
    v.map_values(|s: String| s@)
}

/// `parts.join(sep)` for strings.
pub fn join_strings(parts: &Vec<String>, sep: &str) -> (r: String)
    ensures
        r@ == join(views(parts@), sep@),
{
    let mut s = String::new();
    let mut i: usize = 0;
    while i < parts.len()
        invariant
            i <= parts.len(),
            s@ == join(views(parts@.take(i as int)), sep@),
        decreases parts.len() - i,
    {
        let ghost before = s@;
        if i > 0 {
            push_str(&mut s, sep);
        }
        push_str(&mut s, parts[i].as_str());
        proof {
            let p = views(parts@.take(i + 1));
            assert(p.drop_last() =~= views(parts@.take(i as int)));
            assert(p.last() == parts@[i as int]@);
            if i == 0 {
                assert(p.len() == 1);
                assert(s@ =~= p[0]);
            } else {
                assert(s@ =~= join(p.drop_last(), sep@) + sep@ + p.last());
            }
        }
        i = i + 1;
    }
    assert(parts@.take(parts.len() as int) == parts@);
    s
}

/// `s.starts_with(lit)` for a literal.
pub fn starts_with_lit(v: &[char], lit: &str) -> (r: bool)
    ensures
        r == starts_with(v@, lit@),
{
    let p = chars_of(lit);
    starts_with_chars(v, p.as_slice())
}

/// `s.ends_with(lit)` for a literal.
pub fn ends_with_lit(v: &[char], lit: &str) -> (r: bool)
    ensures
        r == ends_with(v@, lit@),
{
    let p = chars_of(lit);
    ends_with_chars(v, p.as_slice())
}

/// `s.contains(lit)` for a literal.
pub fn contains_lit(v: &[char], lit: &str) -> (r: bool)
    ensures
        r == contains(v@, lit@),
{
    let p = chars_of(lit);
    contains_chars(v, p.as_slice())
}

/// `s == lit` for a literal.
pub fn eq_lit(v: &[char], lit: &str) -> (r: bool)
    ensures
        r == (v@ == lit@),
{
    let p = chars_of(lit);
    chars_eq(v, p.as_slice())
}

/// `s == lit` for a string and a literal.
pub fn str_is(s: &str, lit: &str) -> (r: bool)
    ensures
        r == (s@ == lit@),
{
    str_eq(s, lit)
}

} // verus!

verus! {

// ---------------------------------------------------------------------------
// Splitting
// ---------------------------------------------------------------------------

/// Start of the first occurrence of `p` in `s` (`p` non-empty), or -1.
pub open spec fn first_occ(s: Seq<char>, p: Seq<char>) -> int
    decreases s.len(),
{
    if p.len() == 0 || s.len() < p.len() {
        -1
    } else if s.take(p.len() as int) == p {
        0
    } else {
        let r = first_occ(s.drop_first(), p);
        if r < 0 {
            -1
        } else {
            r + 1
        }
    }
}

pub proof fn lemma_first_occ(s: Seq<char>, p: Seq<char>)
    requires
        p.len() > 0,
    ensures
        -1 <= first_occ(s, p) <= s.len() - p.len() || first_occ(s, p) == -1,
        first_occ(s, p) >= 0 ==> occurs_at(s, p, first_occ(s, p)),
        forall|j: int|
            0 <= j && (first_occ(s, p) < 0 || j < first_occ(s, p)) ==> !occurs_at(s, p, j),
    decreases s.len(),
{
    if s.len() < p.len() {
        assert forall|j: int| 0 <= j implies !occurs_at(s, p, j) by {}
    } else if s.take(p.len() as int) == p {
        assert(s.subrange(0, p.len() as int) == s.take(p.len() as int));
    } else {
        lemma_first_occ(s.drop_first(), p);
        let t = s.drop_first();
        assert forall|j: int|
            0 <= j && (first_occ(s, p) < 0 || j < first_occ(s, p)) implies !occurs_at(s, p, j) by {
            if j == 0 {
                assert(s.subrange(0, p.len() as int) == s.take(p.len() as int));
            } else {
                if occurs_at(s, p, j) {
                    assert(t.subrange(j - 1, j - 1 + p.len()) =~= s.subrange(j, j + p.len()));
                    assert(occurs_at(t, p, j - 1));
                }
            }
        }
        if first_occ(s, p) >= 0 {
            let r = first_occ(t, p);
            assert(t.subrange(r, r + p.len()) =~= s.subrange(r + 1, r + 1 + p.len()));
        }
    }
}

/// `s.split(p)` for a non-empty pattern `p`: the pieces between the
/// occurrences of `p`, found from the left.
pub open spec fn split_str(s: Seq<char>, p: Seq<char>) -> Seq<Seq<char>>
    decreases s.len(),
{
    let i = first_occ(s, p);
    if p.len() == 0 || i < 0 {
        seq![s]
    } else {
        proof {
            lemma_first_occ(s, p);
        }
        seq![s.take(i)] + split_str(s.skip(i + p.len()), p)
    }
}

/// The views of a vector of character vectors.
pub open spec fn char_views(v: Seq<Vec<char>>) -> Seq<Seq<char>> {
    v.map_values(|x: Vec<char>| x@)
}

/// The pieces of `v` split at `p` (`v.split(p)`).
pub fn split_pieces(v: &[char], p: &[char]) -> (r: Vec<Vec<char>>)
    requires
        p@.len() > 0,
    ensures
        char_views(r@) == split_str(v@, p@),
{
    let mut out: Vec<Vec<char>> = Vec::new();
    let mut pos: usize = 0;
    assert(v@.skip(0) =~= v@);
    assert(char_views(out@) =~= seq![]);
    loop
        invariant
            pos <= v.len(),
            p@.len() > 0,
            split_str(v@, p@) == char_views(out@) + split_str(v@.skip(pos as int), p@),
        decreases v.len() - pos,
    {
        let ghost s = v@.skip(pos as int);
        proof {
            lemma_first_occ(s, p@);
        }
        match find_from(v, p, pos) {
            Some(i) => {
                proof {
                    assert(occurs_at(s, p@, i - pos)) by {
                        assert(s.subrange(i - pos, i - pos + p@.len()) =~= v@.subrange(
                            i as int,
                            i + p@.len(),
                        ));
                    }
                    assert forall|j: int| 0 <= j < i - pos implies !occurs_at(s, p@, j) by {
                        if occurs_at(s, p@, j) {
                            assert(s.subrange(j, j + p@.len()) =~= v@.subrange(
                                pos + j,
                                pos + j + p@.len(),
                            ));
                            assert(occurs_at(v@, p@, pos + j));
                        }
                    }
                    assert(first_occ(s, p@) == i - pos);
                    assert(s.skip(i - pos + p@.len()) =~= v@.skip(i + p@.len()));
                    assert(s.take(i - pos) =~= v@.subrange(pos as int, i as int));
                }
                let piece = slice_range(v, pos, i);
                let ghost before = char_views(out@);
                out.push(piece);
                assert(char_views(out@) =~= before.push(piece@));
                assert(before + (seq![s.take(i - pos)] + split_str(v@.skip(i + p@.len()), p@))
                    =~= before.push(s.take(i - pos)) + split_str(v@.skip(i + p@.len()), p@));
                pos = i + p.len();
            },
            None => {
                proof {
                    assert forall|j: int| 0 <= j implies !occurs_at(s, p@, j) by {
                        if occurs_at(s, p@, j) {
                            assert(s.subrange(j, j + p@.len()) =~= v@.subrange(
                                pos + j,
                                pos + j + p@.len(),
                            ));
                            assert(occurs_at(v@, p@, pos + j));
                        }
                    }
                    if first_occ(s, p@) >= 0 {
                        assert(occurs_at(s, p@, first_occ(s, p@)));
                    }
                }
                let rest = slice_range(v, pos, v.len());
                assert(rest@ =~= s);
                let ghost before = char_views(out@);
                out.push(rest);
                assert(char_views(out@) =~= before.push(s));
                assert(before + seq![s] =~= before.push(s));
                return out;
            },
        }
    }
}

/// The last piece of `v` split at `p` (`v.split(p).last()`).
pub fn split_last(v: &[char], p: &[char]) -> (r: Vec<char>)
    requires
        p@.len() > 0,
    ensures
        r@ == split_str(v@, p@).last(),
{
    let mut pos: usize = 0;
    let ghost acc: Seq<Seq<char>> = seq![];
    assert(v@.skip(0) =~= v@);
    loop
        invariant
            pos <= v.len(),
            p@.len() > 0,
            split_str(v@, p@) == acc + split_str(v@.skip(pos as int), p@),
        decreases v.len() - pos,
    {
        let ghost s = v@.skip(pos as int);
        proof {
            lemma_first_occ(s, p@);
        }
        match find_from(v, p, pos) {
            Some(i) => {
                proof {
                    assert(occurs_at(s, p@, i - pos)) by {
                        assert(s.subrange(i - pos, i - pos + p@.len()) =~= v@.subrange(
                            i as int,
                            i + p@.len(),
                        ));
                    }
                    assert forall|j: int| 0 <= j < i - pos implies !occurs_at(s, p@, j) by {
                        if occurs_at(s, p@, j) {
                            assert(s.subrange(j, j + p@.len()) =~= v@.subrange(
                                pos + j,
                                pos + j + p@.len(),
                            ));
                            assert(occurs_at(v@, p@, pos + j));
                        }
                    }
                    assert(first_occ(s, p@) == i - pos);
                    assert(s.skip(i - pos + p@.len()) =~= v@.skip(i + p@.len()));
                    assert(acc + (seq![s.take(i - pos)] + split_str(v@.skip(i + p@.len()), p@))
                        =~= acc.push(s.take(i - pos)) + split_str(v@.skip(i + p@.len()), p@));
                    acc = acc.push(s.take(i - pos));
                }
                pos = i + p.len();
            },
            None => {
                proof {
                    assert forall|j: int| 0 <= j implies !occurs_at(s, p@, j) by {
                        if occurs_at(s, p@, j) {
                            assert(s.subrange(j, j + p@.len()) =~= v@.subrange(
                                pos + j,
                                pos + j + p@.len(),
                            ));
                            assert(occurs_at(v@, p@, pos + j));
                        }
                    }
                    if first_occ(s, p@) >= 0 {
                        assert(occurs_at(s, p@, first_occ(s, p@)));
                    }
                    assert(split_str(v@, p@) == acc + seq![s]);
                    assert((acc + seq![s]).last() == s);
                }
                let rest = slice_range(v, pos, v.len());
                assert(rest@ =~= s);
                return rest;
            },
        }
    }
}

/// Whether one of the pieces of `v` split at `p` equals `w`
/// (`v.split(p).any(|seg| seg == w)`).
pub fn split_contains(v: &[char], p: &[char], w: &[char]) -> (r: bool)
    requires
        p@.len() > 0,
    ensures
        r == split_str(v@, p@).contains(w@),
{
    let mut pos: usize = 0;
    let ghost acc: Seq<Seq<char>> = seq![];
    assert(v@.skip(0) =~= v@);
    loop
        invariant
            pos <= v.len(),
            p@.len() > 0,
            split_str(v@, p@) == acc + split_str(v@.skip(pos as int), p@),
            !acc.contains(w@),
        decreases v.len() - pos,
    {
        let ghost s = v@.skip(pos as int);
        proof {
            lemma_first_occ(s, p@);
        }
        match find_from(v, p, pos) {
            Some(i) => {
                proof {
                    assert(occurs_at(s, p@, i - pos)) by {
                        assert(s.subrange(i - pos, i - pos + p@.len()) =~= v@.subrange(
                            i as int,
                            i + p@.len(),
                        ));
                    }
                    assert forall|j: int| 0 <= j < i - pos implies !occurs_at(s, p@, j) by {
                        if occurs_at(s, p@, j) {
                            assert(s.subrange(j, j + p@.len()) =~= v@.subrange(
                                pos + j,
                                pos + j + p@.len(),
                            ));
                            assert(occurs_at(v@, p@, pos + j));
                        }
                    }
                    assert(first_occ(s, p@) == i - pos);
                    assert(s.take(i - pos) =~= v@.subrange(pos as int, i as int));
                    assert(s.skip(i - pos + p@.len()) =~= v@.skip(i + p@.len()));
                }
                let piece = slice_range(v, pos, i);
                if chars_eq(piece.as_slice(), w) {
                    proof {
                        assert(split_str(v@, p@) == acc + (seq![s.take(i - pos)] + split_str(
                            v@.skip(i + p@.len()),
                            p@,
                        )));
                        assert(split_str(v@, p@)[acc.len() as int] == w@);
                    }
                    return true;
                }
                proof {
                    assert(acc + (seq![s.take(i - pos)] + split_str(v@.skip(i + p@.len()), p@))
                        =~= acc.push(s.take(i - pos)) + split_str(v@.skip(i + p@.len()), p@));
                    acc = acc.push(s.take(i - pos));
                    assert(!acc.contains(w@)) by {
                        assert forall|k: int| 0 <= k < acc.len() implies acc[k] != w@ by {
                            if k < acc.len() - 1 {
                            }
                        }
                    }
                }
                pos = i + p.len();
            },
            None => {
                proof {
                    assert forall|j: int| 0 <= j implies !occurs_at(s, p@, j) by {
                        if occurs_at(s, p@, j) {
                            assert(s.subrange(j, j + p@.len()) =~= v@.subrange(
                                pos + j,
                                pos + j + p@.len(),
                            ));
                            assert(occurs_at(v@, p@, pos + j));
                        }
                    }
                    if first_occ(s, p@) >= 0 {
                        assert(occurs_at(s, p@, first_occ(s, p@)));
                    }
                    assert(split_str(v@, p@) == acc + seq![s]);
                }
                let rest = slice_range(v, pos, v.len());
                assert(rest@ =~= s);
                let r = chars_eq(rest.as_slice(), w);
                proof {
                    let all = acc + seq![s];
                    if r {
                        assert(all[acc.len() as int] == w@);
                    } else {
                        assert forall|k: int| 0 <= k < all.len() implies all[k] != w@ by {
                            if k < acc.len() {
                                assert(all[k] == acc[k]);
                            }
                        }
                    }
                }
                return r;
            },
        }
    }
}

} // verus!

verus! {

/// Start of the last occurrence of `p` in `s`, or -1.
pub open spec fn last_occ(s: Seq<char>, p: Seq<char>) -> int
    decreases s.len(),
{
    if p.len() == 0 || s.len() < p.len() {
        -1
    } else if s.skip(s.len() - p.len()) == p {
        s.len() - p.len()
    } else {
        last_occ(s.drop_last(), p)
    }
}

/// Start of the last occurrence of `p` in `v[0..to]`.
pub fn rfind_str(v: &[char], p: &[char], to: usize) -> (r: Option<usize>)
    requires
        to <= v.len(),
        p@.len() > 0,
    ensures
        match r {
            Some(i) => last_occ(v@.take(to as int), p@) == i && i + p@.len() <= to,
            None => last_occ(v@.take(to as int), p@) == -1,
        },
{
    let mut e = to;
    loop
        invariant
            e <= to <= v.len(),
            p@.len() > 0,
            last_occ(v@.take(to as int), p@) == last_occ(v@.take(e as int), p@),
        decreases e,
    {
        let ghost s = v@.take(e as int);
        if e < p.len() {
            return None;
        }
        let here = occurs_at_exec(v, p, e - p.len());
        assert(s.skip(s.len() - p@.len()) =~= v@.subrange(e - p@.len(), e as int));
        if here {
            return Some(e - p.len());
        }
        assert(s.drop_last() =~= v@.take(e - 1));
        e = e - 1;
    }
}

/// Index of the last `:` or `.` in `s`, or -1.
pub open spec fn last_sep(s: Seq<char>) -> int
    decreases s.len(),
{
    if s.len() == 0 {
        -1
    } else if s.last() == ':' || s.last() == '.' {
        s.len() - 1
    } else {
        last_sep(s.drop_last())
    }
}

pub proof fn lemma_last_sep(s: Seq<char>)
    ensures
        -1 <= last_sep(s) < s.len(),
    decreases s.len(),
{
    if s.len() > 0 && !(s.last() == ':' || s.last() == '.') {
        lemma_last_sep(s.drop_last());
    }
}

/// The last non-empty piece of `s` split at `:` and `.`
/// (`s.rsplit([':', '.']).find(|p| !p.is_empty())`).
pub open spec fn last_segment(s: Seq<char>) -> Option<Seq<char>>
    decreases s.len(),
{
    let j = last_sep(s);
    proof {
        lemma_last_sep(s);
    }
    let piece = s.skip(j + 1);
    if piece.len() > 0 {
        Some(piece)
    } else if j < 0 {
        None
    } else {
        last_segment(s.take(j))
    }
}

/// Bounds of `last_segment(v[0..to])`.
pub fn last_segment_bounds(v: &[char], to: usize) -> (r: Option<(usize, usize)>)
    requires
        to <= v.len(),
    ensures
        match r {
            Some((a, b)) => a <= b <= to && last_segment(v@.take(to as int)) == Some(
                v@.subrange(a as int, b as int),
            ),
            None => last_segment(v@.take(to as int)) is None,
        },
{
    let mut e = to;
    loop
        invariant
            e <= to <= v.len(),
            last_segment(v@.take(to as int)) == last_segment(v@.take(e as int)),
        decreases e,
    {
        let ghost s = v@.take(e as int);
        let mut j = e;
        while j > 0 && !(v[j - 1] == ':' || v[j - 1] == '.')
            invariant
                j <= e <= v.len(),
                forall|q: int| j <= q < e ==> !(v@[q] == ':' || v@[q] == '.'),
            decreases j,
        {
            j = j - 1;
        }
        // j - 1 is the last separator, or j == 0.
        proof {
            let sep = j - 1;
            // characterise last_sep(s) == sep
            assert(last_sep(s) == sep) by {
                let mut k = e as int;
                lemma_last_sep_at(s, sep);
            }
        }
        if j < e {
            assert(s.skip(j as int) =~= v@.subrange(j as int, e as int));
            return Some((j, e));
        }
        if j == 0 {
            return None;
        }
        assert(s.take(j - 1) =~= v@.take(j - 1));
        e = j - 1;
    }
}

/// `last_sep` is the position of the last separator.
pub proof fn lemma_last_sep_at(s: Seq<char>, k: int)
    requires
        -1 <= k < s.len(),
        forall|q: int| k < q < s.len() ==> !(s[q] == ':' || s[q] == '.'),
        k >= 0 ==> (s[k] == ':' || s[k] == '.'),
    ensures
        last_sep(s) == k,
    decreases s.len(),
{
    if s.len() > 0 && k < s.len() - 1 {
        lemma_last_sep_at(s.drop_last(), k);
    }
}

} // verus!

verus! {

/// Number of leading `c` characters.
pub open spec fn lead_count(s: Seq<char>, c: char) -> nat
    decreases s.len(),
{
    if s.len() > 0 && s[0] == c {
        1 + lead_count(s.drop_first(), c)
    } else {
        0
    }
}

/// Number of trailing `c` characters.
pub open spec fn trail_count(s: Seq<char>, c: char) -> nat
    decreases s.len(),
{
    if s.len() > 0 && s.last() == c {
        1 + trail_count(s.drop_last(), c)
    } else {
        0
    }
}

/// `s.trim_matches(c)`.
pub open spec fn trim_char(s: Seq<char>, c: char) -> Seq<char> {
    let a = s.skip(lead_count(s, c) as int);
    a.take(a.len() - trail_count(a, c))
}

pub proof fn lemma_lead_count(s: Seq<char>, c: char, k: int)
    requires
        0 <= k <= s.len(),
        forall|j: int| 0 <= j < k ==> s[j] == c,
        k < s.len() ==> s[k] != c,
    ensures
        lead_count(s, c) == k,
    decreases s.len(),
{
    if k > 0 {
        lemma_lead_count(s.drop_first(), c, k - 1);
    }
}

pub proof fn lemma_trail_count(s: Seq<char>, c: char, k: int)
    requires
        0 <= k <= s.len(),
        forall|j: int| s.len() - k <= j < s.len() ==> s[j] == c,
        k < s.len() ==> s[s.len() - k - 1] != c,
    ensures
        trail_count(s, c) == k,
    decreases s.len(),
{
    if k > 0 {
        lemma_trail_count(s.drop_last(), c, k - 1);
    }
}

/// `s.trim_matches(c)` on characters.
pub fn trim_char_exec(v: &[char], c: char) -> (r: Vec<char>)
    ensures
        r@ == trim_char(v@, c),
{
    let mut a: usize = 0;
    while a < v.len() && v[a] == c
        invariant
            a <= v.len(),
            forall|j: int| 0 <= j < a ==> v@[j] == c,
        decreases v.len() - a,
    {
        a = a + 1;
    }
    proof {
        lemma_lead_count(v@, c, a as int);
    }
    let mut b: usize = v.len();
    while b > a && v[b - 1] == c
        invariant
            a <= b <= v.len(),
            forall|j: int| b <= j < v.len() ==> v@[j] == c,
        decreases b - a,
    {
        b = b - 1;
    }
    proof {
        let s = v@.skip(a as int);
        assert forall|j: int| s.len() - (v.len() - b) <= j < s.len() implies s[j] == c by {
            assert(s[j] == v@[a + j]);
        }
        if b > a {
            assert(s[s.len() - (v.len() - b) - 1] == v@[b - 1]);
        }
        lemma_trail_count(s, c, (v.len() - b) as int);
        assert(s.take(s.len() - trail_count(s, c)) =~= v@.subrange(a as int, b as int));
    }
    slice_range(v, a, b)
}

} // verus!

verus! {

/// `first_index(v, c)` as an executable: the first `c` in `v`, or `v.len()`.
pub fn line_end_char(v: &[char], c: char) -> (r: usize)
    ensures
        r == first_index(v@, c),
        r <= v.len(),
{
    let r = match find_char(v, c, 0) {
        Some(i) => i,
        None => v.len(),
    };
    proof {
        lemma_first_index_unique(v@, c, r as int);
    }
    r
}

pub proof fn lemma_last_occ_bound(s: Seq<char>, p: Seq<char>)
    ensures
        last_occ(s, p) == -1 || (0 <= last_occ(s, p) && last_occ(s, p) + p.len() <= s.len()),
    decreases s.len(),
{
    if p.len() > 0 && s.len() >= p.len() && s.skip(s.len() - p.len()) != p {
        lemma_last_occ_bound(s.drop_last(), p);
    }
}

/// A copy of an optional string.
pub fn clone_opt_string(o: &Option<String>) -> (r: Option<String>)
    ensures
        r == *o,
{
    match o {
        Some(s) => Some(s.clone()),
        None => None,
    }
}


/// `s.trim_start_matches(c)`.
pub open spec fn strip_lead(s: Seq<char>, c: char) -> Seq<char> {
    s.skip(lead_count(s, c) as int)
}

/// `s.trim_end_matches(c)`.
pub open spec fn strip_trail(s: Seq<char>, c: char) -> Seq<char> {
    s.take(s.len() - trail_count(s, c))
}

/// `s.trim_start_matches(c)` on characters.
pub fn strip_lead_exec(v: &[char], c: char) -> (r: Vec<char>)
    ensures
        r@ == strip_lead(v@, c),
{
    let mut a: usize = 0;
    while a < v.len() && v[a] == c
        invariant
            a <= v.len(),
            forall|j: int| 0 <= j < a ==> v@[j] == c,
        decreases v.len() - a,
    {
        a = a + 1;
    }
    proof {
        lemma_lead_count(v@, c, a as int);
    }
    assert(v@.skip(a as int) =~= v@.subrange(a as int, v.len() as int));
    slice_range(v, a, v.len())
}

/// `s.trim_end_matches(c)` on characters.
pub fn strip_trail_exec(v: &[char], c: char) -> (r: Vec<char>)
    ensures
        r@ == strip_trail(v@, c),
{
    let mut b: usize = v.len();
    while b > 0 && v[b - 1] == c
        invariant
            b <= v.len(),
            forall|j: int| b <= j < v.len() ==> v@[j] == c,
        decreases b,
    {
        b = b - 1;
    }
    proof {
        let s = v@;
        if b > 0 {
            assert(s[s.len() - (v.len() - b) - 1] == v@[b - 1]);
        }
        lemma_trail_count(s, c, (v.len() - b) as int);
        assert(s.take(s.len() - trail_count(s, c)) =~= v@.subrange(0, b as int));
    }
    slice_range(v, 0, b)
}
// ---------------------------------------------------------------------------
// Whitespace-separated tokens
// ---------------------------------------------------------------------------

/// Length of the run of non-whitespace characters that starts `s`.
pub open spec fn token_len(s: Seq<char>) -> nat
    decreases s.len(),
{
    if s.len() == 0 || is_ws(s[0]) {
        0
    } else {
        1 + token_len(s.drop_first())
    }
}

/// The first whitespace-separated token of `s`
/// (`s.split_whitespace().next()`).
pub open spec fn first_token(s: Seq<char>) -> Option<Seq<char>> {
    let t = trim_start(s);
    if t.len() == 0 {
        None
    } else {
        Some(t.take(token_len(t) as int))
    }
}

pub proof fn lemma_token_len(s: Seq<char>, k: int)
    requires
        0 <= k <= s.len(),
        forall|j: int| 0 <= j < k ==> !is_ws(s[j]),
        k < s.len() ==> is_ws(s[k]),
    ensures
        token_len(s) == k,
    decreases s.len(),
{
    if k > 0 {
        lemma_token_len(s.drop_first(), k - 1);
    }
}

pub fn first_token_of(text: &[char]) -> (r: Option<Vec<char>>)
    ensures
        match r {
            Some(v) => first_token(text@) == Some(v@),
            None => first_token(text@) is None,
        },
{
    let a = skip_ws(text, 0, text.len());
    assert(text@.subrange(0, text@.len() as int) =~= text@);
    let ghost t = trim_start(text@);
    assert(t =~= text@.subrange(a as int, text@.len() as int));
    if a == text.len() {
        return None;
    }
    let mut b = a;
    while b < text.len() && !is_whitespace(text[b])
        invariant
            a <= b <= text.len(),
            forall|j: int| a <= j < b ==> !is_ws(text@[j]),
        decreases text.len() - b,
    {
        b = b + 1;
    }
    proof {
        assert forall|j: int| 0 <= j < b - a implies !is_ws(#[trigger] t[j]) by {
            assert(t[j] == text@[a + j]);
        }
        if b < text.len() {
            assert(t[b - a] == text@[b as int]);
        }
        lemma_token_len(t, b - a);
        assert(t.take(b - a) =~= text@.subrange(a as int, b as int));
    }
    Some(slice_range(text, a, b))
}


/// The whitespace-separated tokens of `s` (`s.split_whitespace()`).
pub open spec fn words(s: Seq<char>) -> Seq<Seq<char>>
    decreases s.len(),
{
    let t = trim_start(s);
    if t.len() == 0 {
        seq![]
    } else {
        proof {
            lemma_lead_ws_bound(s);
            assert(t[0] == s[lead_ws(s) as int]);
            lemma_token_positive(t);
        }
        seq![t.take(token_len(t) as int)] + words(t.skip(token_len(t) as int))
    }
}

pub proof fn lemma_token_positive(t: Seq<char>)
    requires
        t.len() > 0,
        !is_ws(t[0]),
    ensures
        0 < token_len(t) <= t.len(),
    decreases t.len(),
{
    lemma_token_bound(t);
}

pub proof fn lemma_token_bound(t: Seq<char>)
    ensures
        token_len(t) <= t.len(),
    decreases t.len(),
{
    if t.len() > 0 && !is_ws(t[0]) {
        lemma_token_bound(t.drop_first());
    }
}

pub proof fn lemma_lead_ws_bound(s: Seq<char>)
    ensures
        lead_ws(s) <= s.len(),
        lead_ws(s) < s.len() ==> !is_ws(s[lead_ws(s) as int]),
    decreases s.len(),
{
    if s.len() > 0 && is_ws(s[0]) {
        lemma_lead_ws_bound(s.drop_first());
        if lead_ws(s) < s.len() {
            assert(s[lead_ws(s) as int] == s.drop_first()[lead_ws(s.drop_first()) as int]);
        }
    }
}

/// The whitespace-separated tokens of `v` (see `words`).
pub fn split_words(v: &[char]) -> (r: Vec<Vec<char>>)
    ensures
        char_views(r@) == words(v@),
{
    let mut out: Vec<Vec<char>> = Vec::new();
    let mut pos: usize = 0;
    assert(v@.skip(0) =~= v@);
    assert(char_views(out@) =~= seq![]);
    while pos < v.len()
        invariant
            pos <= v.len(),
            words(v@) == char_views(out@) + words(v@.skip(pos as int)),
        decreases v.len() - pos,
    {
        let ghost s = v@.skip(pos as int);
        let a = skip_ws(v, pos, v.len());
        assert(v@.subrange(pos as int, v.len() as int) =~= s);
        proof {
            lemma_lead_ws_bound(s);
        }
        if a == v.len() {
            assert(trim_start(s).len() == 0);
            assert(words(s) =~= seq![]);
            assert(char_views(out@) + seq![] =~= char_views(out@));
            pos = a;
        } else {
            let mut b = a;
            while b < v.len() && !is_whitespace(v[b])
                invariant
                    a <= b <= v.len(),
                    forall|j: int| a <= j < b ==> !is_ws(v@[j]),
                decreases v.len() - b,
            {
                b = b + 1;
            }
            let ghost t = trim_start(s);
            proof {
                assert(t =~= v@.skip(a as int));
                assert forall|j: int| 0 <= j < b - a implies !is_ws(#[trigger] t[j]) by {
                    assert(t[j] == v@[a + j]);
                }
                if b < v.len() {
                    assert(t[b - a] == v@[b as int]);
                }
                lemma_token_len(t, b - a);
                assert(t.take(b - a) =~= v@.subrange(a as int, b as int));
                assert(t.skip(b - a) =~= v@.skip(b as int));
            }
            let w = slice_range(v, a, b);
            let ghost before = char_views(out@);
            out.push(w);
            assert(char_views(out@) =~= before.push(w@));
            assert(before + (seq![t.take(b - a)] + words(t.skip(b - a))) =~= before.push(w@)
                + words(v@.skip(b as int)));
            pos = b;
        }
    }
    assert(v@.skip(pos as int) =~= Seq::<char>::empty());
    assert(words(Seq::<char>::empty()) =~= seq![]);
    assert(char_views(out@) + seq![] =~= char_views(out@));
    out
}

/// The order of strings (`Ord for str`, character by character): -1, 0
/// or 1.
pub open spec fn text_order(a: Seq<char>, b: Seq<char>) -> int
    decreases a.len(),
{
    if a.len() == 0 {
        if b.len() == 0 {
            0
        } else {
            -1
        }
    } else if b.len() == 0 {
        1
    } else if a[0] < b[0] {
        -1
    } else if a[0] > b[0] {
        1
    } else {
        text_order(a.drop_first(), b.drop_first())
    }
}

/// The order of two strings (see `text_order`).
pub fn compare_strs(a: &str, b: &str) -> (r: i8)
    ensures
        r == text_order(a@, b@),
{
    let x = chars_of(a);
    let y = chars_of(b);
    let mut i: usize = 0;
    assert(x@.skip(0) =~= x@);
    assert(y@.skip(0) =~= y@);
    while i < x.len() && i < y.len()
        invariant
            i <= x.len(),
            i <= y.len(),
            text_order(a@, b@) == text_order(x@.skip(i as int), y@.skip(i as int)),
            x@ == a@,
            y@ == b@,
        decreases x.len() - i,
    {
        let c = x[i];
        let d = y[i];
        assert(x@.skip(i as int)[0] == c);
        assert(y@.skip(i as int)[0] == d);
        if c < d {
            return -1;
        }
        if c > d {
            return 1;
        }
        assert(x@.skip(i as int).drop_first() =~= x@.skip(i + 1));
        assert(y@.skip(i as int).drop_first() =~= y@.skip(i + 1));
        i = i + 1;
    }
    if i == x.len() && i == y.len() {
        assert(x@.skip(i as int).len() == 0);
        0
    } else if i == x.len() {
        assert(x@.skip(i as int).len() == 0);
        -1
    } else {
        assert(y@.skip(i as int).len() == 0);
        1
    }
}

/// Only equal strings are in order 0.
pub proof fn lemma_text_order_zero(a: Seq<char>, b: Seq<char>)
    ensures
        text_order(a, b) == 0 <==> a == b,
    decreases a.len(),
{
    if a.len() > 0 && b.len() > 0 && a[0] == b[0] {
        lemma_text_order_zero(a.drop_first(), b.drop_first());
        if a.drop_first() == b.drop_first() {
            assert(a =~= seq![a[0]] + a.drop_first());
            assert(b =~= seq![b[0]] + b.drop_first());
        }
    }
    if a.len() == 0 && b.len() == 0 {
        assert(a =~= b);
    }
    if a == b && a.len() > 0 {
        assert(a.drop_first() == b.drop_first());
        lemma_text_order_zero(a.drop_first(), b.drop_first());
    }
}

/// The order is one of -1, 0, 1, and swapping the strings flips it.
pub proof fn lemma_text_order_flip(a: Seq<char>, b: Seq<char>)
    ensures
        -1 <= text_order(a, b) <= 1,
        text_order(b, a) == -text_order(a, b),
    decreases a.len(),
{
    if a.len() > 0 && b.len() > 0 && a[0] == b[0] {
        lemma_text_order_flip(a.drop_first(), b.drop_first());
    }
}

/// Coming before is transitive.
pub proof fn lemma_text_order_trans(a: Seq<char>, b: Seq<char>, c: Seq<char>)
    requires
        text_order(a, b) < 0,
        text_order(b, c) < 0,
    ensures
        text_order(a, c) < 0,
    decreases a.len(),
{
    if a.len() > 0 && b.len() > 0 && c.len() > 0 && a[0] == b[0] && b[0] == c[0] {
        lemma_text_order_trans(a.drop_first(), b.drop_first(), c.drop_first());
    }
}

} // verus!
