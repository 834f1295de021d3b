//! The code map of a project as one JSON object: each file's rows under its
//! path, the type rows under `types`, and `@` when something was left out;
//! cut to a token budget by dropping type rows, then files, then rows of
//! the one file left. The object is a map ordered by key, as
//! `serde_json::Map` is.
use vstd::prelude::*;
use crate::analysis::call_graph::{
    cl100k_tokens, count_cl100k_tokens, first_where, json_literal, lemma_first_where, quote_json,
};
use crate::analysis::code_map::{detail_header, DetailLevel, FileSymbols};
use crate::text::{join, lines, push_str, str_eq, text_order, views};

verus! {

/// The header of the type rows.
pub open spec fn types_header() -> Seq<char> {
    "name|kind|file|line|usage_count"@
}

/// The rows of a file in the map: classes, functions and structs, each
/// joined with newlines; `None` where the key is absent.
pub struct FileRows {
    pub c: Option<String>,
    pub f: Option<String>,
    pub s: Option<String>,
}

/// A value of the map.
pub enum MapValue {
    /// A file's rows.
    File(FileRows),
    /// The type rows, `None` once all were dropped.
    Types(Option<String>),
    /// The mark that something was left out: `{"t":true}`.
    Truncated,
}

/// A key of the map and its value.
pub struct MapEntry {
    pub key: String,
    pub value: MapValue,
}

pub ghost enum ValueView {
    File(Option<Seq<char>>, Option<Seq<char>>, Option<Seq<char>>),
    Types(Option<Seq<char>>),
    Truncated,
}

pub open spec fn opt_view(o: Option<String>) -> Option<Seq<char>> {
    match o {
        Some(s) => Some(s@),
        None => None,
    }
}

impl View for MapValue {
    type V = ValueView;

    open spec fn view(&self) -> ValueView {
        match self {
            MapValue::File(r) => ValueView::File(opt_view(r.c), opt_view(r.f), opt_view(r.s)),
            MapValue::Types(r) => ValueView::Types(opt_view(*r)),
            MapValue::Truncated => ValueView::Truncated,
        }
    }
}

impl View for MapEntry {
    type V = (Seq<char>, ValueView);

    open spec fn view(&self) -> (Seq<char>, ValueView) {
        (self.key@, self.value@)
    }
}

pub type Entries = Seq<(Seq<char>, ValueView)>;

pub open spec fn entry_views(v: Seq<MapEntry>) -> Entries {
    v.map_values(|e: MapEntry| e@)
}

// ---------------------------------------------------------------------------
// JSON
// ---------------------------------------------------------------------------

/// A member `"key":"value"`, both as `serde_json` writes strings.
pub open spec fn mem(k: Seq<char>, v: Seq<char>) -> Option<Seq<char>> {
    match (json_literal(k), json_literal(v)) {
        (Some(a), Some(b)) => Some(a + seq![':'] + b),
        _ => None,
    }
}

/// All members, when each could be written.
pub open spec fn all_some(ms: Seq<Option<Seq<char>>>) -> Option<Seq<Seq<char>>>
    decreases ms.len(),
{
    if ms.len() == 0 {
        Some(seq![])
    } else {
        match (all_some(ms.drop_last()), ms.last()) {
            (Some(p), Some(x)) => Some(p.push(x)),
            _ => None,
        }
    }
}

/// An object of the members, in order.
pub open spec fn obj(ms: Seq<Option<Seq<char>>>) -> Option<Seq<char>> {
    match all_some(ms) {
        Some(xs) => Some(seq!['{'] + join(xs, seq![',']) + seq!['}']),
        None => None,
    }
}

/// The member of a key whose value may be absent.
pub open spec fn opt_mem(k: Seq<char>, v: Option<Seq<char>>) -> Seq<Option<Seq<char>>> {
    match v {
        Some(t) => seq![mem(k, t)],
        None => seq![],
    }
}

/// The JSON of a value; a file's keys in order `c`, `f`, `h`, `s`.
pub open spec fn value_json(v: ValueView, d: DetailLevel) -> Option<Seq<char>> {
    match v {
        ValueView::File(c, f, s) => obj(
            opt_mem("c"@, c) + opt_mem("f"@, f) + seq![mem("h"@, detail_header(d))] + opt_mem("s"@, s),
        ),
        ValueView::Types(rows) => obj(seq![mem("h"@, types_header())] + opt_mem("rows"@, rows)),
        ValueView::Truncated => match json_literal("t"@) {
            Some(a) => Some(seq!['{'] + a + ":true"@ + seq!['}']),
            None => None,
        },
    }
}

/// The member of an entry.
pub open spec fn entry_json(e: (Seq<char>, ValueView), d: DetailLevel) -> Option<Seq<char>> {
    match (json_literal(e.0), value_json(e.1, d)) {
        (Some(a), Some(b)) => Some(a + seq![':'] + b),
        _ => None,
    }
}

/// The JSON of the map, entries in their order.
pub open spec fn map_json(m: Entries, d: DetailLevel) -> Option<Seq<char>> {
    obj(m.map_values(|e: (Seq<char>, ValueView)| entry_json(e, d)))
}

pub proof fn lemma_all_some_prefix(ms: Seq<Option<Seq<char>>>, k: int)
    requires
        0 <= k <= ms.len(),
        all_some(ms.take(k)) is None,
    ensures
        all_some(ms) is None,
    decreases ms.len() - k,
{
    if k < ms.len() {
        assert(ms.take(k + 1).drop_last() =~= ms.take(k));
        lemma_all_some_prefix(ms, k + 1);
    } else {
        assert(ms.take(k) =~= ms);
    }
}

fn lit(s: &str) -> (r: String)
    ensures
        r@ == s@,
{
    let mut out = String::new();
    push_str(&mut out, s);
    out
}

fn mem_exec(k: &str, v: &str) -> (r: Option<String>)
    ensures
        opt_view(r) == mem(k@, v@),
{
    match (quote_json(k), quote_json(v)) {
        (Some(a), Some(b)) => {
            let mut out = a;
            crate::text::push_char(&mut out, ':');
            push_str(&mut out, b.as_str());
            Some(out)
        },
        _ => None,
    }
}

fn obj_exec(ms: &Vec<Option<String>>) -> (r: Option<String>)
    ensures
        opt_view(r) == obj(ms@.map_values(|m: Option<String>| opt_view(m))),
{
    let ghost mv = ms@.map_values(|m: Option<String>| opt_view(m));
    let mut parts: Vec<String> = Vec::new();
    let mut i: usize = 0;
    assert(mv.take(0) =~= seq![]);
    while i < ms.len()
        invariant
            i <= ms.len(),
            mv == ms@.map_values(|m: Option<String>| opt_view(m)),
            all_some(mv.take(i as int)) == Some(views(parts@)),
        decreases ms.len() - i,
    {
        assert(mv.take(i + 1).drop_last() =~= mv.take(i as int));
        assert(mv.take(i + 1).last() == opt_view(ms@[i as int]));
        match &ms[i] {
            Some(x) => {
                let ghost b = views(parts@);
                parts.push(lit(x.as_str()));
                assert(views(parts@) =~= b.push(x@));
            },
            None => {
                proof {
                    lemma_all_some_prefix(mv, i + 1);
                }
                return None;
            },
        }
        i = i + 1;
    }
    assert(mv.take(ms.len() as int) =~= mv);
    let mut out = String::new();
    crate::text::push_char(&mut out, '{');
    let body = crate::text::join_strings(&parts, ",");
    proof {
        reveal_strlit(",");
        assert(","@ =~= seq![',']);
    }
    push_str(&mut out, body.as_str());
    crate::text::push_char(&mut out, '}');
    assert(out@ =~= seq!['{'] + join(views(parts@), seq![',']) + seq!['}']);
    Some(out)
}

fn push_opt_mem(ms: &mut Vec<Option<String>>, k: &str, v: &Option<String>)
    ensures
        final(ms)@.map_values(|m: Option<String>| opt_view(m)) == old(ms)@.map_values(
            |m: Option<String>| opt_view(m),
        ) + opt_mem(k@, opt_view(*v)),
{
    let ghost b = ms@.map_values(|m: Option<String>| opt_view(m));
    match v {
        Some(t) => {
            ms.push(mem_exec(k, t.as_str()));
            assert(ms@.map_values(|m: Option<String>| opt_view(m)) =~= b + seq![mem(k@, t@)]);
        },
        None => {
            assert(ms@.map_values(|m: Option<String>| opt_view(m)) =~= b + seq![]);
        },
    }
}

fn value_json_exec(v: &MapValue, d: DetailLevel) -> (r: Option<String>)
    ensures
        opt_view(r) == value_json(v@, d),
{
    match v {
        MapValue::File(rows) => {
            let mut ms: Vec<Option<String>> = Vec::new();
            assert(ms@.map_values(|m: Option<String>| opt_view(m)) =~= seq![]);
            push_opt_mem(&mut ms, "c", &rows.c);
            push_opt_mem(&mut ms, "f", &rows.f);
            let ghost b = ms@.map_values(|m: Option<String>| opt_view(m));
            ms.push(mem_exec("h", d.header()));
            assert(ms@.map_values(|m: Option<String>| opt_view(m)) =~= b + seq![mem("h"@, detail_header(d))]);
            push_opt_mem(&mut ms, "s", &rows.s);
            assert(ms@.map_values(|m: Option<String>| opt_view(m)) =~= opt_mem("c"@, opt_view(rows.c))
                + opt_mem("f"@, opt_view(rows.f)) + seq![mem("h"@, detail_header(d))] + opt_mem(
                "s"@,
                opt_view(rows.s),
            ));
            obj_exec(&ms)
        },
        MapValue::Types(rows) => {
            let mut ms: Vec<Option<String>> = Vec::new();
            ms.push(mem_exec("h", "name|kind|file|line|usage_count"));
            assert(ms@.map_values(|m: Option<String>| opt_view(m)) =~= seq![mem("h"@, types_header())]);
            push_opt_mem(&mut ms, "rows", rows);
            obj_exec(&ms)
        },
        MapValue::Truncated => match quote_json("t") {
            Some(a) => {
                let mut out = String::new();
                crate::text::push_char(&mut out, '{');
                push_str(&mut out, a.as_str());
                push_str(&mut out, ":true");
                crate::text::push_char(&mut out, '}');
                assert(out@ =~= seq!['{'] + a@ + ":true"@ + seq!['}']);
                Some(out)
            },
            None => None,
        },
    }
}

fn map_json_exec(m: &Vec<MapEntry>, d: DetailLevel) -> (r: Option<String>)
    ensures
        opt_view(r) == map_json(entry_views(m@), d),
{
    let ghost ev = entry_views(m@);
    let mut ms: Vec<Option<String>> = Vec::new();
    let mut i: usize = 0;
    while i < m.len()
        invariant
            i <= m.len(),
            ev == entry_views(m@),
            ms@.map_values(|x: Option<String>| opt_view(x)) == ev.take(i as int).map_values(
                |e: (Seq<char>, ValueView)| entry_json(e, d),
            ),
        decreases m.len() - i,
    {
        let ghost b = ms@.map_values(|x: Option<String>| opt_view(x));
        let e = &m[i];
        let member = match (quote_json(e.key.as_str()), value_json_exec(&e.value, d)) {
            (Some(a), Some(v)) => {
                let mut out = a;
                crate::text::push_char(&mut out, ':');
                push_str(&mut out, v.as_str());
                assert(out@ =~= a@ + seq![':'] + v@);
                Some(out)
            },
            _ => None,
        };
        assert(opt_view(member) == entry_json(ev[i as int], d));
        ms.push(member);
        assert(ms@.map_values(|x: Option<String>| opt_view(x)) =~= b.push(entry_json(ev[i as int], d)));
        assert(ev.take(i + 1).map_values(|e: (Seq<char>, ValueView)| entry_json(e, d)) =~= ev.take(
            i as int,
        ).map_values(|e: (Seq<char>, ValueView)| entry_json(e, d)).push(entry_json(ev[i as int], d)));
        i = i + 1;
    }
    assert(ev.take(m.len() as int) =~= ev);
    obj_exec(&ms)
}

// ---------------------------------------------------------------------------
// The map
// ---------------------------------------------------------------------------

pub open spec fn key_is(k: Seq<char>) -> spec_fn((Seq<char>, ValueView)) -> bool {
    |e: (Seq<char>, ValueView)| e.0 == k
}

pub open spec fn key_after(k: Seq<char>) -> spec_fn((Seq<char>, ValueView)) -> bool {
    |e: (Seq<char>, ValueView)| text_order(k, e.0) < 0
}

/// `insert`: the value of a key present is replaced; a new key goes
/// before the first key after it.
pub open spec fn put(m: Entries, k: Seq<char>, v: ValueView) -> Entries {
    match first_where(m, key_is(k)) {
        Some(i) => m.update(i, (k, v)),
        None => match first_where(m, key_after(k)) {
            Some(i) => m.insert(i, (k, v)),
            None => m.push((k, v)),
        },
    }
}

/// `remove`: the entry of a key, if present, leaves.
pub open spec fn remove_key(m: Entries, k: Seq<char>) -> Entries {
    match first_where(m, key_is(k)) {
        Some(i) => m.remove(i),
        None => m,
    }
}

/// `get`: the value of a key.
pub open spec fn get(m: Entries, k: Seq<char>) -> Option<ValueView> {
    match first_where(m, key_is(k)) {
        Some(i) => Some(m[i].1),
        None => None,
    }
}

fn key_index(m: &Vec<MapEntry>, k: &str) -> (r: Option<usize>)
    ensures
        match r {
            Some(i) => first_where(entry_views(m@), key_is(k@)) == Some(i as int),
            None => first_where(entry_views(m@), key_is(k@)) is None,
        },
{
    let ghost ev = entry_views(m@);
    proof {
        lemma_first_where(ev, key_is(k@));
    }
    let mut i: usize = 0;
    while i < m.len()
        invariant
            i <= m.len(),
            ev == entry_views(m@),
            forall|j: int| 0 <= j < i ==> !key_is(k@)(#[trigger] ev[j]),
            match first_where(ev, key_is(k@)) {
                Some(x) => 0 <= x < ev.len() && key_is(k@)(ev[x]) && forall|j: int|
                    0 <= j < x ==> !key_is(k@)(#[trigger] ev[j]),
                None => forall|j: int| 0 <= j < ev.len() ==> !key_is(k@)(#[trigger] ev[j]),
            },
        decreases m.len() - i,
    {
        if str_eq(m[i].key.as_str(), k) {
            assert(key_is(k@)(ev[i as int]));
            proof {
                match first_where(ev, key_is(k@)) {
                    Some(x) => {
                        if x < i as int {
                            assert(!key_is(k@)(ev[x]));
                        } else if x > i as int {
                            assert(!key_is(k@)(ev[i as int]));
                        }
                    },
                    None => {
                        assert(!key_is(k@)(ev[i as int]));
                    },
                }
            }
            return Some(i);
        }
        assert(!key_is(k@)(ev[i as int]));
        i = i + 1;
    }
    proof {
        if let Some(x) = first_where(ev, key_is(k@)) {
            assert(!key_is(k@)(ev[x]));
        }
    }
    None
}

fn after_index(m: &Vec<MapEntry>, k: &str) -> (r: Option<usize>)
    ensures
        match r {
            Some(i) => first_where(entry_views(m@), key_after(k@)) == Some(i as int),
            None => first_where(entry_views(m@), key_after(k@)) is None,
        },
{
    let ghost ev = entry_views(m@);
    proof {
        lemma_first_where(ev, key_after(k@));
    }
    let mut i: usize = 0;
    while i < m.len()
        invariant
            i <= m.len(),
            ev == entry_views(m@),
            forall|j: int| 0 <= j < i ==> !key_after(k@)(#[trigger] ev[j]),
            match first_where(ev, key_after(k@)) {
                Some(x) => 0 <= x < ev.len() && key_after(k@)(ev[x]) && forall|j: int|
                    0 <= j < x ==> !key_after(k@)(#[trigger] ev[j]),
                None => forall|j: int| 0 <= j < ev.len() ==> !key_after(k@)(#[trigger] ev[j]),
            },
        decreases m.len() - i,
    {
        if crate::text::compare_strs(k, m[i].key.as_str()) < 0 {
            assert(key_after(k@)(ev[i as int]));
            proof {
                match first_where(ev, key_after(k@)) {
                    Some(x) => {
                        if x < i as int {
                            assert(!key_after(k@)(ev[x]));
                        } else if x > i as int {
                            assert(!key_after(k@)(ev[i as int]));
                        }
                    },
                    None => {
                        assert(!key_after(k@)(ev[i as int]));
                    },
                }
            }
            return Some(i);
        }
        assert(!key_after(k@)(ev[i as int]));
        i = i + 1;
    }
    proof {
        if let Some(x) = first_where(ev, key_after(k@)) {
            assert(!key_after(k@)(ev[x]));
        }
    }
    None
}

fn put_exec(m: &mut Vec<MapEntry>, k: String, v: MapValue)
    ensures
        entry_views(final(m)@) == put(entry_views(old(m)@), k@, v@),
{
    let ghost ev = entry_views(m@);
    let ghost e = (k@, v@);
    proof {
        lemma_first_where(ev, key_is(k@));
        lemma_first_where(ev, key_after(k@));
    }
    match key_index(m, k.as_str()) {
        Some(i) => {
            m.remove(i);
            m.insert(i, MapEntry { key: k, value: v });
            assert(entry_views(m@) =~= ev.update(i as int, e));
        },
        None => match after_index(m, k.as_str()) {
            Some(i) => {
                m.insert(i, MapEntry { key: k, value: v });
                assert(entry_views(m@) =~= ev.insert(i as int, e));
            },
            None => {
                m.push(MapEntry { key: k, value: v });
                assert(entry_views(m@) =~= ev.push(e));
            },
        },
    }
}

fn remove_exec(m: &mut Vec<MapEntry>, k: &str)
    ensures
        entry_views(final(m)@) == remove_key(entry_views(old(m)@), k@),
{
    let ghost ev = entry_views(m@);
    proof {
        lemma_first_where(ev, key_is(k@));
    }
    match key_index(m, k) {
        Some(i) => {
            m.remove(i);
            assert(entry_views(m@) =~= ev.remove(i as int));
        },
        None => {},
    }
}

// ---------------------------------------------------------------------------
// Sizes, which every step of the cut makes smaller
// ---------------------------------------------------------------------------

pub open spec fn rows_size(o: Option<Seq<char>>) -> nat {
    match o {
        Some(t) => t.len() + 1,
        None => 0,
    }
}

pub open spec fn value_size(v: ValueView) -> nat {
    match v {
        ValueView::File(c, f, s) => rows_size(c) + rows_size(f) + rows_size(s),
        ValueView::Types(r) => rows_size(r),
        ValueView::Truncated => 0,
    }
}

pub open spec fn total_size(m: Entries) -> nat
    decreases m.len(),
{
    if m.len() == 0 {
        0
    } else {
        total_size(m.drop_last()) + value_size(m.last().1)
    }
}

pub proof fn lemma_total_size_update(m: Entries, i: int, e: (Seq<char>, ValueView))
    requires
        0 <= i < m.len(),
    ensures
        total_size(m.update(i, e)) + value_size(m[i].1) == total_size(m) + value_size(e.1),
    decreases m.len(),
{
    if i == m.len() - 1 {
        assert(m.update(i, e).drop_last() =~= m.drop_last());
    } else {
        assert(m.update(i, e).drop_last() =~= m.drop_last().update(i, e));
        lemma_total_size_update(m.drop_last(), i, e);
    }
}

/// Putting a smaller value under a key present makes the map smaller.
pub proof fn lemma_put_smaller(m: Entries, k: Seq<char>, v: ValueView)
    requires
        get(m, k) matches Some(old_v) && value_size(v) < value_size(old_v),
    ensures
        total_size(put(m, k, v)) < total_size(m),
{
    lemma_first_where(m, key_is(k));
    let i = first_where(m, key_is(k)).unwrap();
    lemma_total_size_update(m, i, (k, v));
}

/// The rows with their last line dropped: `lines`, all but the last,
/// joined with newlines.
pub open spec fn without_last_line(t: Seq<char>) -> Seq<char> {
    join(lines(t).drop_last(), seq!['\n'])
}

pub proof fn lemma_join_front(a: Seq<char>, rest: Seq<Seq<char>>, sep: Seq<char>)
    requires
        rest.len() > 0,
    ensures
        join(seq![a] + rest, sep).len() == a.len() + sep.len() + join(rest, sep).len(),
    decreases rest.len(),
{
    let all = seq![a] + rest;
    assert(join(all, sep) == join(all.drop_last(), sep) + sep + all.last());
    if rest.len() == 1 {
        assert(all.drop_last() =~= seq![a]);
        assert(all.last() == rest[0]);
        assert(join(seq![a], sep) == a);
        assert(join(rest, sep) == rest[0]);
    } else {
        assert(all.drop_last() =~= seq![a] + rest.drop_last());
        assert(all.last() == rest.last());
        lemma_join_front(a, rest.drop_last(), sep);
        assert(join(rest, sep) == join(rest.drop_last(), sep) + sep + rest.last());
    }
}

pub proof fn lemma_join_lines_len(t: Seq<char>)
    ensures
        join(lines(t), seq!['\n']).len() <= t.len(),
        t.len() > 0 ==> lines(t).len() > 0,
    decreases t.len(),
{
    if t.len() > 0 {
        let i = crate::text::first_index(t, '\n');
        if i < t.len() {
            crate::text::lemma_first_index(t, '\n');
            let rest = t.skip(i + 1);
            lemma_join_lines_len(rest);
            let a = crate::text::strip_cr(t.take(i));
            assert(lines(t) == seq![a] + lines(rest));
            if lines(rest).len() > 0 {
                lemma_join_front(a, lines(rest), seq!['\n']);
            } else {
                assert(seq![a] + lines(rest) =~= seq![a]);
            }
        }
    }
}

pub proof fn lemma_without_last_line_shorter(t: Seq<char>)
    requires
        t.len() > 0,
    ensures
        without_last_line(t).len() < t.len(),
{
    lemma_join_lines_len(t);
    let ls = lines(t);
    if ls.len() >= 2 {
        assert(join(ls, seq!['\n']) == join(ls.drop_last(), seq!['\n']) + seq!['\n'] + ls.last());
    }
}

// ---------------------------------------------------------------------------
// Cutting
// ---------------------------------------------------------------------------

/// Why the map could not be written.
#[derive(Debug, Clone, Copy, PartialEq, Eq, Structural)]
pub enum MapError {
    /// A text could not be written as JSON.
    Json,
    /// The tokenizer failed.
    Tokenizer,
}

/// A key of a file's rows.
#[derive(Debug, Clone, Copy, PartialEq, Eq, Structural)]
pub enum RowKey {
    F,
    S,
    C,
}

/// `rows.lines().count()`, none for empty rows.
pub open spec fn line_count(t: Seq<char>) -> nat {
    if t.len() == 0 {
        0
    } else {
        lines(t).len()
    }
}

pub open spec fn rows_at(c: Option<Seq<char>>, f: Option<Seq<char>>, s: Option<Seq<char>>, k: RowKey) -> Option<
    Seq<char>,
> {
    match k {
        RowKey::F => f,
        RowKey::S => s,
        RowKey::C => c,
    }
}

pub open spec fn with_rows(
    c: Option<Seq<char>>,
    f: Option<Seq<char>>,
    s: Option<Seq<char>>,
    k: RowKey,
    new: Option<Seq<char>>,
) -> ValueView {
    match k {
        RowKey::F => ValueView::File(c, new, s),
        RowKey::S => ValueView::File(c, f, new),
        RowKey::C => ValueView::File(new, f, s),
    }
}

pub open spec fn better(best: Option<(RowKey, nat)>, k: RowKey, rows: Option<Seq<char>>) -> Option<(RowKey, nat)> {
    match rows {
        Some(t) => match best {
            Some(b) => if line_count(t) > b.1 {
                Some((k, line_count(t)))
            } else {
                best
            },
            None => Some((k, line_count(t))),
        },
        None => best,
    }
}

/// The key whose rows are cut: among `f`, `s` and `c` present, the one
/// with the most lines, the first on ties.
pub open spec fn pick_key(c: Option<Seq<char>>, f: Option<Seq<char>>, s: Option<Seq<char>>) -> Option<RowKey> {
    match better(better(better(None, RowKey::F, f), RowKey::S, s), RowKey::C, c) {
        Some(b) => Some(b.0),
        None => None,
    }
}

/// The text `{"_":<value>}` whose tokens decide whether a whole table goes
/// too; empty where it cannot be written.
pub open spec fn snapshot_text(v: ValueView, d: DetailLevel) -> Seq<char> {
    match (json_literal("_"@), value_json(v, d)) {
        (Some(a), Some(j)) => seq!['{'] + a + seq![':'] + j + seq!['}'],
        _ => seq![],
    }
}

/// The first table present of `c`, `s`, `f` dropped.
pub open spec fn drop_table(v: ValueView) -> ValueView {
    match v {
        ValueView::File(c, f, s) => if c is Some {
            ValueView::File(None, f, s)
        } else if s is Some {
            ValueView::File(c, f, None)
        } else if f is Some {
            ValueView::File(c, None, s)
        } else {
            v
        },
        _ => v,
    }
}

/// One cut of the file left alone in the map: the last line of its largest
/// table dropped (the table, when empty or left empty), and a whole table
/// too when the file is still over the budget on its own; `Ok(None)` when
/// there is nothing to cut.
pub open spec fn shrink_file(v: ValueView, d: DetailLevel, max: usize) -> Result<Option<ValueView>, MapError> {
    match v {
        ValueView::File(c, f, s) => match pick_key(c, f, s) {
            None => Ok(None),
            Some(k) => match rows_at(c, f, s, k) {
                None => Ok(None),
                Some(r) => if r.len() == 0 {
                    Ok(Some(with_rows(c, f, s, k, None)))
                } else {
                    let n = without_last_line(r);
                    let v1 = with_rows(c, f, s, k, if n.len() == 0 { None } else { Some(n) });
                    match cl100k_tokens(snapshot_text(v1, d)) {
                        None => Err(MapError::Tokenizer),
                        Some(t) => if t > max {
                            Ok(Some(drop_table(v1)))
                        } else {
                            Ok(Some(v1))
                        },
                    }
                },
            },
        },
        _ => Ok(None),
    }
}

/// The type rows with their last line dropped (`rows` left out once no
/// line is left); none when there are no rows to cut.
pub open spec fn shrunk_types(v: ValueView) -> Option<ValueView> {
    match v {
        ValueView::Types(Some(r)) => if r.len() == 0 {
            None
        } else if lines(r).drop_last().len() == 0 {
            Some(ValueView::Types(None))
        } else {
            Some(ValueView::Types(Some(without_last_line(r))))
        },
        _ => None,
    }
}

pub proof fn lemma_shrink_smaller(v: ValueView, d: DetailLevel, max: usize)
    ensures
        shrink_file(v, d, max) matches Ok(Some(v2)) ==> value_size(v2) < value_size(v),
        shrunk_types(v) matches Some(v2) ==> value_size(v2) < value_size(v),
{
    if let ValueView::Types(Some(r)) = v {
        if r.len() > 0 {
            lemma_without_last_line_shorter(r);
        }
    }
    if let ValueView::File(c, f, s) = v {
        if let Some(k) = pick_key(c, f, s) {
            if let Some(r) = rows_at(c, f, s, k) {
                if r.len() > 0 {
                    lemma_without_last_line_shorter(r);
                }
            }
        }
    }
}

/// The cut to `max` tokens: while the map's JSON is over the budget, a
/// type row goes (when types are shown and rows are left), else the last
/// file added, else a cut of the one file left (see `shrink_file`);
/// anything cut marks the map truncated. It stops when the map fits, or
/// when nothing is left to cut.
pub open spec fn enforce(
    m: Entries,
    ordered: Seq<Seq<char>>,
    truncated: bool,
    d: DetailLevel,
    max: usize,
    with_types: bool,
) -> Result<(Entries, bool), MapError>
    decreases ordered.len(), total_size(m),
{
    match map_json(m, d) {
        None => Err(MapError::Json),
        Some(text) => match cl100k_tokens(text) {
            None => Err(MapError::Tokenizer),
            Some(n) => if n <= max {
                Ok((m, truncated))
            } else if with_types && get(m, "types"@) is Some && shrunk_types(get(m, "types"@).unwrap()) is Some {
                let v2 = shrunk_types(get(m, "types"@).unwrap()).unwrap();
                proof {
                    lemma_shrink_smaller(get(m, "types"@).unwrap(), d, max);
                    lemma_put_smaller(m, "types"@, v2);
                }
                enforce(put(m, "types"@, v2), ordered, true, d, max, with_types)
            } else if ordered.len() > 1 {
                enforce(remove_key(m, ordered.last()), ordered.drop_last(), true, d, max, with_types)
            } else if ordered.len() == 0 {
                Ok((m, truncated))
            } else {
                match get(m, ordered[0]) {
                    None => Ok((m, truncated)),
                    Some(v) => match shrink_file(v, d, max) {
                        Err(e) => Err(e),
                        Ok(None) => Ok((m, true)),
                        Ok(Some(v2)) => {
                            proof {
                                lemma_shrink_smaller(v, d, max);
                                lemma_put_smaller(m, ordered[0], v2);
                            }
                            enforce(put(m, ordered[0], v2), ordered, true, d, max, with_types)
                        },
                    },
                }
            },
        },
    }
}

// ---------------------------------------------------------------------------
// Cutting, executed
// ---------------------------------------------------------------------------

pub open spec fn file_view(r: FileRows) -> ValueView {
    ValueView::File(opt_view(r.c), opt_view(r.f), opt_view(r.s))
}

fn copy_opt(o: &Option<String>) -> (r: Option<String>)
    ensures
        opt_view(r) == opt_view(*o),
{
    match o {
        Some(t) => Some(lit(t.as_str())),
        None => None,
    }
}

fn line_count_exec(t: &str) -> (r: usize)
    ensures
        r == line_count(t@),
{
    let v = crate::text::chars_of(t);
    if v.len() == 0 {
        0
    } else {
        crate::text::line_bounds(v.as_slice()).len()
    }
}

/// The rows without their last line, and how many lines are left.
fn without_last_line_exec(t: &str) -> (r: (String, usize))
    requires
        t@.len() > 0,
    ensures
        r.0@ == without_last_line(t@),
        r.1 == lines(t@).drop_last().len(),
{
    let v = crate::text::chars_of(t);
    let bounds = crate::text::line_bounds(v.as_slice());
    let ghost ls = lines(v@);
    proof {
        lemma_join_lines_len(v@);
    }
    let n: usize = if bounds.len() > 0 {
        bounds.len() - 1
    } else {
        0
    };
    let mut parts: Vec<String> = Vec::new();
    let mut i: usize = 0;
    while i < n
        invariant
            i <= n,
            n <= bounds@.len(),
            ls == lines(v@),
            bounds@.len() == ls.len(),
            forall|k: int|
                0 <= k < bounds@.len() ==> {
                    &&& (#[trigger] bounds@[k]).0 <= bounds@[k].1 <= v@.len()
                    &&& v@.subrange(bounds@[k].0 as int, bounds@[k].1 as int) == ls[k]
                },
            views(parts@) == ls.take(i as int),
        decreases n - i,
    {
        let (a, b) = bounds[i];
        let piece = crate::text::string_of(crate::text::slice_range(v.as_slice(), a, b).as_slice());
        let ghost before = views(parts@);
        parts.push(piece);
        assert(views(parts@) =~= before.push(ls[i as int]));
        assert(ls.take(i + 1) =~= ls.take(i as int).push(ls[i as int]));
        i = i + 1;
    }
    assert(ls.take(n as int) =~= ls.drop_last());
    let joined = crate::text::join_strings(&parts, "\n");
    proof {
        reveal_strlit("\n");
        assert("\n"@ =~= seq!['\n']);
    }
    (joined, n)
}

fn with_rows_exec(rows: &FileRows, k: RowKey, new: Option<String>) -> (r: FileRows)
    ensures
        file_view(r) == with_rows(opt_view(rows.c), opt_view(rows.f), opt_view(rows.s), k, opt_view(new)),
{
    match k {
        RowKey::F => FileRows { c: copy_opt(&rows.c), f: new, s: copy_opt(&rows.s) },
        RowKey::S => FileRows { c: copy_opt(&rows.c), f: copy_opt(&rows.f), s: new },
        RowKey::C => FileRows { c: new, f: copy_opt(&rows.f), s: copy_opt(&rows.s) },
    }
}

fn better_exec(best: Option<(RowKey, usize)>, k: RowKey, rows: &Option<String>) -> (r: Option<(RowKey, usize)>)
    ensures
        match (r, better(
            match best {
                Some(b) => Some((b.0, b.1 as nat)),
                None => None,
            },
            k,
            opt_view(*rows),
        )) {
            (Some(x), Some(y)) => x.0 == y.0 && x.1 == y.1,
            (None, None) => true,
            _ => false,
        },
{
    match rows {
        Some(t) => {
            let n = line_count_exec(t.as_str());
            match best {
                Some(b) => if n > b.1 {
                    Some((k, n))
                } else {
                    best
                },
                None => Some((k, n)),
            }
        },
        None => best,
    }
}

fn pick_key_exec(rows: &FileRows) -> (r: Option<RowKey>)
    ensures
        r == pick_key(opt_view(rows.c), opt_view(rows.f), opt_view(rows.s)),
{
    let b0 = better_exec(None, RowKey::F, &rows.f);
    let b1 = better_exec(b0, RowKey::S, &rows.s);
    let b2 = better_exec(b1, RowKey::C, &rows.c);
    match b2 {
        Some(b) => Some(b.0),
        None => None,
    }
}

fn rows_at_exec(rows: &FileRows, k: RowKey) -> (r: Option<String>)
    ensures
        opt_view(r) == rows_at(opt_view(rows.c), opt_view(rows.f), opt_view(rows.s), k),
{
    match k {
        RowKey::F => copy_opt(&rows.f),
        RowKey::S => copy_opt(&rows.s),
        RowKey::C => copy_opt(&rows.c),
    }
}

fn snapshot_exec(rows: &FileRows, d: DetailLevel) -> (r: String)
    ensures
        r@ == snapshot_text(file_view(*rows), d),
{
    let v = MapValue::File(FileRows { c: copy_opt(&rows.c), f: copy_opt(&rows.f), s: copy_opt(&rows.s) });
    match (quote_json("_"), value_json_exec(&v, d)) {
        (Some(a), Some(j)) => {
            let mut out = String::new();
            crate::text::push_char(&mut out, '{');
            push_str(&mut out, a.as_str());
            crate::text::push_char(&mut out, ':');
            push_str(&mut out, j.as_str());
            crate::text::push_char(&mut out, '}');
            assert(out@ =~= seq!['{'] + a@ + seq![':'] + j@ + seq!['}']);
            out
        },
        _ => String::new(),
    }
}

fn drop_table_exec(rows: FileRows) -> (r: FileRows)
    ensures
        file_view(r) == drop_table(file_view(rows)),
{
    if rows.c.is_some() {
        FileRows { c: None, f: rows.f, s: rows.s }
    } else if rows.s.is_some() {
        FileRows { c: rows.c, f: rows.f, s: None }
    } else if rows.f.is_some() {
        FileRows { c: rows.c, f: None, s: rows.s }
    } else {
        rows
    }
}

/// One cut of the file left alone in the map (see `shrink_file`).
fn shrink_file_exec(rows: &FileRows, d: DetailLevel, max: usize) -> (r: Result<Option<FileRows>, MapError>)
    ensures
        match r {
            Ok(Some(x)) => shrink_file(file_view(*rows), d, max) == Ok::<Option<ValueView>, MapError>(
                Some(file_view(x)),
            ),
            Ok(None) => shrink_file(file_view(*rows), d, max) == Ok::<Option<ValueView>, MapError>(None),
            Err(e) => shrink_file(file_view(*rows), d, max) == Err::<Option<ValueView>, MapError>(e),
        },
{
    let k = match pick_key_exec(rows) {
        Some(k) => k,
        None => return Ok(None),
    };
    let r = match rows_at_exec(rows, k) {
        Some(r) => r,
        None => return Ok(None),
    };
    if r.as_str().is_empty() {
        return Ok(Some(with_rows_exec(rows, k, None)));
    }
    let (n, _) = without_last_line_exec(r.as_str());
    let new = if n.as_str().is_empty() {
        None
    } else {
        Some(n)
    };
    let v1 = with_rows_exec(rows, k, new);
    let snap = snapshot_exec(&v1, d);
    match count_cl100k_tokens(snap.as_str()) {
        None => Err(MapError::Tokenizer),
        Some(t) => if t > max {
            Ok(Some(drop_table_exec(v1)))
        } else {
            Ok(Some(v1))
        },
    }
}

/// The cut to `max` tokens (see `enforce`), on the map and the files in
/// the order they were added; the result says whether the map is
/// truncated.
pub fn enforce_budget(
    m: &mut Vec<MapEntry>,
    ordered: &mut Vec<String>,
    truncated: bool,
    d: DetailLevel,
    max: usize,
    with_types: bool,
) -> (r: Result<bool, MapError>)
    ensures
        match enforce(entry_views(old(m)@), views(old(ordered)@), truncated, d, max, with_types) {
            Ok((m2, t2)) => r == Ok::<bool, MapError>(t2) && entry_views(final(m)@) == m2,
            Err(e) => r == Err::<bool, MapError>(e),
        },
{
    let ghost goal = enforce(entry_views(m@), views(ordered@), truncated, d, max, with_types);
    let mut tr = truncated;
    loop
        invariant
            goal == enforce(entry_views(old(m)@), views(old(ordered)@), truncated, d, max, with_types),
            goal == enforce(entry_views(m@), views(ordered@), tr, d, max, with_types),
        decreases ordered@.len(), total_size(entry_views(m@)),
    {
        let ghost mv = entry_views(m@);
        let ghost ov = views(ordered@);
        let text = match map_json_exec(m, d) {
            Some(t) => t,
            None => return Err(MapError::Json),
        };
        let n = match count_cl100k_tokens(text.as_str()) {
            Some(n) => n,
            None => return Err(MapError::Tokenizer),
        };
        if n <= max {
            return Ok(tr);
        }
        if with_types {
            match key_index(m, "types") {
                Some(i) => {
                    proof {
                        lemma_first_where(mv, key_is("types"@));
                    }
                    let cut: Option<Option<String>> = match &m[i].value {
                        MapValue::Types(Some(r)) => if r.as_str().is_empty() {
                            None
                        } else {
                            let (w, left) = without_last_line_exec(r.as_str());
                            if left == 0 {
                                Some(None)
                            } else {
                                Some(Some(w))
                            }
                        },
                        _ => None,
                    };
                    match cut {
                        Some(new) => {
                            let ghost v2 = ValueView::Types(opt_view(new));
                            assert(shrunk_types(get(mv, "types"@).unwrap()) == Some(v2));
                            proof {
                                lemma_shrink_smaller(get(mv, "types"@).unwrap(), d, max);
                                lemma_put_smaller(mv, "types"@, v2);
                            }
                            put_exec(m, lit("types"), MapValue::Types(new));
                            tr = true;
                            continue;
                        },
                        None => {
                            assert(shrunk_types(get(mv, "types"@).unwrap()) is None);
                        },
                    }
                },
                None => {},
            }
        }
        if ordered.len() > 1 {
            let last = ordered.pop().unwrap();
            assert(views(ordered@) =~= ov.drop_last());
            remove_exec(m, last.as_str());
            tr = true;
            continue;
        }
        if ordered.len() == 0 {
            return Ok(tr);
        }
        let only = lit(ordered[0].as_str());
        assert(only@ == ov[0]);
        match key_index(m, only.as_str()) {
            None => {
                return Ok(tr);
            },
            Some(i) => {
                proof {
                    lemma_first_where(mv, key_is(only@));
                }
                let shrunk = match &m[i].value {
                    MapValue::File(rows) => {
                        assert(get(mv, only@) == Some(file_view(*rows)));
                        match shrink_file_exec(rows, d, max) {
                            Err(e) => return Err(e),
                            Ok(None) => return Ok(true),
                            Ok(Some(nr)) => nr,
                        }
                    },
                    _ => {
                        return Ok(true);
                    },
                };
                let ghost v2 = file_view(shrunk);
                proof {
                    lemma_shrink_smaller(get(mv, only@).unwrap(), d, max);
                    lemma_put_smaller(mv, only@, v2);
                }
                put_exec(m, only, MapValue::File(shrunk));
                tr = true;
            },
        }
    }
}

// ---------------------------------------------------------------------------
// The code map
// ---------------------------------------------------------------------------

/// Rows joined with newlines, none when there are no rows.
pub open spec fn rows_opt(x: Seq<Seq<char>>) -> Option<Seq<char>> {
    if x.len() > 0 {
        Some(join(x, seq!['\n']))
    } else {
        None
    }
}

/// The value of a file: its class, function and struct rows.
pub open spec fn file_value(f: crate::analysis::code_map::FileView) -> ValueView {
    ValueView::File(rows_opt(f.3), rows_opt(f.1), rows_opt(f.2))
}

/// The files put into the map in order.
pub open spec fn put_files(m: Entries, fs: Seq<crate::analysis::code_map::FileView>) -> Entries
    decreases fs.len(),
{
    if fs.len() == 0 {
        m
    } else {
        put(put_files(m, fs.drop_last()), fs.last().0, file_value(fs.last()))
    }
}

/// The code map's JSON and whether it is truncated. The first `admitted`
/// files go in (at least the first file, when there is one; fewer than all
/// marks the map truncated); then the type rows under `types`, when types
/// are shown and there are some; then the map is cut to `max_tokens` (see
/// `enforce`) and, when truncated, gets `@` set to `{"t":true}`.
pub open spec fn compact_output(
    files: Seq<crate::analysis::code_map::FileView>,
    admitted: int,
    types: Seq<Seq<char>>,
    d: DetailLevel,
    max: usize,
    with_types: bool,
) -> Result<(Seq<char>, bool), MapError> {
    let k = if admitted < files.len() {
        admitted
    } else {
        files.len() as int
    };
    let first = files.take(k);
    let m1 = if k == 0 && files.len() > 0 {
        put(seq![], files[0].0, file_value(files[0]))
    } else {
        put_files(seq![], first)
    };
    let o1 = if k == 0 && files.len() > 0 {
        seq![files[0].0]
    } else {
        first.map_values(|f: crate::analysis::code_map::FileView| f.0)
    };
    let m2 = if with_types && types.len() > 0 {
        put(m1, "types"@, ValueView::Types(Some(join(types, seq!['\n']))))
    } else {
        m1
    };
    match enforce(m2, o1, k < files.len(), d, max, with_types) {
        Err(e) => Err(e),
        Ok((m3, t3)) => match map_json(
            if t3 {
                put(m3, "@"@, ValueView::Truncated)
            } else {
                m3
            },
            d,
        ) {
            Some(text) => Ok((text, t3)),
            None => Err(MapError::Json),
        },
    }
}

fn file_rows(f: &FileSymbols) -> (r: FileRows)
    ensures
        file_view(r) == file_value(f@),
{
    let c = if f.classes.len() > 0 {
        Some(crate::rows::join_rows(&f.classes))
    } else {
        None
    };
    let fu = if f.functions.len() > 0 {
        Some(crate::rows::join_rows(&f.functions))
    } else {
        None
    };
    let s = if f.structs.len() > 0 {
        Some(crate::rows::join_rows(&f.structs))
    } else {
        None
    };
    FileRows { c, f: fu, s }
}

/// The code map's JSON text and whether it is truncated (see
/// `compact_output`). `admitted` is how many of the files, in order, the
/// first estimate of their tokens lets in.
pub fn build_compact_output_combined(
    files: &Vec<FileSymbols>,
    admitted: usize,
    type_rows: &Vec<String>,
    detail: DetailLevel,
    max_tokens: usize,
    with_types: bool,
) -> (r: Result<(String, bool), MapError>)
    ensures
        match compact_output(
            crate::analysis::code_map::file_views(files@),
            admitted as int,
            views(type_rows@),
            detail,
            max_tokens,
            with_types,
        ) {
            Ok((text, t)) => r matches Ok((s, u)) && s@ == text && u == t,
            Err(e) => r == Err::<(String, bool), MapError>(e),
        },
{
    let ghost fv = crate::analysis::code_map::file_views(files@);
    let k = if admitted < files.len() {
        admitted
    } else {
        files.len()
    };
    let mut m: Vec<MapEntry> = Vec::new();
    let mut ordered: Vec<String> = Vec::new();
    let ghost first = fv.take(k as int);
    let ghost m1 = if k == 0 && files.len() > 0 {
        put(seq![], fv[0].0, file_value(fv[0]))
    } else {
        put_files(seq![], first)
    };
    let ghost o1 = if k == 0 && files.len() > 0 {
        seq![fv[0].0]
    } else {
        first.map_values(|f: crate::analysis::code_map::FileView| f.0)
    };
    assert(entry_views(m@) =~= seq![]);
    if k == 0 && files.len() > 0 {
        assert(fv[0] == files@[0]@);
        put_exec(&mut m, lit(files[0].path.as_str()), MapValue::File(file_rows(&files[0])));
        ordered.push(lit(files[0].path.as_str()));
        assert(views(ordered@) =~= seq![fv[0].0]);
    } else {
        let mut i: usize = 0;
        assert(fv.take(0) =~= seq![]);
        assert(entry_views(m@) =~= put_files(seq![], fv.take(0)));
        while i < k
            invariant
                i <= k,
                k <= files.len(),
                fv == crate::analysis::code_map::file_views(files@),
                entry_views(m@) == put_files(seq![], fv.take(i as int)),
                views(ordered@) == fv.take(i as int).map_values(
                    |f: crate::analysis::code_map::FileView| f.0,
                ),
            decreases k - i,
        {
            assert(fv.take(i + 1).drop_last() =~= fv.take(i as int));
            assert(fv.take(i + 1).last() == files@[i as int]@);
            put_exec(&mut m, lit(files[i].path.as_str()), MapValue::File(file_rows(&files[i])));
            let ghost ob = views(ordered@);
            ordered.push(lit(files[i].path.as_str()));
            assert(views(ordered@) =~= ob.push(fv[i as int].0));
            assert(fv.take(i + 1).map_values(|f: crate::analysis::code_map::FileView| f.0) =~= fv.take(
                i as int,
            ).map_values(|f: crate::analysis::code_map::FileView| f.0).push(fv[i as int].0));
            i = i + 1;
        }
    }
    assert(entry_views(m@) == m1);
    assert(views(ordered@) == o1);
    if with_types && type_rows.len() > 0 {
        let rows = crate::rows::join_rows(type_rows);
        put_exec(&mut m, lit("types"), MapValue::Types(Some(rows)));
    }
    assert(entry_views(m@) == (if with_types && type_rows@.len() > 0 {
        put(m1, "types"@, ValueView::Types(Some(join(views(type_rows@), seq!['\n']))))
    } else {
        m1
    }));
    let truncated = match enforce_budget(&mut m, &mut ordered, k < files.len(), detail, max_tokens, with_types) {
        Ok(t) => t,
        Err(e) => return Err(e),
    };
    if truncated {
        put_exec(&mut m, lit("@"), MapValue::Truncated);
    }
    match map_json_exec(&m, detail) {
        Some(text) => Ok((text, truncated)),
        None => Err(MapError::Json),
    }
}

// ---------------------------------------------------------------------------
// Laws
// ---------------------------------------------------------------------------

/// A cut that changes the map marks it truncated, and a map marked
/// truncated stays marked.
pub proof fn law_cut_marks_truncated(
    m: Entries,
    ordered: Seq<Seq<char>>,
    truncated: bool,
    d: DetailLevel,
    max: usize,
    with_types: bool,
)
    ensures
        enforce(m, ordered, truncated, d, max, with_types) matches Ok((m2, t2)) ==> (m2 == m || t2) && (
        truncated ==> t2),
    decreases ordered.len(), total_size(m),
{
    if let Some(text) = map_json(m, d) {
        if let Some(n) = cl100k_tokens(text) {
            if n > max {
                if with_types && get(m, "types"@) is Some && shrunk_types(get(m, "types"@).unwrap()) is Some {
                    let v2 = shrunk_types(get(m, "types"@).unwrap()).unwrap();
                    lemma_shrink_smaller(get(m, "types"@).unwrap(), d, max);
                    lemma_put_smaller(m, "types"@, v2);
                    law_cut_marks_truncated(put(m, "types"@, v2), ordered, true, d, max, with_types);
                } else if ordered.len() > 1 {
                    law_cut_marks_truncated(
                        remove_key(m, ordered.last()),
                        ordered.drop_last(),
                        true,
                        d,
                        max,
                        with_types,
                    );
                } else if ordered.len() == 1 {
                    if let Some(v) = get(m, ordered[0]) {
                        if let Ok(Some(v2)) = shrink_file(v, d, max) {
                            lemma_shrink_smaller(v, d, max);
                            lemma_put_smaller(m, ordered[0], v2);
                            law_cut_marks_truncated(put(m, ordered[0], v2), ordered, true, d, max, with_types);
                        }
                    }
                }
            }
        }
    }
}

/// Keys in strictly increasing order, each once.
pub open spec fn keys_ordered(m: Entries) -> bool {
    forall|i: int, j: int| 0 <= i < j < m.len() ==> text_order(#[trigger] m[i].0, #[trigger] m[j].0) < 0
}

/// Putting and removing keep the keys in order, each once, as in an
/// ordered map.
pub proof fn law_keys_stay_ordered(m: Entries, k: Seq<char>, v: ValueView)
    requires
        keys_ordered(m),
    ensures
        keys_ordered(put(m, k, v)),
        keys_ordered(remove_key(m, k)),
{
    lemma_first_where(m, key_is(k));
    lemma_first_where(m, key_after(k));
    match first_where(m, key_is(k)) {
        Some(i) => {
            let r = m.update(i, (k, v));
            assert forall|a: int, b: int| 0 <= a < b < r.len() implies text_order(
                #[trigger] r[a].0,
                #[trigger] r[b].0,
            ) < 0 by {
                assert(r[a].0 == m[a].0);
                assert(r[b].0 == m[b].0);
            }
            let q = m.remove(i);
            assert forall|a: int, b: int| 0 <= a < b < q.len() implies text_order(
                #[trigger] q[a].0,
                #[trigger] q[b].0,
            ) < 0 by {
                let a2 = if a < i { a } else { a + 1 };
                let b2 = if b < i { b } else { b + 1 };
                assert(q[a] == m[a2]);
                assert(q[b] == m[b2]);
            }
        },
        None => {
            let r = match first_where(m, key_after(k)) {
                Some(i) => m.insert(i, (k, v)),
                None => m.push((k, v)),
            };
            let pos = match first_where(m, key_after(k)) {
                Some(i) => i,
                None => m.len() as int,
            };
            assert forall|a: int, b: int| 0 <= a < b < r.len() implies text_order(
                #[trigger] r[a].0,
                #[trigger] r[b].0,
            ) < 0 by {
                if a < pos && b < pos {
                    assert(r[a] == m[a] && r[b] == m[b]);
                } else if a > pos && b > pos {
                    assert(r[a] == m[a - 1] && r[b] == m[b - 1]);
                } else if a < pos && b == pos {
                    assert(r[a] == m[a]);
                    assert(r[b].0 == k);
                    assert(!key_after(k)(m[a]));
                    assert(m[a].0 != k);
                    crate::text::lemma_text_order_flip(k, m[a].0);
                    crate::text::lemma_text_order_zero(k, m[a].0);
                } else if a < pos && b > pos {
                    assert(r[a] == m[a] && r[b] == m[b - 1]);
                } else {
                    assert(a == pos);
                    assert(r[a].0 == k);
                    assert(r[b] == m[b - 1]);
                    assert(key_after(k)(m[pos]));
                    if b - 1 > pos {
                        crate::text::lemma_text_order_trans(k, m[pos].0, m[b - 1].0);
                    }
                }
            }
        },
    }
}

} // verus!
