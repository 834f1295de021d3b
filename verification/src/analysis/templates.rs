//! Templates (Askama, Jinja2): the templates one `extends` or `include`s,
//! its `block` sections, and the text a parent gives once a child's blocks
//! stand in it.
use vstd::prelude::*;
use crate::analysis::css::{
    captures_iter, group, group_of, index_text, indexed_wf, regex_accepts, regex_captures, span_chars,
    span_text,
    Indexed,
};
use crate::analysis::dependencies::{join_path, join_paths};
use crate::analysis::file_shape::TemplateDependency;
use crate::text::{chars_of, push_str, str_eq, string_of, views};

verus! {

pub open spec fn extends_pattern() -> Seq<char> {
    "\\{%\\s*extends\\s+[\"']([^\"']+)[\"']\\s*%\\}"@
}

pub open spec fn include_pattern() -> Seq<char> {
    "\\{%\\s*include\\s+[\"']([^\"']+)[\"']\\s*%\\}"@
}

pub open spec fn block_pattern() -> Seq<char> {
    "\\{%\\s*block\\s+(\\w+)\\s*%\\}(.*?)\\{%\\s*endblock\\s*%\\}"@
}

pub open spec fn whole_block_pattern() -> Seq<char> {
    "\\{%\\s*block\\s+(\\w+)\\s*%\\}.*?\\{%\\s*endblock\\s*%\\}"@
}

/// The deepest chain of templates that is merged.
pub const MAX_TEMPLATE_DEPTH: usize = 50;

/// Why a template could not be read or merged.
#[derive(Debug, Clone, PartialEq, Eq)]
pub enum TemplateError {
    /// regex refused one of the patterns.
    InvalidRegex,
    /// The text is too long to index.
    TooLong,
    /// This template is already being merged further up the chain.
    Circular(String),
    /// The chain of templates is `MAX_TEMPLATE_DEPTH` long already.
    TooDeep,
}

impl TemplateError {
    /// The message of the error.
    pub fn message(&self) -> (r: String)
        ensures
            r@ == match self {
                TemplateError::InvalidRegex => "Invalid template pattern"@,
                TemplateError::TooLong => "Template too long"@,
                TemplateError::Circular(p) => "Circular template dependency detected: "@ + p@,
                TemplateError::TooDeep => "Template recursion depth exceeded (max: 50)"@,
            },
    {
        let mut s = String::new();
        match self {
            TemplateError::InvalidRegex => push_str(&mut s, "Invalid template pattern"),
            TemplateError::TooLong => push_str(&mut s, "Template too long"),
            TemplateError::Circular(p) => {
                push_str(&mut s, "Circular template dependency detected: ");
                push_str(&mut s, p.as_str());
            },
            TemplateError::TooDeep => push_str(&mut s, "Template recursion depth exceeded (max: 50)"),
        }
        s
    }
}

impl View for TemplateDependency {
    type V = (Seq<char>, Seq<char>, Seq<char>);

    open spec fn view(&self) -> (Seq<char>, Seq<char>, Seq<char>) {
        (self.path@, self.dependency_type@, self.name@)
    }
}

pub open spec fn dep_views(v: Seq<TemplateDependency>) -> Seq<(Seq<char>, Seq<char>, Seq<char>)> {
    v.map_values(|d: TemplateDependency| d@)
}

pub open spec fn caps_view(v: Seq<Vec<Option<(usize, usize)>>>) -> Seq<Seq<Option<(usize, usize)>>> {
    v.map_values(|m: Vec<Option<(usize, usize)>>| m@)
}

/// For each match, the template its group 1 names, as a dependency of
/// `kind` (path and name both the name).
pub open spec fn named_refs(text: Seq<char>, caps: Seq<Seq<Option<(usize, usize)>>>, kind: Seq<char>) -> Seq<
    (Seq<char>, Seq<char>, Seq<char>),
>
    decreases caps.len(),
{
    if caps.len() == 0 {
        seq![]
    } else {
        named_refs(text, caps.drop_last(), kind) + match group(caps.last(), 1) {
            Some(sp) => seq![(span_text(text, sp), kind, span_text(text, sp))],
            None => seq![],
        }
    }
}

/// The templates a template names: each `extends`, then each `include`.
pub open spec fn template_refs(source: Seq<char>) -> Seq<(Seq<char>, Seq<char>, Seq<char>)> {
    named_refs(source, regex_captures(extends_pattern(), source), "extends"@) + named_refs(
        source,
        regex_captures(include_pattern(), source),
        "include"@,
    )
}

/// The references whose template, under `dir`, is among `existing`.
pub open spec fn existing_refs(
    refs: Seq<(Seq<char>, Seq<char>, Seq<char>)>,
    dir: Seq<char>,
    existing: Seq<Seq<char>>,
) -> Seq<(Seq<char>, Seq<char>, Seq<char>)>
    decreases refs.len(),
{
    if refs.len() == 0 {
        seq![]
    } else {
        existing_refs(refs.drop_last(), dir, existing) + if existing.contains(
            join_path(dir, refs.last().2),
        ) {
            seq![refs.last()]
        } else {
            seq![]
        }
    }
}

fn captures(pattern: &str, text: &str) -> (r: Result<Vec<Vec<Option<(usize, usize)>>>, TemplateError>)
    ensures
        r matches Ok(v) ==> caps_view(v@) == regex_captures(pattern@, text@),
        r matches Err(e) ==> e is InvalidRegex,
        r is Ok <==> regex_accepts(pattern@),
{
    match captures_iter(pattern, text) {
        Some(v) => Ok(v),
        None => Err(TemplateError::InvalidRegex),
    }
}

fn indexed(text: &str) -> (r: Result<Indexed, TemplateError>)
    ensures
        r matches Ok(x) ==> indexed_wf(x) && x.chars@ == text@,
        r matches Err(e) ==> e is TooLong,
        r is Ok <==> text@.len() < usize::MAX,
{
    match index_text(text) {
        Some(x) => Ok(x),
        None => Err(TemplateError::TooLong),
    }
}

fn lit(s: &str) -> (r: String)
    ensures
        r@ == s@,
{
    let mut out = String::new();
    push_str(&mut out, s);
    out
}

fn push_refs(x: &Indexed, caps: &Vec<Vec<Option<(usize, usize)>>>, kind: &str, out: &mut Vec<TemplateDependency>)
    requires
        indexed_wf(*x),
    ensures
        dep_views(final(out)@) == dep_views(old(out)@) + named_refs(x.chars@, caps_view(caps@), kind@),
{
    let ghost cv = caps_view(caps@);
    let ghost o0 = dep_views(out@);
    let mut i: usize = 0;
    assert(cv.take(0) =~= seq![]);
    assert(dep_views(out@) =~= o0 + named_refs(x.chars@, cv.take(0), kind@));
    while i < caps.len()
        invariant
            i <= caps.len(),
            indexed_wf(*x),
            cv == caps_view(caps@),
            dep_views(out@) == o0 + named_refs(x.chars@, cv.take(i as int), kind@),
        decreases caps.len() - i,
    {
        assert(cv.take(i + 1).drop_last() =~= cv.take(i as int));
        assert(cv.take(i + 1).last() == caps@[i as int]@);
        let ghost b = dep_views(out@);
        match group_of(&caps[i], 1) {
            Some(sp) => {
                let name = string_of(span_chars(x, sp).as_slice());
                let d = TemplateDependency { path: string_of(span_chars(x, sp).as_slice()), dependency_type: lit(kind), name };
                out.push(d);
                assert(dep_views(out@) =~= b + seq![(span_text(x.chars@, sp), kind@, span_text(x.chars@, sp))]);
            },
            None => {
                assert(dep_views(out@) =~= b + seq![]);
            },
        }
        i = i + 1;
    }
    assert(cv.take(caps.len() as int) =~= cv);
}

/// The templates a template names (see `template_refs`).
pub fn template_references(source: &str) -> (r: Result<Vec<TemplateDependency>, TemplateError>)
    ensures
        r matches Ok(v) ==> dep_views(v@) == template_refs(source@),
        r matches Err(e) ==> (e is InvalidRegex || e is TooLong),
        source@.len() < usize::MAX && regex_accepts(extends_pattern()) && regex_accepts(include_pattern())
            ==> r is Ok,
{
    let x = match indexed(source) {
        Ok(x) => x,
        Err(e) => return Err(e),
    };
    let ext = match captures("\\{%\\s*extends\\s+[\"']([^\"']+)[\"']\\s*%\\}", source) {
        Ok(c) => c,
        Err(e) => return Err(e),
    };
    let inc = match captures("\\{%\\s*include\\s+[\"']([^\"']+)[\"']\\s*%\\}", source) {
        Ok(c) => c,
        Err(e) => return Err(e),
    };
    let mut out: Vec<TemplateDependency> = Vec::new();
    assert(dep_views(out@) =~= seq![]);
    push_refs(&x, &ext, "extends", &mut out);
    push_refs(&x, &inc, "include", &mut out);
    assert(dep_views(out@) =~= template_refs(source@));
    Ok(out)
}

fn contains_text(v: &Vec<String>, s: &str) -> (r: bool)
    ensures
        r == views(v@).contains(s@),
{
    let mut k: usize = 0;
    while k < v.len()
        invariant
            k <= v.len(),
            forall|j: int| 0 <= j < k ==> v@[j]@ != s@,
        decreases v.len() - k,
    {
        if str_eq(v[k].as_str(), s) {
            assert(views(v@)[k as int] == s@);
            return true;
        }
        k = k + 1;
    }
    assert forall|j: int| 0 <= j < views(v@).len() implies views(v@)[j] != s@ by {
        assert(views(v@)[j] == v@[j]@);
    }
    false
}

/// The templates a template extends or includes that exist: those whose
/// path under `templates_dir` is among `existing` (the paths found to
/// exist), each `extends` before each `include`.
pub fn find_template_dependencies(source: &str, templates_dir: &str, existing: &Vec<String>) -> (r: Result<
    Vec<TemplateDependency>,
    TemplateError,
>)
    ensures
        r matches Ok(v) ==> dep_views(v@) == existing_refs(template_refs(source@), templates_dir@, views(existing@)),
        r matches Err(e) ==> (e is InvalidRegex || e is TooLong),
        source@.len() < usize::MAX && regex_accepts(extends_pattern()) && regex_accepts(include_pattern())
            ==> r is Ok,
{
    let refs = match template_references(source) {
        Ok(v) => v,
        Err(e) => return Err(e),
    };
    let ghost rv = dep_views(refs@);
    let mut out: Vec<TemplateDependency> = Vec::new();
    let mut i: usize = 0;
    assert(rv.take(0) =~= seq![]);
    while i < refs.len()
        invariant
            i <= refs.len(),
            rv == dep_views(refs@),
            dep_views(out@) == existing_refs(rv.take(i as int), templates_dir@, views(existing@)),
        decreases refs.len() - i,
    {
        assert(rv.take(i + 1).drop_last() =~= rv.take(i as int));
        assert(rv.take(i + 1).last() == refs@[i as int]@);
        let ghost b = dep_views(out@);
        let p = join_paths(templates_dir, refs[i].name.as_str());
        if contains_text(existing, p.as_str()) {
            let d = TemplateDependency {
                path: lit(refs[i].path.as_str()),
                dependency_type: lit(refs[i].dependency_type.as_str()),
                name: lit(refs[i].name.as_str()),
            };
            out.push(d);
            assert(dep_views(out@) =~= b + seq![rv[i as int]]);
        } else {
            assert(dep_views(out@) =~= b + seq![]);
        }
        i = i + 1;
    }
    assert(rv.take(refs.len() as int) =~= rv);
    Ok(out)
}

// ---------------------------------------------------------------------------
// Replacing text
// ---------------------------------------------------------------------------

/// Each character of `s` followed by `to`.
pub open spec fn each_followed(s: Seq<char>, to: Seq<char>) -> Seq<char>
    decreases s.len(),
{
    if s.len() == 0 {
        seq![]
    } else {
        each_followed(s.drop_last(), to) + seq![s.last()] + to
    }
}

/// `str::replace`: each occurrence of `from` in `s`, left to right and
/// not overlapping, replaced by `to`; an empty `from` puts `to` before
/// each character and at the end.
pub open spec fn replace_all(s: Seq<char>, from: Seq<char>, to: Seq<char>) -> Seq<char>
    decreases s.len(),
{
    if from.len() == 0 {
        to + each_followed(s, to)
    } else if s.len() < from.len() {
        s
    } else if s.take(from.len() as int) == from {
        to + replace_all(s.skip(from.len() as int), from, to)
    } else {
        seq![s[0]] + replace_all(s.skip(1), from, to)
    }
}

/// `s` with each occurrence of `from` replaced by `to` (see `replace_all`).
pub fn replace_text(s: &str, from: &str, to: &str) -> (r: String)
    ensures
        r@ == replace_all(s@, from@, to@),
{
    let sv = chars_of(s);
    let fv = chars_of(from);
    let tv = chars_of(to);
    let mut out = String::new();
    let mut i: usize = 0;
    if fv.len() == 0 {
        push_str(&mut out, to);
        assert(sv@.take(0) =~= seq![]);
        while i < sv.len()
            invariant
                i <= sv.len(),
                tv@ == to@,
                sv@ == s@,
                out@ == to@ + each_followed(sv@.take(i as int), to@),
            decreases sv.len() - i,
        {
            assert(sv@.take(i + 1).drop_last() =~= sv@.take(i as int));
            assert(sv@.take(i + 1).last() == sv@[i as int]);
            crate::text::push_char(&mut out, sv[i]);
            crate::text::push_chars(&mut out, tv.as_slice());
            assert(out@ =~= to@ + each_followed(sv@.take(i + 1), to@));
            i = i + 1;
        }
        assert(sv@.take(sv.len() as int) =~= sv@);
        return out;
    }
    assert(sv@.skip(0) =~= sv@);
    assert(out@ =~= seq![]);
    while i < sv.len()
        invariant
            i <= sv.len(),
            fv@.len() > 0,
            from@ == fv@,
            tv@ == to@,
            sv@ == s@,
            out@ + replace_all(sv@.skip(i as int), from@, to@) == replace_all(sv@, from@, to@),
        decreases sv.len() - i,
    {
        let ghost rest = sv@.skip(i as int);
        if sv.len() - i < fv.len() {
            assert(replace_all(rest, from@, to@) == rest);
            let ghost before = out@;
            assert(before + rest == replace_all(sv@, from@, to@));
            while i < sv.len()
                invariant
                    i <= sv.len(),
                    out@ + sv@.skip(i as int) == before + rest,
                decreases sv.len() - i,
            {
                let ghost b = out@;
                crate::text::push_char(&mut out, sv[i]);
                assert(sv@.skip(i as int) =~= seq![sv@[i as int]] + sv@.skip(i + 1));
                assert(out@ =~= b.push(sv@[i as int]));
                i = i + 1;
            }
            assert(sv@.skip(i as int) =~= seq![]);
            assert(out@ =~= before + rest);
            assert(replace_all(sv@.skip(i as int), from@, to@) =~= seq![]);
            return out;
        }
        let tail = crate::text::slice_range(sv.as_slice(), i, sv.len());
        assert(tail@ =~= rest);
        let at = crate::text::starts_with_chars(tail.as_slice(), fv.as_slice());
        if at {
            assert(rest.take(fv@.len() as int) =~= fv@);
            assert(rest.skip(fv@.len() as int) =~= sv@.skip(i + fv.len()));
            let ghost b = out@;
            crate::text::push_chars(&mut out, tv.as_slice());
            assert(out@ =~= b + to@);
            i = i + fv.len();
        } else {
            assert(rest.take(fv@.len() as int) != fv@);
            assert(rest.skip(1) =~= sv@.skip(i + 1));
            assert(rest[0] == sv@[i as int]);
            let ghost b = out@;
            crate::text::push_char(&mut out, sv[i]);
            assert(out@ =~= b + seq![sv@[i as int]]);
            i = i + 1;
        }
    }
    assert(sv@.skip(i as int).len() == 0);
    assert(replace_all(sv@.skip(i as int), from@, to@) =~= seq![]);
    assert(out@ =~= out@ + seq![]);
    out
}

// ---------------------------------------------------------------------------
// Blocks and merging
// ---------------------------------------------------------------------------

/// A `{% block name %}...{% endblock %}` section: its name and content.
pub struct TemplateBlock {
    pub name: String,
    pub content: String,
}

impl View for TemplateBlock {
    type V = (Seq<char>, Seq<char>);

    open spec fn view(&self) -> (Seq<char>, Seq<char>) {
        (self.name@, self.content@)
    }
}

pub open spec fn block_views(v: Seq<TemplateBlock>) -> Seq<(Seq<char>, Seq<char>)> {
    v.map_values(|b: TemplateBlock| b@)
}

/// The blocks the matches of the block pattern give, in order.
pub open spec fn block_pairs(text: Seq<char>, caps: Seq<Seq<Option<(usize, usize)>>>) -> Seq<
    (Seq<char>, Seq<char>),
>
    decreases caps.len(),
{
    if caps.len() == 0 {
        seq![]
    } else {
        block_pairs(text, caps.drop_last()) + match (group(caps.last(), 1), group(caps.last(), 2)) {
            (Some(n), Some(c)) => seq![(span_text(text, n), span_text(text, c))],
            _ => seq![],
        }
    }
}

/// The content of the last block named `name` (a later block of a name
/// stands in place of an earlier one).
pub open spec fn block_for(blocks: Seq<(Seq<char>, Seq<char>)>, name: Seq<char>) -> Option<Seq<char>>
    decreases blocks.len(),
{
    if blocks.len() == 0 {
        None
    } else if blocks.last().0 == name {
        Some(blocks.last().1)
    } else {
        block_for(blocks.drop_last(), name)
    }
}

/// The template with, for each block section it has, in order, every
/// occurrence of that section's whole text replaced by the content of the
/// block of its name in `blocks`, where there is one.
pub open spec fn replaced_blocks(
    t: Seq<char>,
    caps: Seq<Seq<Option<(usize, usize)>>>,
    blocks: Seq<(Seq<char>, Seq<char>)>,
) -> Seq<char>
    decreases caps.len(),
{
    if caps.len() == 0 {
        t
    } else {
        let prev = replaced_blocks(t, caps.drop_last(), blocks);
        match (group(caps.last(), 0), group(caps.last(), 1)) {
            (Some(whole), Some(n)) => match block_for(blocks, span_text(t, n)) {
                Some(content) => replace_all(prev, span_text(t, whole), content),
                None => prev,
            },
            _ => prev,
        }
    }
}

/// The block sections of a template (see `block_pairs`).
pub fn extract_blocks(source: &str) -> (r: Result<Vec<TemplateBlock>, TemplateError>)
    ensures
        r matches Ok(v) ==> block_views(v@) == block_pairs(source@, regex_captures(block_pattern(), source@)),
        r matches Err(e) ==> (e is InvalidRegex || e is TooLong),
        source@.len() < usize::MAX && regex_accepts(block_pattern()) ==> r is Ok,
{
    let x = match indexed(source) {
        Ok(x) => x,
        Err(e) => return Err(e),
    };
    let caps = match captures("\\{%\\s*block\\s+(\\w+)\\s*%\\}(.*?)\\{%\\s*endblock\\s*%\\}", source) {
        Ok(c) => c,
        Err(e) => return Err(e),
    };
    let ghost cv = caps_view(caps@);
    let mut out: Vec<TemplateBlock> = Vec::new();
    let mut i: usize = 0;
    assert(cv.take(0) =~= seq![]);
    while i < caps.len()
        invariant
            i <= caps.len(),
            indexed_wf(x),
            x.chars@ == source@,
            cv == caps_view(caps@),
            block_views(out@) == block_pairs(source@, cv.take(i as int)),
        decreases caps.len() - i,
    {
        assert(cv.take(i + 1).drop_last() =~= cv.take(i as int));
        assert(cv.take(i + 1).last() == caps@[i as int]@);
        let ghost b = block_views(out@);
        match (group_of(&caps[i], 1), group_of(&caps[i], 2)) {
            (Some(n), Some(c)) => {
                let name = string_of(span_chars(&x, n).as_slice());
                let content = string_of(span_chars(&x, c).as_slice());
                out.push(TemplateBlock { name, content });
                assert(block_views(out@) =~= b + seq![(span_text(source@, n), span_text(source@, c))]);
            },
            _ => {
                assert(block_views(out@) =~= b + seq![]);
            },
        }
        i = i + 1;
    }
    assert(cv.take(caps.len() as int) =~= cv);
    Ok(out)
}

fn find_block(blocks: &Vec<TemplateBlock>, name: &str) -> (r: Option<String>)
    ensures
        crate::extraction::collect::opt_chars(r) == block_for(block_views(blocks@), name@),
{
    let ghost bv = block_views(blocks@);
    let mut k: usize = blocks.len();
    assert(bv.take(k as int) =~= bv);
    while k > 0
        invariant
            k <= blocks.len(),
            bv == block_views(blocks@),
            block_for(bv, name@) == block_for(bv.take(k as int), name@),
        decreases k,
    {
        assert(bv.take(k as int).last() == blocks@[k - 1]@);
        assert(bv.take(k as int).drop_last() =~= bv.take(k - 1));
        if str_eq(blocks[k - 1].name.as_str(), name) {
            return Some(lit(blocks[k - 1].content.as_str()));
        }
        k = k - 1;
    }
    None
}

/// The template with its block sections replaced by the blocks given (see
/// `replaced_blocks`).
pub fn replace_blocks(template: &str, blocks: &Vec<TemplateBlock>) -> (r: Result<String, TemplateError>)
    ensures
        r matches Ok(t) ==> t@ == replaced_blocks(
            template@,
            regex_captures(whole_block_pattern(), template@),
            block_views(blocks@),
        ),
        r matches Err(e) ==> (e is InvalidRegex || e is TooLong),
        template@.len() < usize::MAX && regex_accepts(whole_block_pattern()) ==> r is Ok,
{
    let x = match indexed(template) {
        Ok(x) => x,
        Err(e) => return Err(e),
    };
    let caps = match captures("\\{%\\s*block\\s+(\\w+)\\s*%\\}.*?\\{%\\s*endblock\\s*%\\}", template) {
        Ok(c) => c,
        Err(e) => return Err(e),
    };
    let ghost cv = caps_view(caps@);
    let ghost bv = block_views(blocks@);
    let mut result = lit(template);
    let mut i: usize = 0;
    assert(cv.take(0) =~= seq![]);
    while i < caps.len()
        invariant
            i <= caps.len(),
            indexed_wf(x),
            x.chars@ == template@,
            cv == caps_view(caps@),
            bv == block_views(blocks@),
            result@ == replaced_blocks(template@, cv.take(i as int), bv),
        decreases caps.len() - i,
    {
        assert(cv.take(i + 1).drop_last() =~= cv.take(i as int));
        assert(cv.take(i + 1).last() == caps@[i as int]@);
        match (group_of(&caps[i], 0), group_of(&caps[i], 1)) {
            (Some(whole), Some(n)) => {
                let name = string_of(span_chars(&x, n).as_slice());
                match find_block(blocks, name.as_str()) {
                    Some(content) => {
                        let whole_text = string_of(span_chars(&x, whole).as_slice());
                        result = replace_text(result.as_str(), whole_text.as_str(), content.as_str());
                    },
                    None => {},
                }
            },
            _ => {},
        }
        i = i + 1;
    }
    assert(cv.take(caps.len() as int) =~= cv);
    Ok(result)
}

/// The template that a template extends: the name in its first `extends`.
pub open spec fn extended(source: Seq<char>) -> Option<Seq<char>> {
    let caps = regex_captures(extends_pattern(), source);
    if caps.len() == 0 {
        None
    } else {
        match group(caps[0], 1) {
            Some(n) => Some(span_text(source, n)),
            None => None,
        }
    }
}

/// The template a template extends, if any (see `extended`).
pub fn first_extends(source: &str) -> (r: Result<Option<String>, TemplateError>)
    ensures
        r matches Ok(o) ==> crate::extraction::collect::opt_chars(o) == extended(source@),
        r matches Err(e) ==> (e is InvalidRegex || e is TooLong),
        source@.len() < usize::MAX && regex_accepts(extends_pattern()) ==> r is Ok,
{
    let x = match indexed(source) {
        Ok(x) => x,
        Err(e) => return Err(e),
    };
    let caps = match captures("\\{%\\s*extends\\s+[\"']([^\"']+)[\"']\\s*%\\}", source) {
        Ok(c) => c,
        Err(e) => return Err(e),
    };
    if caps.len() == 0 {
        return Ok(None);
    }
    assert(caps_view(caps@)[0] == caps@[0]@);
    match group_of(&caps[0], 1) {
        Some(n) => Ok(Some(string_of(span_chars(&x, n).as_slice()))),
        None => Ok(None),
    }
}

/// An `include` directive: the template it names and its whole text.
pub struct IncludeDirective {
    pub name: String,
    pub directive: String,
}

impl View for IncludeDirective {
    type V = (Seq<char>, Seq<char>);

    open spec fn view(&self) -> (Seq<char>, Seq<char>) {
        (self.name@, self.directive@)
    }
}

/// For each `include` match: the name and the whole directive.
pub open spec fn includes_of(text: Seq<char>, caps: Seq<Seq<Option<(usize, usize)>>>) -> Seq<
    (Seq<char>, Seq<char>),
>
    decreases caps.len(),
{
    if caps.len() == 0 {
        seq![]
    } else {
        includes_of(text, caps.drop_last()) + match (group(caps.last(), 1), group(caps.last(), 0)) {
            (Some(n), Some(w)) => seq![(span_text(text, n), span_text(text, w))],
            _ => seq![],
        }
    }
}

/// The `include` directives of a template, in order (see `includes_of`).
pub fn include_directives(source: &str) -> (r: Result<Vec<IncludeDirective>, TemplateError>)
    ensures
        r matches Ok(v) ==> v@.map_values(|d: IncludeDirective| d@) == includes_of(
            source@,
            regex_captures(include_pattern(), source@),
        ),
        r matches Err(e) ==> (e is InvalidRegex || e is TooLong),
        source@.len() < usize::MAX && regex_accepts(include_pattern()) ==> r is Ok,
{
    let x = match indexed(source) {
        Ok(x) => x,
        Err(e) => return Err(e),
    };
    let caps = match captures("\\{%\\s*include\\s+[\"']([^\"']+)[\"']\\s*%\\}", source) {
        Ok(c) => c,
        Err(e) => return Err(e),
    };
    let ghost cv = caps_view(caps@);
    let mut out: Vec<IncludeDirective> = Vec::new();
    let mut i: usize = 0;
    assert(cv.take(0) =~= seq![]);
    while i < caps.len()
        invariant
            i <= caps.len(),
            indexed_wf(x),
            x.chars@ == source@,
            cv == caps_view(caps@),
            out@.map_values(|d: IncludeDirective| d@) == includes_of(source@, cv.take(i as int)),
        decreases caps.len() - i,
    {
        assert(cv.take(i + 1).drop_last() =~= cv.take(i as int));
        assert(cv.take(i + 1).last() == caps@[i as int]@);
        let ghost b = out@.map_values(|d: IncludeDirective| d@);
        match (group_of(&caps[i], 1), group_of(&caps[i], 0)) {
            (Some(n), Some(w)) => {
                let name = string_of(span_chars(&x, n).as_slice());
                let directive = string_of(span_chars(&x, w).as_slice());
                out.push(IncludeDirective { name, directive });
                assert(out@.map_values(|d: IncludeDirective| d@) =~= b + seq![(span_text(source@, n), span_text(source@, w))]);
            },
            _ => {
                assert(out@.map_values(|d: IncludeDirective| d@) =~= b + seq![]);
            },
        }
        i = i + 1;
    }
    assert(cv.take(caps.len() as int) =~= cv);
    Ok(out)
}

/// Whether a template may be merged now that `stack` holds the templates
/// being merged above it: not when it is among them (a cycle), nor when
/// they are `MAX_TEMPLATE_DEPTH` or more.
pub fn check_template_stack(stack: &Vec<String>, path: &str) -> (r: Result<(), TemplateError>)
    ensures
        views(stack@).contains(path@) ==> (r matches Err(TemplateError::Circular(p)) && p@ == path@),
        !views(stack@).contains(path@) && stack@.len() >= MAX_TEMPLATE_DEPTH ==> (r matches Err(
            TemplateError::TooDeep,
        )),
        !views(stack@).contains(path@) && stack@.len() < MAX_TEMPLATE_DEPTH ==> r is Ok,
{
    if contains_text(stack, path) {
        return Err(TemplateError::Circular(lit(path)));
    }
    if stack.len() >= MAX_TEMPLATE_DEPTH {
        return Err(TemplateError::TooDeep);
    }
    Ok(())
}

} // verus!
