//! The shape of a source file: functions, types, classes, imports, impl
//! blocks, traits, interfaces and properties, with signatures, doc comments
//! and code.
use vstd::prelude::*;
use crate::analysis::comments::{doc_from_comment, extract_doc_from_comment};
use crate::analysis::haskell_shape::{extract_haskell_enhanced, haskell_shape_is};
use crate::analysis::rust_shape::{extract_rust_enhanced, rust_shape_is};
use crate::analysis::script_shape::{
    extract_js_enhanced, extract_python_enhanced, js_shape_is, python_shape_is,
};
use crate::analysis::typed_shape::{
    extract_go_enhanced, extract_member_enhanced, extract_swift_enhanced, go_shape_is,
    member_shape_is, swift_shape_is,
};
use crate::parser::{Language, language_name};
use crate::syntax::SyntaxTree;
use crate::text::{
    chars_of, join, join_strings, line_bounds, lines, push_chars, push_str, slice_range,
    starts_with, starts_with_lit, trim, trim_bounds, trim_chars, views,
};

verus! {

/// A function with its signature and documentation.
#[derive(Debug, Clone)]
pub struct EnhancedFunctionInfo {
    pub name: String,
    pub signature: String,
    pub line: usize,
    pub end_line: usize,
    pub doc: Option<String>,
    pub code: Option<String>,
    pub annotations: Vec<String>,
}

/// A struct (or data type) with its documentation.
#[derive(Debug, Clone)]
pub struct EnhancedStructInfo {
    pub name: String,
    pub line: usize,
    pub end_line: usize,
    pub doc: Option<String>,
    pub code: Option<String>,
}

/// A class with its documentation, methods and members.
#[derive(Debug, Clone)]
pub struct EnhancedClassInfo {
    pub name: String,
    pub line: usize,
    pub end_line: usize,
    pub doc: Option<String>,
    pub code: Option<String>,
    pub methods: Vec<EnhancedFunctionInfo>,
    pub properties: Vec<PropertyInfo>,
    pub fields: Vec<PropertyInfo>,
    pub implements: Vec<String>,
}

/// An import with its text and line.
#[derive(Debug, Clone)]
pub struct ImportInfo {
    pub text: String,
    pub line: usize,
}

/// A method of an impl block or trait.
#[derive(Debug, Clone)]
pub struct MethodInfo {
    pub name: String,
    pub signature: String,
    pub line: usize,
    pub end_line: usize,
    pub doc: Option<String>,
    pub code: Option<String>,
}

/// A Rust impl block.
#[derive(Debug, Clone)]
pub struct ImplBlockInfo {
    pub impl_type: String,
    pub trait_name: Option<String>,
    pub line: usize,
    pub end_line: usize,
    pub methods: Vec<MethodInfo>,
}

/// A trait (or protocol, type class) definition.
#[derive(Debug, Clone)]
pub struct TraitInfo {
    pub name: String,
    pub line: usize,
    pub end_line: usize,
    pub doc: Option<String>,
    pub methods: Vec<MethodInfo>,
}

/// An interface definition.
#[derive(Debug, Clone)]
pub struct InterfaceInfo {
    pub name: String,
    pub line: usize,
    pub end_line: usize,
    pub doc: Option<String>,
    pub code: Option<String>,
    pub methods: Vec<EnhancedFunctionInfo>,
    pub properties: Vec<PropertyInfo>,
}

/// A property (C#, TypeScript, ...).
#[derive(Debug, Clone)]
pub struct PropertyInfo {
    pub name: String,
    pub line: usize,
    pub end_line: usize,
    pub property_type: Option<String>,
    pub doc: Option<String>,
}

/// The shape of a source file.
#[derive(Debug)]
pub struct EnhancedFileShape {
    pub path: Option<String>,
    pub language: Option<String>,
    pub functions: Vec<EnhancedFunctionInfo>,
    pub structs: Vec<EnhancedStructInfo>,
    pub classes: Vec<EnhancedClassInfo>,
    pub imports: Vec<ImportInfo>,
    pub impl_blocks: Vec<ImplBlockInfo>,
    pub traits: Vec<TraitInfo>,
    pub interfaces: Vec<InterfaceInfo>,
    pub properties: Vec<PropertyInfo>,
    pub dependencies: Vec<EnhancedFileShape>,
}

/// A theme variable of an `@theme` block.
#[derive(Debug, Clone)]
pub struct ThemeVariable {
    pub name: String,
    pub value: String,
    pub line: usize,
}

/// A component class of an `@layer` block.
#[derive(Debug, Clone)]
pub struct CustomClass {
    pub name: String,
    pub applied_utilities: Vec<String>,
    pub layer: Option<String>,
    pub line: usize,
}

/// A keyframe animation.
#[derive(Debug, Clone)]
pub struct KeyframeInfo {
    pub name: String,
    pub line: usize,
}

/// The shape of a (Tailwind) CSS file.
#[derive(Debug, Clone)]
pub struct CssFileShape {
    pub path: Option<String>,
    pub theme: Vec<ThemeVariable>,
    pub custom_classes: Vec<CustomClass>,
    pub keyframes: Vec<KeyframeInfo>,
}

/// An HTML element with an id.
#[derive(Debug, Clone)]
pub struct HtmlIdInfo {
    pub tag: String,
    pub id: String,
    pub line: usize,
}

/// A script reference.
#[derive(Debug, Clone)]
pub struct ScriptInfo {
    pub src: Option<String>,
    pub inline: bool,
    pub line: usize,
}

/// A style reference.
#[derive(Debug, Clone)]
pub struct StyleInfo {
    pub href: Option<String>,
    pub inline: bool,
    pub line: usize,
}

/// The shape of an HTML file.
#[derive(Debug, Clone)]
pub struct HtmlFileShape {
    pub path: Option<String>,
    pub ids: Vec<HtmlIdInfo>,
    pub classes_used: Vec<String>,
    pub scripts: Vec<ScriptInfo>,
    pub styles: Vec<StyleInfo>,
}

} // verus!

verus! {

// ---------------------------------------------------------------------------
// Code, signatures and doc comments of declaration nodes
// ---------------------------------------------------------------------------

/// The code of node `i`: its text, none when empty.
pub open spec fn node_code(t: SyntaxTree, i: int) -> Option<Seq<char>> {
    if t.text(i).len() == 0 {
        None
    } else {
        Some(t.text(i))
    }
}

/// The code of node `i` (see `node_code`).
pub fn extract_code(tree: &SyntaxTree, i: usize) -> (r: Option<String>)
    requires
        tree.wf(),
        i < tree.len(),
    ensures
        match r {
            Some(c) => node_code(*tree, i as int) == Some(c@),
            None => node_code(*tree, i as int) is None,
        },
{
    let n = &tree.nodes[i];
    if n.start >= n.end {
        return None;
    }
    Some(tree.node_text(i))
}

/// Kinds of the body that ends a signature.
pub open spec fn body_kind(k: Seq<char>) -> bool {
    k == "block"@ || k == "statement_block"@ || k == "body"@ || k == "compound_statement"@ || k
        == "field_declaration_list"@
}

/// The first node of `cs` that is a body.
pub open spec fn first_body(t: SyntaxTree, cs: Seq<usize>) -> Option<usize>
    decreases cs.len(),
{
    if cs.len() == 0 {
        None
    } else if body_kind(t.kind(cs[0] as int)) {
        Some(cs[0])
    } else {
        first_body(t, cs.drop_first())
    }
}

/// Prefixes that mark the line where a declaration starts (after
/// attributes and decorators).
pub open spec fn declaration_keywords() -> Seq<Seq<char>> {
    seq![
        "fn "@, "pub fn "@, "async fn "@, "pub async fn "@, "struct "@, "pub struct "@,
        "class "@, "def "@, "async def "@, "function "@, "export function "@,
        "export async function "@, "func "@, "type "@,
    ]
}

/// A line starts a declaration.
pub open spec fn declaration_line(line: Seq<char>) -> bool {
    exists|k: int|
        0 <= k < declaration_keywords().len() && starts_with(
            trim(line),
            #[trigger] declaration_keywords()[k],
        )
}

/// Text from the start of node `i` to its body (or its end): where the
/// body would start before the node, nothing.
pub open spec fn signature_region(t: SyntaxTree, i: int) -> Seq<char> {
    let start = t.nodes@[i].start as int;
    let end = match first_body(t, t.children(i)) {
        Some(b) => t.nodes@[b as int].start as int,
        None => t.nodes@[i].end as int,
    };
    if start <= end {
        t.source@.subrange(start, end)
    } else {
        seq![]
    }
}

/// The signature of a declaration: the lines of its text before the body,
/// from the first line that starts a declaration, trimmed.
pub open spec fn declaration_signature(t: SyntaxTree, i: int) -> Seq<char> {
    let ls = lines(signature_region(t, i));
    trim(join(ls.skip(first_declaration_line(ls)), "\n"@))
}

/// Index of the first line of `ls` that starts a declaration, or 0.
pub open spec fn first_declaration_line(ls: Seq<Seq<char>>) -> int {
    if exists|j: int| 0 <= j < ls.len() && declaration_line(#[trigger] ls[j]) {
        choose|j: int|
            0 <= j < ls.len() && declaration_line(ls[j]) && forall|q: int|
                0 <= q < j ==> !declaration_line(#[trigger] ls[q])
    } else {
        0
    }
}

fn declaration_keyword_list() -> (r: Vec<&'static str>)
    ensures
        r@.map_values(|s: &str| s@) == declaration_keywords(),
{
    let r = vec![
        "fn ", "pub fn ", "async fn ", "pub async fn ", "struct ", "pub struct ",
        "class ", "def ", "async def ", "function ", "export function ",
        "export async function ", "func ", "type ",
    ];
    assert(r@.map_values(|s: &str| s@) =~= declaration_keywords());
    r
}

fn is_declaration_line(line: &[char]) -> (r: bool)
    ensures
        r == declaration_line(line@),
{
    let t = trim_chars(line);
    let kws = declaration_keyword_list();
    let mut k: usize = 0;
    while k < kws.len()
        invariant
            kws@.map_values(|s: &str| s@) == declaration_keywords(),
            t@ == trim(line@),
            k <= kws.len(),
            forall|j: int| 0 <= j < k ==> !starts_with(t@, #[trigger] declaration_keywords()[j]),
        decreases kws.len() - k,
    {
        assert(declaration_keywords()[k as int] == kws@[k as int]@);
        if starts_with_lit(t.as_slice(), kws[k]) {
            assert(starts_with(trim(line@), declaration_keywords()[k as int]));
            return true;
        }
        k = k + 1;
    }
    false
}

/// The first body child of node `i`.
fn find_body_child(tree: &SyntaxTree, i: usize) -> (r: Option<usize>)
    requires
        tree.wf(),
        i < tree.len(),
    ensures
        r == first_body(*tree, tree.children(i as int)),
        r matches Some(b) ==> b < tree.len(),
{
    let cs = tree.children_of(i);
    let mut k: usize = 0;
    assert(cs@.skip(0) =~= cs@);
    while k < cs.len()
        invariant
            tree.wf(),
            cs@ == tree.children(i as int),
            forall|j: int| 0 <= j < cs@.len() ==> (#[trigger] cs@[j]) < tree.len(),
            k <= cs.len(),
            first_body(*tree, cs@) == first_body(*tree, cs@.skip(k as int)),
        decreases cs.len() - k,
    {
        let c = cs[k];
        assert(cs@.skip(k as int)[0] == c);
        if tree.kind_is(c, "block") || tree.kind_is(c, "statement_block") || tree.kind_is(c, "body")
            || tree.kind_is(c, "compound_statement") || tree.kind_is(c, "field_declaration_list") {
            return Some(c);
        }
        assert(cs@.skip(k as int).drop_first() =~= cs@.skip(k + 1));
        k = k + 1;
    }
    None
}

/// The signature of a declaration node (see `declaration_signature`).
pub fn extract_signature(tree: &SyntaxTree, i: usize) -> (r: String)
    requires
        tree.wf(),
        i < tree.len(),
    ensures
        r@ == declaration_signature(*tree, i as int),
{
    let start = tree.nodes[i].start;
    let end = match find_body_child(tree, i) {
        Some(b) => tree.nodes[b].start,
        None => tree.nodes[i].end,
    };
    let region = if start <= end && end <= tree.source.len() {
        slice_range(tree.source.as_slice(), start, end)
    } else {
        Vec::new()
    };
    assert(region@ =~= signature_region(*tree, i as int));
    let lb = line_bounds(region.as_slice());
    let ghost ls = lines(region@);
    // First declaration line.
    let mut d: usize = 0;
    let mut found = false;
    while d < lb.len() && !found
        invariant
            ls == lines(region@),
            lb@.len() == ls.len(),
            forall|q: int|
                0 <= q < lb@.len() ==> {
                    &&& (#[trigger] lb@[q]).0 <= lb@[q].1 <= region@.len()
                    &&& region@.subrange(lb@[q].0 as int, lb@[q].1 as int) == ls[q]
                },
            d <= lb.len(),
            found ==> d < lb.len() && declaration_line(ls[d as int]),
            forall|q: int| 0 <= q < d ==> !declaration_line(#[trigger] ls[q]),
        decreases lb.len() + 1 - d - (if found { 1int } else { 0int }),
    {
        let (a, b) = lb[d];
        let line = slice_range(region.as_slice(), a, b);
        if is_declaration_line(line.as_slice()) {
            found = true;
        } else {
            d = d + 1;
        }
    }
    let first = if found {
        d
    } else {
        0
    };
    proof {
        if found {
            let c = choose|j: int|
                0 <= j < ls.len() && declaration_line(ls[j]) && forall|q: int|
                    0 <= q < j ==> !declaration_line(#[trigger] ls[q]);
            assert(0 <= d < ls.len() && declaration_line(ls[d as int]) && forall|q: int|
                0 <= q < d ==> !declaration_line(#[trigger] ls[q]));
            if c < d {
                assert(!declaration_line(ls[c]));
            }
            if c > d {
                assert(!declaration_line(ls[d as int]));
            }
            assert(first_declaration_line(ls) == d);
        } else {
            assert(first_declaration_line(ls) == 0);
        }
    }
    let mut joined: Vec<char> = Vec::new();
    let mut j = first;
    while j < lb.len()
        invariant
            ls == lines(region@),
            lb@.len() == ls.len(),
            forall|q: int|
                0 <= q < lb@.len() ==> {
                    &&& (#[trigger] lb@[q]).0 <= lb@[q].1 <= region@.len()
                    &&& region@.subrange(lb@[q].0 as int, lb@[q].1 as int) == ls[q]
                },
            first <= j <= lb.len(),
            joined@ == join(ls.subrange(first as int, j as int), "\n"@),
        decreases lb.len() - j,
    {
        let (a, b) = lb[j];
        if j > first {
            joined.push('\n');
            proof {
                reveal_strlit("\n");
            }
        }
        let ghost before = joined@;
        let mut q = a;
        while q < b
            invariant
                a <= q <= b <= region@.len(),
                joined@ == before + region@.subrange(a as int, q as int),
            decreases b - q,
        {
            joined.push(region[q]);
            assert(before + region@.subrange(a as int, q as int) + seq![region@[q as int]] =~= before
                + region@.subrange(a as int, q + 1));
            q = q + 1;
        }
        proof {
            let p = ls.subrange(first as int, j + 1);
            assert(p.drop_last() =~= ls.subrange(first as int, j as int));
            assert(p.last() == ls[j as int]);
            if j == first {
                assert(p.len() == 1);
                assert(joined@ =~= p[0]);
            } else {
                assert(joined@ =~= join(p.drop_last(), "\n"@) + "\n"@ + p.last());
            }
        }
        j = j + 1;
    }
    assert(ls.subrange(first as int, lb.len() as int) =~= ls.skip(first as int));
    let (x, y) = trim_bounds(joined.as_slice(), 0, joined.len());
    assert(joined@.subrange(0, joined@.len() as int) == joined@);
    crate::text::string_of_range(joined.as_slice(), x, y)
}


/// Node kinds that hold comments in `l`.
pub open spec fn comment_kind(k: Seq<char>, l: Language) -> bool {
    match l {
        Language::Rust | Language::JavaScript | Language::TypeScript | Language::Swift
        | Language::CSharp | Language::Java | Language::Go => k == "line_comment"@ || k
            == "block_comment"@ || k == "comment"@,
        Language::Python => k == "comment"@,
        _ => false,
    }
}

/// Whether node `i` is a comment in `language`.
pub fn is_comment_node(tree: &SyntaxTree, i: usize, language: Language) -> (r: bool)
    requires
        i < tree.len(),
    ensures
        r == comment_kind(tree.kind(i as int), language),
{
    match language {
        Language::Rust | Language::JavaScript | Language::TypeScript | Language::Swift
        | Language::CSharp | Language::Java | Language::Go => tree.kind_is(i, "line_comment")
            || tree.kind_is(i, "block_comment") || tree.kind_is(i, "comment"),
        Language::Python => tree.kind_is(i, "comment"),
        _ => false,
    }
}

/// The documentation of the comments that end `sibs` (scanning back from the
/// last sibling over comments and error nodes, up to the first other node),
/// top to bottom.
pub open spec fn doc_scan(t: SyntaxTree, sibs: Seq<usize>, l: Language) -> Seq<Seq<char>>
    decreases sibs.len(),
{
    if sibs.len() == 0 {
        seq![]
    } else {
        let s = sibs.last() as int;
        if comment_kind(t.kind(s), l) {
            doc_scan(t, sibs.drop_last(), l).push(doc_from_comment(t.text(s), l))
        } else if t.kind(s) != "ERROR"@ && t.kind(s).len() != 0 {
            seq![]
        } else {
            doc_scan(t, sibs.drop_last(), l)
        }
    }
}

/// The first non-empty entry of `ds`.
pub open spec fn first_nonempty(ds: Seq<Seq<char>>) -> Option<Seq<char>>
    decreases ds.len(),
{
    if ds.len() == 0 {
        None
    } else if ds[0].len() != 0 {
        Some(ds[0])
    } else {
        first_nonempty(ds.drop_first())
    }
}

/// The documentation of node `i`: the first non-empty doc line of the
/// comments just before it (all of them joined when every one is empty);
/// with no such comments, the non-empty doc of a comment just before its
/// parent.
pub open spec fn doc_comment(t: SyntaxTree, i: int, l: Language) -> Option<Seq<char>> {
    let ds = doc_scan(t, t.siblings_before(i), l);
    if ds.len() > 0 {
        match first_nonempty(ds) {
            Some(d) => Some(d),
            None => Some(join(ds, "\n"@)),
        }
    } else {
        match t.parent(i) {
            None => None,
            Some(p) => {
                let ps = t.siblings_before(p as int);
                if ps.len() > 0 && comment_kind(t.kind(ps.last() as int), l) && doc_from_comment(
                    t.text(ps.last() as int),
                    l,
                ).len() != 0 {
                    Some(doc_from_comment(t.text(ps.last() as int), l))
                } else {
                    None
                }
            },
        }
    }
}

fn first_nonempty_string(ds: &Vec<String>) -> (r: Option<String>)
    ensures
        match r {
            Some(d) => first_nonempty(views(ds@)) == Some(d@),
            None => first_nonempty(views(ds@)) is None,
        },
{
    let mut k: usize = 0;
    assert(views(ds@).skip(0) =~= views(ds@));
    while k < ds.len()
        invariant
            k <= ds.len(),
            first_nonempty(views(ds@)) == first_nonempty(views(ds@).skip(k as int)),
        decreases ds.len() - k,
    {
        assert(views(ds@).skip(k as int)[0] == ds@[k as int]@);
        if !ds[k].as_str().is_empty() {
            return Some(ds[k].clone());
        }
        assert(views(ds@).skip(k as int).drop_first() =~= views(ds@).skip(k + 1));
        k = k + 1;
    }
    None
}

/// The documentation of node `i` (see `doc_comment`).
pub fn extract_doc_comment(tree: &SyntaxTree, i: usize, language: Language) -> (r: Option<String>)
    requires
        tree.wf(),
        i < tree.len(),
    ensures
        match r {
            Some(d) => doc_comment(*tree, i as int, language) == Some(d@),
            None => doc_comment(*tree, i as int, language) is None,
        },
{
    let sibs = tree.prev_siblings(i);
    let ghost full = doc_scan(*tree, sibs@, language);
    let mut acc: Vec<String> = Vec::new();
    let mut k = sibs.len();
    let mut stopped = false;
    assert(sibs@.take(k as int) =~= sibs@);
    while k > 0 && !stopped
        invariant
            tree.wf(),
            k <= sibs.len(),
            forall|j: int| 0 <= j < sibs@.len() ==> (#[trigger] sibs@[j]) < tree.len(),
            full == doc_scan(*tree, sibs@, language),
            stopped ==> full == views(acc@),
            !stopped ==> full == doc_scan(*tree, sibs@.take(k as int), language) + views(acc@),
        decreases k + (if stopped { 0int } else { 1int }),
    {
        let s = sibs[k - 1];
        let ghost pre = sibs@.take(k as int);
        assert(pre.last() == s);
        assert(pre.drop_last() =~= sibs@.take(k - 1));
        if is_comment_node(tree, s, language) {
            let text = tree.node_text(s);
            let d = extract_doc_from_comment(text.as_str(), language);
            let ghost old_acc = views(acc@);
            acc.insert(0, d);
            assert(views(acc@) =~= seq![d@] + old_acc);
            k = k - 1;
        } else if !tree.kind_is(s, "ERROR") && !tree.nodes[s].kind.as_str().is_empty() {
            stopped = true;
        } else {
            k = k - 1;
        }
    }
    if !stopped {
        assert(sibs@.take(0) =~= Seq::<usize>::empty());
        assert(full =~= views(acc@));
    }
    if acc.len() > 0 {
        return match first_nonempty_string(&acc) {
            Some(d) => Some(d),
            None => Some(join_strings(&acc, "\n")),
        };
    }
    match tree.nodes[i].parent {
        None => None,
        Some(p) => {
            let ps = tree.prev_siblings(p);
            if ps.len() > 0 && is_comment_node(tree, ps[ps.len() - 1], language) {
                let text = tree.node_text(ps[ps.len() - 1]);
                let d = extract_doc_from_comment(text.as_str(), language);
                if !d.as_str().is_empty() {
                    return Some(d);
                }
            }
            None
        },
    }
}

// ---------------------------------------------------------------------------
// Views of the shape entries, and the node facts they are built from
// ---------------------------------------------------------------------------

/// An optional string as characters.
pub open spec fn opt_view(o: Option<String>) -> Option<Seq<char>> {
    match o {
        Some(s) => Some(s@),
        None => None,
    }
}

/// Name, signature, line, end line, doc and code of a method.
pub type MethodView = (Seq<char>, Seq<char>, usize, usize, Option<Seq<char>>, Option<Seq<char>>);

pub open spec fn method_view(m: MethodInfo) -> MethodView {
    (m.name@, m.signature@, m.line, m.end_line, opt_view(m.doc), opt_view(m.code))
}

pub open spec fn method_views(v: Seq<MethodInfo>) -> Seq<MethodView> {
    v.map_values(|m: MethodInfo| method_view(m))
}

/// Name, signature, line, end line, doc, code and annotations of a function.
pub type FunctionView = (
    Seq<char>,
    Seq<char>,
    usize,
    usize,
    Option<Seq<char>>,
    Option<Seq<char>>,
    Seq<Seq<char>>,
);

pub open spec fn function_view(f: EnhancedFunctionInfo) -> FunctionView {
    (
        f.name@,
        f.signature@,
        f.line,
        f.end_line,
        opt_view(f.doc),
        opt_view(f.code),
        views(f.annotations@),
    )
}

pub open spec fn function_views(v: Seq<EnhancedFunctionInfo>) -> Seq<FunctionView> {
    v.map_values(|f: EnhancedFunctionInfo| function_view(f))
}

/// Name, line, end line, doc and code of a struct.
pub type StructView = (Seq<char>, usize, usize, Option<Seq<char>>, Option<Seq<char>>);

pub open spec fn struct_view(s: EnhancedStructInfo) -> StructView {
    (s.name@, s.line, s.end_line, opt_view(s.doc), opt_view(s.code))
}

pub open spec fn struct_views(v: Seq<EnhancedStructInfo>) -> Seq<StructView> {
    v.map_values(|s: EnhancedStructInfo| struct_view(s))
}

/// Text and line of an import.
pub type ImportView = (Seq<char>, usize);

pub open spec fn import_view(i: ImportInfo) -> ImportView {
    (i.text@, i.line)
}

pub open spec fn import_views(v: Seq<ImportInfo>) -> Seq<ImportView> {
    v.map_values(|i: ImportInfo| import_view(i))
}

/// Type, trait, line, end line and methods of an impl block.
pub type ImplView = (Seq<char>, Option<Seq<char>>, usize, usize, Seq<MethodView>);

pub open spec fn impl_view(b: ImplBlockInfo) -> ImplView {
    (b.impl_type@, opt_view(b.trait_name), b.line, b.end_line, method_views(b.methods@))
}

pub open spec fn impl_views(v: Seq<ImplBlockInfo>) -> Seq<ImplView> {
    v.map_values(|b: ImplBlockInfo| impl_view(b))
}

/// Name, line, end line, doc and methods of a trait.
pub type TraitView = (Seq<char>, usize, usize, Option<Seq<char>>, Seq<MethodView>);

pub open spec fn trait_view(t: TraitInfo) -> TraitView {
    (t.name@, t.line, t.end_line, opt_view(t.doc), method_views(t.methods@))
}

pub open spec fn trait_views(v: Seq<TraitInfo>) -> Seq<TraitView> {
    v.map_values(|t: TraitInfo| trait_view(t))
}

/// 1-based line where node `i` starts.
pub open spec fn node_line(t: SyntaxTree, i: int) -> usize {
    (t.nodes@[i].start_row + 1) as usize
}

/// 1-based line where node `i` ends.
pub open spec fn node_end_line(t: SyntaxTree, i: int) -> usize {
    (t.nodes@[i].end_row + 1) as usize
}

/// 1-based line where node `i` starts.
pub fn start_line(tree: &SyntaxTree, i: usize) -> (r: usize)
    requires
        tree.wf(),
        i < tree.len(),
    ensures
        r == node_line(*tree, i as int),
{
    tree.nodes[i].start_row + 1
}

/// 1-based line where node `i` ends.
pub fn end_line(tree: &SyntaxTree, i: usize) -> (r: usize)
    requires
        tree.wf(),
        i < tree.len(),
    ensures
        r == node_end_line(*tree, i as int),
{
    tree.nodes[i].end_row + 1
}

/// The text of the child of `i` in `field`, or `default`.
pub open spec fn field_text_or(t: SyntaxTree, i: int, field: Seq<char>, default: Seq<char>) -> Seq<
    char,
> {
    match t.child_by_field(i, field) {
        Some(n) => t.text(n as int),
        None => default,
    }
}

/// The text of the child of `i` in `field`, or `default`.
pub fn field_text(tree: &SyntaxTree, i: usize, field: &str, default: &str) -> (r: String)
    requires
        tree.wf(),
    ensures
        r@ == field_text_or(*tree, i as int, field@, default@),
{
    match tree.child_by_field_name(i, field) {
        Some(n) => tree.node_text(n),
        None => {
            let mut s = String::new();
            push_str(&mut s, default);
            s
        },
    }
}

/// The code of node `i` when code is asked for.
pub open spec fn code_if(t: SyntaxTree, i: int, include_code: bool) -> Option<Seq<char>> {
    if include_code {
        node_code(t, i)
    } else {
        None
    }
}

/// The code of node `i` when code is asked for (see `code_if`).
pub fn code_when(tree: &SyntaxTree, i: usize, include_code: bool) -> (r: Option<String>)
    requires
        tree.wf(),
        i < tree.len(),
    ensures
        opt_view(r) == code_if(*tree, i as int, include_code),
{
    if include_code {
        extract_code(tree, i)
    } else {
        None
    }
}

/// Node `i` is of kind `kind` and its `name` child is of kind `name_kind`.
pub open spec fn named_node(t: SyntaxTree, i: int, kind: Seq<char>, name_kind: Seq<char>) -> bool {
    &&& t.kind(i) == kind
    &&& t.child_by_field(i, "name"@) matches Some(n) && t.kind(n as int) == name_kind
}

/// Whether node `i` is of kind `kind` with a `name` child of kind `name_kind`.
pub fn is_named_node(tree: &SyntaxTree, i: usize, kind: &str, name_kind: &str) -> (r: bool)
    requires
        tree.wf(),
        i < tree.len(),
    ensures
        r == named_node(*tree, i as int, kind@, name_kind@),
{
    if !tree.kind_is(i, kind) {
        return false;
    }
    match tree.child_by_field_name(i, "name") {
        Some(n) => tree.kind_is(n, name_kind),
        None => false,
    }
}

/// Name, line, end line, type and doc of a property.
pub type PropertyView = (Seq<char>, usize, usize, Option<Seq<char>>, Option<Seq<char>>);

pub open spec fn property_view(p: PropertyInfo) -> PropertyView {
    (p.name@, p.line, p.end_line, opt_view(p.property_type), opt_view(p.doc))
}

pub open spec fn property_views(v: Seq<PropertyInfo>) -> Seq<PropertyView> {
    v.map_values(|p: PropertyInfo| property_view(p))
}

/// Name, line, end line, doc, code, methods, properties, fields and
/// implemented interfaces of a class.
pub type ClassView = (
    Seq<char>,
    usize,
    usize,
    Option<Seq<char>>,
    Option<Seq<char>>,
    Seq<FunctionView>,
    Seq<PropertyView>,
    Seq<PropertyView>,
    Seq<Seq<char>>,
);

pub open spec fn class_view(c: EnhancedClassInfo) -> ClassView {
    (
        c.name@,
        c.line,
        c.end_line,
        opt_view(c.doc),
        opt_view(c.code),
        function_views(c.methods@),
        property_views(c.properties@),
        property_views(c.fields@),
        views(c.implements@),
    )
}

pub open spec fn class_views(v: Seq<EnhancedClassInfo>) -> Seq<ClassView> {
    v.map_values(|c: EnhancedClassInfo| class_view(c))
}

/// Name, line, end line, doc, code, methods and properties of an interface.
pub type InterfaceView = (
    Seq<char>,
    usize,
    usize,
    Option<Seq<char>>,
    Option<Seq<char>>,
    Seq<FunctionView>,
    Seq<PropertyView>,
);

pub open spec fn interface_view(i: InterfaceInfo) -> InterfaceView {
    (
        i.name@,
        i.line,
        i.end_line,
        opt_view(i.doc),
        opt_view(i.code),
        function_views(i.methods@),
        property_views(i.properties@),
    )
}

pub open spec fn interface_views(v: Seq<InterfaceInfo>) -> Seq<InterfaceView> {
    v.map_values(|i: InterfaceInfo| interface_view(i))
}

/// Kinds of class-like declarations.
pub open spec fn class_kind(k: Seq<char>) -> bool {
    k == "class_definition"@ || k == "class_declaration"@ || k == "struct_declaration"@
}

/// Some strict ancestor of `i` is a class-like declaration.
pub open spec fn inside_class(t: SyntaxTree, i: int) -> bool
    decreases i,
{
    if 0 <= i < t.len() {
        match t.parent(i) {
            None => false,
            Some(p) => if p < i {
                class_kind(t.kind(p as int)) || inside_class(t, p as int)
            } else {
                false
            },
        }
    } else {
        false
    }
}

/// Whether node `i` lies inside a class-like declaration.
pub fn is_inside_class(tree: &SyntaxTree, i: usize) -> (r: bool)
    requires
        tree.wf(),
        i < tree.len(),
    ensures
        r == inside_class(*tree, i as int),
{
    let mut cur = i;
    while cur > 0
        invariant
            tree.wf(),
            cur < tree.len(),
            inside_class(*tree, i as int) == inside_class(*tree, cur as int),
        decreases cur,
    {
        let p = match tree.nodes[cur].parent {
            Some(p) => p,
            None => return false,
        };
        if tree.kind_is(p, "class_definition") || tree.kind_is(p, "class_declaration")
            || tree.kind_is(p, "struct_declaration") {
            return true;
        }
        cur = p;
    }
    false
}

/// A named declaration as a function entry: the text of its `name` child,
/// its signature, lines, doc comment in `l` and (when asked for) code.
pub open spec fn function_entry(t: SyntaxTree, i: int, l: Language, include_code: bool) -> FunctionView {
    (
        field_text_or(t, i, "name"@, ""@),
        declaration_signature(t, i),
        node_line(t, i),
        node_end_line(t, i),
        doc_comment(t, i, l),
        code_if(t, i, include_code),
        seq![],
    )
}

/// Build the function entry of node `i` (see `function_entry`).
pub fn function_entry_of(tree: &SyntaxTree, i: usize, language: Language, include_code: bool) -> (r:
    EnhancedFunctionInfo)
    requires
        tree.wf(),
        i < tree.len(),
    ensures
        function_view(r) == function_entry(*tree, i as int, language, include_code),
{
    let f = EnhancedFunctionInfo {
        name: field_text(tree, i, "name", ""),
        signature: extract_signature(tree, i),
        line: start_line(tree, i),
        end_line: end_line(tree, i),
        doc: extract_doc_comment(tree, i, language),
        code: code_when(tree, i, include_code),
        annotations: Vec::new(),
    };
    assert(opt_view(f.doc) == doc_comment(*tree, i as int, language));
    assert(views(f.annotations@) =~= seq![]);
    f
}

/// Kinds of the methods of a class body in `l`.
pub open spec fn method_kind(k: Seq<char>, l: Language) -> bool {
    match l {
        Language::Python => k == "function_definition"@,
        Language::JavaScript | Language::TypeScript => k == "method_definition"@ || k
            == "function_declaration"@,
        Language::Swift => k == "function_declaration"@,
        _ => false,
    }
}

/// The methods among the nodes `cs` of a class body in `l`: nodes of a
/// method kind, not class-like, with a `name` child.
pub open spec fn class_methods_in(t: SyntaxTree, cs: Seq<usize>, l: Language, include_code: bool) -> Seq<
    FunctionView,
>
    decreases cs.len(),
{
    if cs.len() == 0 {
        seq![]
    } else {
        let rest = class_methods_in(t, cs.drop_last(), l, include_code);
        let c = cs.last() as int;
        if !class_kind(t.kind(c)) && method_kind(t.kind(c), l) && t.child_by_field(c, "name"@)
            is Some {
            rest.push(function_entry(t, c, l, include_code))
        } else {
            rest
        }
    }
}

/// The methods of class node `i` in `l` (see `class_methods_in`); none for
/// a language without class bodies here.
pub open spec fn class_methods(t: SyntaxTree, i: int, l: Language, include_code: bool) -> Seq<
    FunctionView,
> {
    let has_body = match l {
        Language::Python | Language::JavaScript | Language::TypeScript | Language::Swift => true,
        _ => false,
    };
    if has_body {
        match t.child_by_field(i, "body"@) {
            Some(b) => class_methods_in(t, t.children(b as int), l, include_code),
            None => seq![],
        }
    } else {
        seq![]
    }
}

/// The methods of class node `i` (see `class_methods`).
pub fn extract_class_methods(tree: &SyntaxTree, i: usize, language: Language, include_code: bool) -> (r:
    Vec<EnhancedFunctionInfo>)
    requires
        tree.wf(),
    ensures
        function_views(r@) == class_methods(*tree, i as int, language, include_code),
{
    let mut out: Vec<EnhancedFunctionInfo> = Vec::new();
    let has_body = match language {
        Language::Python | Language::JavaScript | Language::TypeScript | Language::Swift => true,
        _ => false,
    };
    if !has_body {
        assert(function_views(out@) =~= seq![]);
        return out;
    }
    let body = match tree.child_by_field_name(i, "body") {
        Some(b) => b,
        None => {
            assert(function_views(out@) =~= seq![]);
            return out;
        },
    };
    let cs = tree.children_of(body);
    let mut k: usize = 0;
    while k < cs.len()
        invariant
            tree.wf(),
            cs@ == tree.children(body as int),
            forall|j: int| 0 <= j < cs@.len() ==> (#[trigger] cs@[j]) < tree.len(),
            k <= cs.len(),
            function_views(out@) == class_methods_in(*tree, cs@.take(k as int), language, include_code),
        decreases cs.len() - k,
    {
        let c = cs[k];
        assert(cs@.take(k + 1).drop_last() =~= cs@.take(k as int));
        assert(cs@.take(k + 1).last() == c);
        let is_class = tree.kind_is(c, "class_definition") || tree.kind_is(c, "class_declaration")
            || tree.kind_is(c, "struct_declaration");
        let is_method = match language {
            Language::Python => tree.kind_is(c, "function_definition"),
            Language::JavaScript | Language::TypeScript => tree.kind_is(c, "method_definition")
                || tree.kind_is(c, "function_declaration"),
            Language::Swift => tree.kind_is(c, "function_declaration"),
            _ => false,
        };
        if !is_class && is_method && tree.child_by_field_name(c, "name").is_some() {
            let f = function_entry_of(tree, c, language, include_code);
            let ghost before = out@;
            out.push(f);
            assert(function_views(out@) =~= function_views(before).push(function_view(f)));
        }
        k = k + 1;
    }
    assert(cs@.take(cs@.len() as int) =~= cs@);
    out
}

/// The lists of `s` are those of a file in `l`: per language as its
/// extractor states; HTML and CSS have none.
pub open spec fn shape_lists(s: EnhancedFileShape, t: SyntaxTree, l: Language, ic: bool) -> bool {
    match l {
        Language::Rust => rust_shape_is(s, t, ic),
        Language::Python => python_shape_is(s, t, ic),
        Language::JavaScript | Language::TypeScript => js_shape_is(s, t, l, ic),
        Language::Swift => swift_shape_is(s, t, ic),
        Language::CSharp | Language::Java => member_shape_is(s, t, l, ic),
        Language::Go => go_shape_is(s, t, ic),
        Language::Haskell => haskell_shape_is(s, t, ic),
        Language::Html | Language::Css => {
            &&& s.functions@.len() == 0
            &&& s.structs@.len() == 0
            &&& s.classes@.len() == 0
            &&& s.imports@.len() == 0
            &&& s.impl_blocks@.len() == 0
            &&& s.traits@.len() == 0
            &&& s.interfaces@.len() == 0
            &&& s.properties@.len() == 0
            &&& s.dependencies@.len() == 0
        },
    }
}

/// The shape of a parsed file in `language`, with its path and the
/// language's name.
pub fn extract_enhanced_shape(
    tree: &SyntaxTree,
    language: Language,
    file_path: Option<&str>,
    include_code: bool,
) -> (r: EnhancedFileShape)
    requires
        tree.wf(),
    ensures
        match file_path {
            Some(p) => r.path matches Some(q) && q@ == p@,
            None => r.path is None,
        },
        r.language matches Some(n) && n@ == language_name(language),
        shape_lists(r, *tree, language, include_code),
{
    let mut shape = match language {
        Language::Rust => extract_rust_enhanced(tree, include_code),
        Language::Python => extract_python_enhanced(tree, include_code),
        Language::JavaScript | Language::TypeScript => extract_js_enhanced(
            tree,
            language,
            include_code,
        ),
        Language::Swift => extract_swift_enhanced(tree, include_code),
        Language::CSharp | Language::Java => extract_member_enhanced(tree, language, include_code),
        Language::Go => extract_go_enhanced(tree, include_code),
        Language::Haskell => extract_haskell_enhanced(tree, include_code),
        Language::Html | Language::Css => EnhancedFileShape {
            path: None,
            language: None,
            functions: Vec::new(),
            structs: Vec::new(),
            classes: Vec::new(),
            imports: Vec::new(),
            impl_blocks: Vec::new(),
            traits: Vec::new(),
            interfaces: Vec::new(),
            properties: Vec::new(),
            dependencies: Vec::new(),
        },
    };
    shape.path = match file_path {
        Some(p) => {
            let mut s = String::new();
            push_str(&mut s, p);
            Some(s)
        },
        None => None,
    };
    let mut name = String::new();
    push_str(&mut name, language.name());
    shape.language = Some(name);
    shape
}
} // verus!
