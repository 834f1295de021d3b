//! The context needed to edit one symbol: the symbol with its code, the
//! functions and methods it calls (from its file and the files it depends
//! on), the types its text names and the imports it uses, as compact rows
//! cut to a token budget.
use vstd::prelude::*;
use crate::analysis::call_graph::{first_where, lemma_first_where};
use crate::analysis::shape::{
    EnhancedClassInfo, EnhancedFileShape, EnhancedFunctionInfo, EnhancedStructInfo, ImplBlockInfo,
    ImportInfo, InterfaceInfo, MethodInfo, opt_view,
};
use crate::analysis::call_graph::{
    ParsedFile, cl100k_tokens, count_cl100k_tokens, json_literal, quote_json,
};
use crate::analysis::calls::{called_names, collect_called_names};
use crate::analysis::comments::{CommentMode, leading_comment_block, prepend_leading_comments_to_code};
use crate::analysis::call_graph::path_language;
use crate::analysis::shape::{extract_enhanced_shape, shape_lists};
use crate::parser::{Language, detect_language, parse_code};
use crate::syntax::SyntaxTree;
use crate::analysis::shape::import_views;
use crate::parser::{LanguageError, ParseError};
use crate::rows::{decimal, decimal_string, format_row, join_rows, row_text};
use crate::text::{
    chars_of, join, line_bounds, lines, push_str, slice_range, str_eq, string_of, views,
};

verus! {

// ---------------------------------------------------------------------------
// The target symbol
// ---------------------------------------------------------------------------

/// The symbol to edit: name, lines, signature, code, and the class or type
/// it belongs to (empty for a free function).
#[derive(Debug)]
pub struct TargetSymbol {
    pub name: String,
    pub line: usize,
    pub end_line: usize,
    pub signature: String,
    pub code: String,
    pub scope: String,
}

/// A target as plain values: name, line, end line, signature, code, scope.
pub type TargetView = (Seq<char>, usize, usize, Seq<char>, Seq<char>, Seq<char>);

impl View for TargetSymbol {
    type V = TargetView;

    open spec fn view(&self) -> TargetView {
        (self.name@, self.line, self.end_line, self.signature@, self.code@, self.scope@)
    }
}

/// The code of an entry, or nothing.
pub open spec fn code_or_empty(code: Option<String>) -> Seq<char> {
    match code {
        Some(c) => c@,
        None => seq![],
    }
}

/// The target a function gives, in `scope`.
pub open spec fn function_target(f: EnhancedFunctionInfo, scope: Seq<char>) -> TargetView {
    (f.name@, f.line, f.end_line, f.signature@, code_or_empty(f.code), scope)
}

/// The target a method of an impl block gives.
pub open spec fn method_target(m: MethodInfo, scope: Seq<char>) -> TargetView {
    (m.name@, m.line, m.end_line, m.signature@, code_or_empty(m.code), scope)
}

fn clone_code(code: &Option<String>) -> (r: String)
    ensures
        r@ == code_or_empty(*code),
{
    match code {
        Some(c) => c.clone(),
        None => String::new(),
    }
}

fn string_from(s: &str) -> (r: String)
    ensures
        r@ == s@,
{
    let mut r = String::new();
    push_str(&mut r, s);
    r
}

/// The target a function gives, in `parent_scope`.
pub fn target_from_function(function: &EnhancedFunctionInfo, parent_scope: &str) -> (r: TargetSymbol)
    ensures
        r@ == function_target(*function, parent_scope@),
{
    TargetSymbol {
        name: function.name.clone(),
        line: function.line,
        end_line: function.end_line,
        signature: function.signature.clone(),
        code: clone_code(&function.code),
        scope: string_from(parent_scope),
    }
}

pub open spec fn function_named(sym: Seq<char>) -> spec_fn(EnhancedFunctionInfo) -> bool {
    |f: EnhancedFunctionInfo| f.name@ == sym
}

pub open spec fn method_named(sym: Seq<char>) -> spec_fn(MethodInfo) -> bool {
    |m: MethodInfo| m.name@ == sym
}

/// Search of the classes, first to last: a class of that name gives itself
/// (name as signature, itself as scope) when it has code and nothing when
/// it has none, and the search stops there; else its first method of that
/// name. `None` when no class matches.
pub open spec fn class_search(cs: Seq<EnhancedClassInfo>, sym: Seq<char>) -> Option<Option<TargetView>>
    decreases cs.len(),
{
    if cs.len() == 0 {
        None
    } else {
        let c = cs[0];
        if c.name@ == sym {
            Some(
                match c.code {
                    Some(code) => Some((c.name@, c.line, c.end_line, c.name@, code@, c.name@)),
                    None => None,
                },
            )
        } else {
            match first_where(c.methods@, function_named(sym)) {
                Some(k) => Some(Some(function_target(c.methods@[k], c.name@))),
                None => class_search(cs.drop_first(), sym),
            }
        }
    }
}

/// Search of the impl blocks, first to last, for a method of that name.
pub open spec fn impl_search(bs: Seq<ImplBlockInfo>, sym: Seq<char>) -> Option<TargetView>
    decreases bs.len(),
{
    if bs.len() == 0 {
        None
    } else {
        match first_where(bs[0].methods@, method_named(sym)) {
            Some(k) => Some(method_target(bs[0].methods@[k], bs[0].impl_type@)),
            None => impl_search(bs.drop_first(), sym),
        }
    }
}

/// The symbol to edit: the first function of that name; else what the
/// classes give (see `class_search`); else the first method of that name in
/// an impl block.
pub open spec fn target_of(s: EnhancedFileShape, sym: Seq<char>) -> Option<TargetView> {
    match first_where(s.functions@, function_named(sym)) {
        Some(k) => Some(function_target(s.functions@[k], seq![])),
        None => match class_search(s.classes@, sym) {
            Some(r) => r,
            None => impl_search(s.impl_blocks@, sym),
        },
    }
}

pub open spec fn opt_target(o: Option<TargetSymbol>) -> Option<TargetView> {
    match o {
        Some(t) => Some(t@),
        None => None,
    }
}

fn first_function_named(fs: &Vec<EnhancedFunctionInfo>, sym: &str) -> (r: Option<usize>)
    ensures
        match r {
            Some(k) => first_where(fs@, function_named(sym@)) == Some(k as int) && k < fs@.len(),
            None => first_where(fs@, function_named(sym@)) is None,
        },
{
    let ghost p = function_named(sym@);
    let mut i: usize = 0;
    while i < fs.len()
        invariant
            i <= fs.len(),
            p == function_named(sym@),
            forall|j: int| 0 <= j < i ==> !p(#[trigger] fs@[j]),
        decreases fs.len() - i,
    {
        if str_eq(fs[i].name.as_str(), sym) {
            proof {
                lemma_first_where(fs@, p);
                assert(p(fs@[i as int]));
                match first_where(fs@, p) {
                    Some(m) => {
                        if m < i {
                            assert(!p(fs@[m]));
                        } else if m > i {
                            assert(!p(fs@[i as int]));
                        }
                    },
                    None => {
                        assert(!p(fs@[i as int]));
                    },
                }
            }
            return Some(i);
        }
        assert(!p(fs@[i as int]));
        i = i + 1;
    }
    proof {
        lemma_first_where(fs@, p);
        if let Some(m) = first_where(fs@, p) {
            assert(!p(fs@[m]));
        }
    }
    None
}

fn first_method_named(ms: &Vec<MethodInfo>, sym: &str) -> (r: Option<usize>)
    ensures
        match r {
            Some(k) => first_where(ms@, method_named(sym@)) == Some(k as int) && k < ms@.len(),
            None => first_where(ms@, method_named(sym@)) is None,
        },
{
    let ghost p = method_named(sym@);
    let mut i: usize = 0;
    while i < ms.len()
        invariant
            i <= ms.len(),
            p == method_named(sym@),
            forall|j: int| 0 <= j < i ==> !p(#[trigger] ms@[j]),
        decreases ms.len() - i,
    {
        if str_eq(ms[i].name.as_str(), sym) {
            proof {
                lemma_first_where(ms@, p);
                assert(p(ms@[i as int]));
                match first_where(ms@, p) {
                    Some(m) => {
                        if m < i {
                            assert(!p(ms@[m]));
                        } else if m > i {
                            assert(!p(ms@[i as int]));
                        }
                    },
                    None => {
                        assert(!p(ms@[i as int]));
                    },
                }
            }
            return Some(i);
        }
        assert(!p(ms@[i as int]));
        i = i + 1;
    }
    proof {
        lemma_first_where(ms@, p);
        if let Some(m) = first_where(ms@, p) {
            assert(!p(ms@[m]));
        }
    }
    None
}

/// The symbol to edit in a shape (see `target_of`).
pub fn find_target_symbol(shape: &EnhancedFileShape, symbol: &str) -> (r: Option<TargetSymbol>)
    ensures
        opt_target(r) == target_of(*shape, symbol@),
{
    if let Some(k) = first_function_named(&shape.functions, symbol) {
        let t = target_from_function(&shape.functions[k], "");
        proof {
            reveal_strlit("");
            assert(""@ =~= Seq::<char>::empty());
        }
        return Some(t);
    }
    let mut i: usize = 0;
    assert(shape.classes@.skip(0) =~= shape.classes@);
    while i < shape.classes.len()
        invariant
            i <= shape.classes.len(),
            first_where(shape.functions@, function_named(symbol@)) is None,
            class_search(shape.classes@, symbol@) == class_search(
                shape.classes@.skip(i as int),
                symbol@,
            ),
        decreases shape.classes.len() - i,
    {
        let c = &shape.classes[i];
        assert(shape.classes@.skip(i as int)[0] == *c);
        if str_eq(c.name.as_str(), symbol) {
            return match &c.code {
                Some(code) => Some(
                    TargetSymbol {
                        name: c.name.clone(),
                        line: c.line,
                        end_line: c.end_line,
                        signature: c.name.clone(),
                        code: code.clone(),
                        scope: c.name.clone(),
                    },
                ),
                None => None,
            };
        }
        if let Some(k) = first_function_named(&c.methods, symbol) {
            return Some(target_from_function(&c.methods[k], c.name.as_str()));
        }
        assert(shape.classes@.skip(i as int).drop_first() =~= shape.classes@.skip(i + 1));
        i = i + 1;
    }
    let mut j: usize = 0;
    assert(shape.impl_blocks@.skip(0) =~= shape.impl_blocks@);
    while j < shape.impl_blocks.len()
        invariant
            j <= shape.impl_blocks.len(),
            class_search(shape.classes@, symbol@) is None,
            first_where(shape.functions@, function_named(symbol@)) is None,
            impl_search(shape.impl_blocks@, symbol@) == impl_search(
                shape.impl_blocks@.skip(j as int),
                symbol@,
            ),
        decreases shape.impl_blocks.len() - j,
    {
        let b = &shape.impl_blocks[j];
        assert(shape.impl_blocks@.skip(j as int)[0] == *b);
        if let Some(k) = first_method_named(&b.methods, symbol) {
            let m = &b.methods[k];
            return Some(
                TargetSymbol {
                    name: m.name.clone(),
                    line: m.line,
                    end_line: m.end_line,
                    signature: m.signature.clone(),
                    code: clone_code(&m.code),
                    scope: b.impl_type.clone(),
                },
            );
        }
        assert(shape.impl_blocks@.skip(j as int).drop_first() =~= shape.impl_blocks@.skip(j + 1));
        j = j + 1;
    }
    None
}

// ---------------------------------------------------------------------------
// Signatures of functions, methods and types
// ---------------------------------------------------------------------------

/// What a signature row stands for.
#[derive(Debug, Clone, Copy, PartialEq, Eq, Structural)]
pub enum SignatureKind {
    Fn,
    Method,
    DepFn,
    DepMethod,
    Struct,
    Class,
    Interface,
}

/// The name of a kind in a row.
pub open spec fn kind_text(k: SignatureKind) -> Seq<char> {
    match k {
        SignatureKind::Fn => "fn"@,
        SignatureKind::Method => "method"@,
        SignatureKind::DepFn => "dep_fn"@,
        SignatureKind::DepMethod => "dep_method"@,
        SignatureKind::Struct => "struct"@,
        SignatureKind::Class => "class"@,
        SignatureKind::Interface => "interface"@,
    }
}

impl SignatureKind {
    /// The name of the kind in a row.
    pub fn as_str(&self) -> (r: &'static str)
        ensures
            r@ == kind_text(*self),
    {
        match self {
            SignatureKind::Fn => "fn",
            SignatureKind::Method => "method",
            SignatureKind::DepFn => "dep_fn",
            SignatureKind::DepMethod => "dep_method",
            SignatureKind::Struct => "struct",
            SignatureKind::Class => "class",
            SignatureKind::Interface => "interface",
        }
    }
}

/// A function (`is_method` false) or method, from the file itself or from
/// a file it depends on.
pub open spec fn kind_of(is_method: bool, from_dependency: bool) -> SignatureKind {
    if is_method {
        if from_dependency {
            SignatureKind::DepMethod
        } else {
            SignatureKind::Method
        }
    } else if from_dependency {
        SignatureKind::DepFn
    } else {
        SignatureKind::Fn
    }
}

/// The kind of a function or method signature, by where it comes from.
pub fn dependency_kind(is_method: bool, from_dependency: bool) -> (r: SignatureKind)
    ensures
        r == kind_of(is_method, from_dependency),
{
    if is_method {
        if from_dependency {
            SignatureKind::DepMethod
        } else {
            SignatureKind::Method
        }
    } else if from_dependency {
        SignatureKind::DepFn
    } else {
        SignatureKind::Fn
    }
}

/// A signature row's content: kind, name, line, signature.
#[derive(Debug)]
pub struct SymbolSignature {
    pub kind: SignatureKind,
    pub name: String,
    pub line: usize,
    pub signature: String,
}

pub type SignatureView = (SignatureKind, Seq<char>, usize, Seq<char>);

impl View for SymbolSignature {
    type V = SignatureView;

    open spec fn view(&self) -> SignatureView {
        (self.kind, self.name@, self.line, self.signature@)
    }
}

pub open spec fn signature_views(v: Seq<SymbolSignature>) -> Seq<SignatureView> {
    v.map_values(|s: SymbolSignature| s@)
}

/// A copy of a signature.
pub fn copy_signature(s: &SymbolSignature) -> (r: SymbolSignature)
    ensures
        r@ == s@,
{
    SymbolSignature { kind: s.kind, name: s.name.clone(), line: s.line, signature: s.signature.clone() }
}

pub open spec fn function_sigs(fs: Seq<EnhancedFunctionInfo>, k: SignatureKind) -> Seq<SignatureView> {
    fs.map_values(|f: EnhancedFunctionInfo| (k, f.name@, f.line, f.signature@))
}

pub open spec fn method_sigs(ms: Seq<MethodInfo>, k: SignatureKind) -> Seq<SignatureView> {
    ms.map_values(|m: MethodInfo| (k, m.name@, m.line, m.signature@))
}

pub open spec fn class_method_sigs(cs: Seq<EnhancedClassInfo>, k: SignatureKind) -> Seq<SignatureView>
    decreases cs.len(),
{
    if cs.len() == 0 {
        seq![]
    } else {
        class_method_sigs(cs.drop_last(), k) + function_sigs(cs.last().methods@, k)
    }
}

pub open spec fn impl_method_sigs(bs: Seq<ImplBlockInfo>, k: SignatureKind) -> Seq<SignatureView>
    decreases bs.len(),
{
    if bs.len() == 0 {
        seq![]
    } else {
        impl_method_sigs(bs.drop_last(), k) + method_sigs(bs.last().methods@, k)
    }
}

/// The signatures of a file: its functions, then the methods of its
/// classes and of its impl blocks.
pub open spec fn file_signatures(s: EnhancedFileShape, from_dependency: bool) -> Seq<SignatureView> {
    function_sigs(s.functions@, kind_of(false, from_dependency)) + class_method_sigs(
        s.classes@,
        kind_of(true, from_dependency),
    ) + impl_method_sigs(s.impl_blocks@, kind_of(true, from_dependency))
}

fn push_function_sigs(out: &mut Vec<SymbolSignature>, fs: &Vec<EnhancedFunctionInfo>, k: SignatureKind)
    ensures
        signature_views(final(out)@) == signature_views(old(out)@) + function_sigs(fs@, k),
{
    let ghost start = signature_views(out@);
    let mut i: usize = 0;
    while i < fs.len()
        invariant
            i <= fs.len(),
            signature_views(out@) == start + function_sigs(fs@.take(i as int), k),
        decreases fs.len() - i,
    {
        let s = SymbolSignature {
            kind: k,
            name: fs[i].name.clone(),
            line: fs[i].line,
            signature: fs[i].signature.clone(),
        };
        let ghost before = out@;
        out.push(s);
        assert(signature_views(out@) =~= signature_views(before).push(s@));
        assert(function_sigs(fs@.take(i + 1), k) =~= function_sigs(fs@.take(i as int), k).push(s@));
        i = i + 1;
    }
    assert(fs@.take(fs.len() as int) =~= fs@);
}

fn push_method_sigs(out: &mut Vec<SymbolSignature>, ms: &Vec<MethodInfo>, k: SignatureKind)
    ensures
        signature_views(final(out)@) == signature_views(old(out)@) + method_sigs(ms@, k),
{
    let ghost start = signature_views(out@);
    let mut i: usize = 0;
    while i < ms.len()
        invariant
            i <= ms.len(),
            signature_views(out@) == start + method_sigs(ms@.take(i as int), k),
        decreases ms.len() - i,
    {
        let s = SymbolSignature {
            kind: k,
            name: ms[i].name.clone(),
            line: ms[i].line,
            signature: ms[i].signature.clone(),
        };
        let ghost before = out@;
        out.push(s);
        assert(signature_views(out@) =~= signature_views(before).push(s@));
        assert(method_sigs(ms@.take(i + 1), k) =~= method_sigs(ms@.take(i as int), k).push(s@));
        i = i + 1;
    }
    assert(ms@.take(ms.len() as int) =~= ms@);
}

/// The signatures of a file (see `file_signatures`).
pub fn collect_same_file_signatures(shape: &EnhancedFileShape, from_dependency: bool) -> (r: Vec<
    SymbolSignature,
>)
    ensures
        signature_views(r@) == file_signatures(*shape, from_dependency),
{
    let mut out: Vec<SymbolSignature> = Vec::new();
    assert(signature_views(out@) =~= seq![]);
    push_function_sigs(&mut out, &shape.functions, dependency_kind(false, from_dependency));
    let mk = dependency_kind(true, from_dependency);
    let ghost a = signature_views(out@);
    let mut i: usize = 0;
    while i < shape.classes.len()
        invariant
            i <= shape.classes.len(),
            mk == kind_of(true, from_dependency),
            signature_views(out@) == a + class_method_sigs(shape.classes@.take(i as int), mk),
        decreases shape.classes.len() - i,
    {
        push_function_sigs(&mut out, &shape.classes[i].methods, mk);
        assert(shape.classes@.take(i + 1).drop_last() =~= shape.classes@.take(i as int));
        i = i + 1;
    }
    assert(shape.classes@.take(shape.classes.len() as int) =~= shape.classes@);
    let ghost b = signature_views(out@);
    let mut j: usize = 0;
    while j < shape.impl_blocks.len()
        invariant
            j <= shape.impl_blocks.len(),
            mk == kind_of(true, from_dependency),
            signature_views(out@) == b + impl_method_sigs(shape.impl_blocks@.take(j as int), mk),
        decreases shape.impl_blocks.len() - j,
    {
        push_method_sigs(&mut out, &shape.impl_blocks[j].methods, mk);
        assert(shape.impl_blocks@.take(j + 1).drop_last() =~= shape.impl_blocks@.take(j as int));
        j = j + 1;
    }
    assert(shape.impl_blocks@.take(shape.impl_blocks.len() as int) =~= shape.impl_blocks@);
    assert(signature_views(out@) =~= file_signatures(*shape, from_dependency));
    out
}

// ---------------------------------------------------------------------------
// Tokens
// ---------------------------------------------------------------------------

/// ASCII letters, digits and `_` make up tokens; every other character
/// separates them.
pub open spec fn ident_char(c: char) -> bool {
    ('a' <= c && c <= 'z') || ('A' <= c && c <= 'Z') || ('0' <= c && c <= '9') || c == '_'
}

/// The pieces of `s` between separators (empty pieces included), as
/// `str::split` on the separators gives them.
pub open spec fn ident_pieces(s: Seq<char>) -> Seq<Seq<char>>
    decreases s.len(),
{
    if s.len() == 0 {
        seq![seq![]]
    } else {
        let p = ident_pieces(s.drop_last());
        let c = s.last();
        if ident_char(c) {
            p.update(p.len() - 1, p.last().push(c))
        } else {
            p.push(seq![])
        }
    }
}

pub proof fn lemma_ident_pieces_len(s: Seq<char>)
    ensures
        ident_pieces(s).len() >= 1,
    decreases s.len(),
{
    if s.len() > 0 {
        lemma_ident_pieces_len(s.drop_last());
    }
}

fn is_ident_char(c: char) -> (r: bool)
    ensures
        r == ident_char(c),
{
    ('a' <= c && c <= 'z') || ('A' <= c && c <= 'Z') || ('0' <= c && c <= '9') || c == '_'
}

pub open spec fn piece_views(v: Seq<Vec<char>>) -> Seq<Seq<char>> {
    v.map_values(|p: Vec<char>| p@)
}

/// The pieces of a text between separators (see `ident_pieces`).
pub fn split_ident_pieces(text: &str) -> (r: Vec<Vec<char>>)
    ensures
        piece_views(r@) == ident_pieces(text@),
{
    let v = chars_of(text);
    let mut done: Vec<Vec<char>> = Vec::new();
    let mut cur: Vec<char> = Vec::new();
    let mut i: usize = 0;
    assert(piece_views(done@).push(cur@) =~= ident_pieces(v@.take(0)));
    while i < v.len()
        invariant
            i <= v.len(),
            v@ == text@,
            piece_views(done@).push(cur@) == ident_pieces(v@.take(i as int)),
        decreases v.len() - i,
    {
        let c = v[i];
        proof {
            lemma_ident_pieces_len(v@.take(i as int));
            assert(v@.take(i + 1).drop_last() =~= v@.take(i as int));
            assert(v@.take(i + 1).last() == c);
        }
        let ghost before = piece_views(done@);
        let ghost cb = cur@;
        if is_ident_char(c) {
            cur.push(c);
            assert(piece_views(done@).push(cur@) =~= before.push(cb).update(before.len() as int, cb.push(c)));
        } else {
            let piece = cur;
            done.push(piece);
            cur = Vec::new();
            assert(piece_views(done@) =~= before.push(cb));
            assert(piece_views(done@).push(cur@) =~= before.push(cb).push(seq![]));
        }
        i = i + 1;
    }
    assert(v@.take(v.len() as int) =~= v@);
    let ghost before = piece_views(done@);
    let ghost cb = cur@;
    done.push(cur);
    assert(piece_views(done@) =~= before.push(cb));
    done
}

fn pieces_contain(pieces: &Vec<Vec<char>>, token: &[char]) -> (r: bool)
    ensures
        r == piece_views(pieces@).contains(token@),
{
    let mut i: usize = 0;
    while i < pieces.len()
        invariant
            i <= pieces.len(),
            forall|j: int| 0 <= j < i ==> pieces@[j]@ != token@,
        decreases pieces.len() - i,
    {
        if crate::text::chars_eq(pieces[i].as_slice(), token) {
            assert(piece_views(pieces@)[i as int] == token@);
            return true;
        }
        i = i + 1;
    }
    assert forall|j: int| 0 <= j < piece_views(pieces@).len() implies piece_views(pieces@)[j]
        != token@ by {
        assert(piece_views(pieces@)[j] == pieces@[j]@);
    }
    false
}

/// Whether `token` is one of the pieces of `text` between separators.
pub fn token_in_text(token: &str, text: &str) -> (r: bool)
    ensures
        r == ident_pieces(text@).contains(token@),
{
    let pieces = split_ident_pieces(text);
    let t = chars_of(token);
    pieces_contain(&pieces, t.as_slice())
}

/// Words of an import that name nothing by themselves.
pub open spec fn import_keyword(p: Seq<char>) -> bool {
    p == "use"@ || p == "import"@ || p == "from"@ || p == "as"@ || p == "type"@ || p == "crate"@
        || p == "self"@ || p == "super"@
}

/// The pieces that name something: longer than one character and not an
/// import keyword.
pub open spec fn naming_pieces(ps: Seq<Seq<char>>) -> Seq<Seq<char>>
    decreases ps.len(),
{
    if ps.len() == 0 {
        seq![]
    } else {
        naming_pieces(ps.drop_last()) + if ps.last().len() > 1 && !import_keyword(ps.last()) {
            seq![ps.last()]
        } else {
            seq![]
        }
    }
}

/// The tokens of an import text (see `naming_pieces`).
pub fn import_tokens(import_text: &str) -> (r: Vec<Vec<char>>)
    ensures
        piece_views(r@) == naming_pieces(ident_pieces(import_text@)),
{
    let pieces = split_ident_pieces(import_text);
    let ghost pv = piece_views(pieces@);
    let mut out: Vec<Vec<char>> = Vec::new();
    let mut i: usize = 0;
    assert(piece_views(out@) =~= naming_pieces(pv.take(0)));
    while i < pieces.len()
        invariant
            i <= pieces.len(),
            pv == piece_views(pieces@),
            piece_views(out@) == naming_pieces(pv.take(i as int)),
        decreases pieces.len() - i,
    {
        let p = &pieces[i];
        assert(pv.take(i + 1).drop_last() =~= pv.take(i as int));
        assert(pv.take(i + 1).last() == p@);
        let keyword = crate::text::eq_lit(p.as_slice(), "use") || crate::text::eq_lit(
            p.as_slice(),
            "import",
        ) || crate::text::eq_lit(p.as_slice(), "from") || crate::text::eq_lit(p.as_slice(), "as")
            || crate::text::eq_lit(p.as_slice(), "type") || crate::text::eq_lit(
            p.as_slice(),
            "crate",
        ) || crate::text::eq_lit(p.as_slice(), "self") || crate::text::eq_lit(
            p.as_slice(),
            "super",
        );
        let ghost before = piece_views(out@);
        if p.len() > 1 && !keyword {
            out.push(p.clone());
            assert(piece_views(out@) =~= before.push(p@));
        }
        assert(piece_views(out@) =~= naming_pieces(pv.take(i + 1)));
        i = i + 1;
    }
    assert(pv.take(pieces.len() as int) =~= pv);
    out
}

/// An import is relevant when one of its tokens is a piece of the text.
pub open spec fn import_relevant(import_text: Seq<char>, text: Seq<char>) -> bool {
    exists|k: int|
        0 <= k < naming_pieces(ident_pieces(import_text)).len() && ident_pieces(text).contains(
            #[trigger] naming_pieces(ident_pieces(import_text))[k],
        )
}

/// The relevant imports, in order.
pub open spec fn relevant_imports_of(imports: Seq<ImportInfo>, text: Seq<char>) -> Seq<(Seq<char>, usize)>
    decreases imports.len(),
{
    if imports.len() == 0 {
        seq![]
    } else {
        relevant_imports_of(imports.drop_last(), text) + if import_relevant(imports.last().text@, text) {
            seq![(imports.last().text@, imports.last().line)]
        } else {
            seq![]
        }
    }
}

fn import_is_relevant(import_text: &str, text_pieces: &Vec<Vec<char>>, text: Ghost<Seq<char>>) -> (r:
    bool)
    requires
        piece_views(text_pieces@) == ident_pieces(text@),
    ensures
        r == import_relevant(import_text@, text@),
{
    let toks = import_tokens(import_text);
    let ghost tv = piece_views(toks@);
    let mut k: usize = 0;
    while k < toks.len()
        invariant
            k <= toks.len(),
            tv == piece_views(toks@),
            tv == naming_pieces(ident_pieces(import_text@)),
            piece_views(text_pieces@) == ident_pieces(text@),
            forall|j: int| 0 <= j < k ==> !ident_pieces(text@).contains(#[trigger] tv[j]),
        decreases toks.len() - k,
    {
        if pieces_contain(text_pieces, toks[k].as_slice()) {
            assert(tv[k as int] == toks@[k as int]@);
            return true;
        }
        assert(tv[k as int] == toks@[k as int]@);
        k = k + 1;
    }
    false
}

/// The imports whose tokens occur in the text (see `relevant_imports_of`).
pub fn relevant_imports(imports: &Vec<ImportInfo>, target_text: &str) -> (r: Vec<ImportInfo>)
    ensures
        crate::analysis::shape::import_views(r@) == relevant_imports_of(imports@, target_text@),
{
    let pieces = split_ident_pieces(target_text);
    let mut out: Vec<ImportInfo> = Vec::new();
    let mut i: usize = 0;
    assert(crate::analysis::shape::import_views(out@) =~= relevant_imports_of(imports@.take(0), target_text@));
    while i < imports.len()
        invariant
            i <= imports.len(),
            piece_views(pieces@) == ident_pieces(target_text@),
            crate::analysis::shape::import_views(out@) == relevant_imports_of(
                imports@.take(i as int),
                target_text@,
            ),
        decreases imports.len() - i,
    {
        assert(imports@.take(i + 1).drop_last() =~= imports@.take(i as int));
        assert(imports@.take(i + 1).last() == imports@[i as int]);
        let ghost before = crate::analysis::shape::import_views(out@);
        if import_is_relevant(imports[i].text.as_str(), &pieces, Ghost(target_text@)) {
            out.push(ImportInfo { text: imports[i].text.clone(), line: imports[i].line });
            assert(crate::analysis::shape::import_views(out@) =~= before.push(
                (imports@[i as int].text@, imports@[i as int].line),
            ));
        }
        i = i + 1;
    }
    assert(imports@.take(imports.len() as int) =~= imports@);
    out
}

// ---------------------------------------------------------------------------
// Types named by the target
// ---------------------------------------------------------------------------

/// The first line of the code, or the name when there is no code or it has
/// no line.
pub open spec fn first_line_or(code: Option<String>, name: Seq<char>) -> Seq<char> {
    match code {
        Some(c) => if lines(c@).len() > 0 {
            lines(c@)[0]
        } else {
            name
        },
        None => name,
    }
}

fn first_line_or_name(code: &Option<String>, name: &String) -> (r: String)
    ensures
        r@ == first_line_or(*code, name@),
{
    match code {
        Some(c) => {
            let v = chars_of(c.as_str());
            let b = line_bounds(v.as_slice());
            if b.len() > 0 {
                let (s, e) = b[0];
                let piece = slice_range(v.as_slice(), s, e);
                string_of(piece.as_slice())
            } else {
                name.clone()
            }
        },
        None => name.clone(),
    }
}

/// The signature of a struct: the first line of its code, else its name.
pub fn signature_for_struct(info: &EnhancedStructInfo) -> (r: String)
    ensures
        r@ == first_line_or(info.code, info.name@),
{
    first_line_or_name(&info.code, &info.name)
}

/// The signature of an interface: the first line of its code, else its
/// name.
pub fn signature_for_interface(info: &InterfaceInfo) -> (r: String)
    ensures
        r@ == first_line_or(info.code, info.name@),
{
    first_line_or_name(&info.code, &info.name)
}

pub open spec fn struct_types(ss: Seq<EnhancedStructInfo>, text: Seq<char>) -> Seq<SignatureView>
    decreases ss.len(),
{
    if ss.len() == 0 {
        seq![]
    } else {
        let x = ss.last();
        struct_types(ss.drop_last(), text) + if ident_pieces(text).contains(x.name@) {
            seq![(SignatureKind::Struct, x.name@, x.line, first_line_or(x.code, x.name@))]
        } else {
            seq![]
        }
    }
}

pub open spec fn class_types(cs: Seq<EnhancedClassInfo>, text: Seq<char>) -> Seq<SignatureView>
    decreases cs.len(),
{
    if cs.len() == 0 {
        seq![]
    } else {
        let x = cs.last();
        class_types(cs.drop_last(), text) + if ident_pieces(text).contains(x.name@) {
            seq![(SignatureKind::Class, x.name@, x.line, x.name@)]
        } else {
            seq![]
        }
    }
}

pub open spec fn interface_types(is: Seq<InterfaceInfo>, text: Seq<char>) -> Seq<SignatureView>
    decreases is.len(),
{
    if is.len() == 0 {
        seq![]
    } else {
        let x = is.last();
        interface_types(is.drop_last(), text) + if ident_pieces(text).contains(x.name@) {
            seq![(SignatureKind::Interface, x.name@, x.line, first_line_or(x.code, x.name@))]
        } else {
            seq![]
        }
    }
}

/// The structs, classes and interfaces of a file whose names are pieces of
/// the text, in that order.
pub open spec fn relevant_types_of(s: EnhancedFileShape, text: Seq<char>) -> Seq<SignatureView> {
    struct_types(s.structs@, text) + class_types(s.classes@, text) + interface_types(
        s.interfaces@,
        text,
    )
}

/// Appends a type signature when its name is a piece of the text.
pub fn push_type_if_relevant(
    types: &mut Vec<SymbolSignature>,
    kind: SignatureKind,
    name: &str,
    line: usize,
    signature: String,
    text_pieces: &Vec<Vec<char>>,
)
    ensures
        signature_views(final(types)@) == signature_views(old(types)@) + if piece_views(
            text_pieces@,
        ).contains(name@) {
            seq![(kind, name@, line, signature@)]
        } else {
            seq![]
        },
{
    let n = chars_of(name);
    if pieces_contain(text_pieces, n.as_slice()) {
        let ghost before = signature_views(types@);
        let s = SymbolSignature { kind, name: string_from(name), line, signature };
        types.push(s);
        assert(signature_views(types@) =~= before.push(s@));
    } else {
        assert(signature_views(types@) =~= signature_views(old(types)@) + seq![]);
    }
}

/// The types named by the text (see `relevant_types_of`).
pub fn relevant_types(shape: &EnhancedFileShape, target_text: &str) -> (r: Vec<SymbolSignature>)
    ensures
        signature_views(r@) == relevant_types_of(*shape, target_text@),
{
    let pieces = split_ident_pieces(target_text);
    let mut out: Vec<SymbolSignature> = Vec::new();
    let mut i: usize = 0;
    assert(signature_views(out@) =~= struct_types(shape.structs@.take(0), target_text@));
    while i < shape.structs.len()
        invariant
            i <= shape.structs.len(),
            piece_views(pieces@) == ident_pieces(target_text@),
            signature_views(out@) == struct_types(shape.structs@.take(i as int), target_text@),
        decreases shape.structs.len() - i,
    {
        let x = &shape.structs[i];
        assert(shape.structs@.take(i + 1).drop_last() =~= shape.structs@.take(i as int));
        assert(shape.structs@.take(i + 1).last() == *x);
        push_type_if_relevant(
            &mut out,
            SignatureKind::Struct,
            x.name.as_str(),
            x.line,
            signature_for_struct(x),
            &pieces,
        );
        i = i + 1;
    }
    assert(shape.structs@.take(shape.structs.len() as int) =~= shape.structs@);
    let ghost a = signature_views(out@);
    let mut j: usize = 0;
    assert(a =~= a + class_types(shape.classes@.take(0), target_text@));
    while j < shape.classes.len()
        invariant
            j <= shape.classes.len(),
            piece_views(pieces@) == ident_pieces(target_text@),
            signature_views(out@) == a + class_types(shape.classes@.take(j as int), target_text@),
        decreases shape.classes.len() - j,
    {
        let x = &shape.classes[j];
        assert(shape.classes@.take(j + 1).drop_last() =~= shape.classes@.take(j as int));
        assert(shape.classes@.take(j + 1).last() == *x);
        push_type_if_relevant(
            &mut out,
            SignatureKind::Class,
            x.name.as_str(),
            x.line,
            x.name.clone(),
            &pieces,
        );
        j = j + 1;
    }
    assert(shape.classes@.take(shape.classes.len() as int) =~= shape.classes@);
    let ghost b = signature_views(out@);
    let mut k: usize = 0;
    assert(b =~= b + interface_types(shape.interfaces@.take(0), target_text@));
    while k < shape.interfaces.len()
        invariant
            k <= shape.interfaces.len(),
            piece_views(pieces@) == ident_pieces(target_text@),
            signature_views(out@) == b + interface_types(shape.interfaces@.take(k as int), target_text@),
        decreases shape.interfaces.len() - k,
    {
        let x = &shape.interfaces[k];
        assert(shape.interfaces@.take(k + 1).drop_last() =~= shape.interfaces@.take(k as int));
        assert(shape.interfaces@.take(k + 1).last() == *x);
        push_type_if_relevant(
            &mut out,
            SignatureKind::Interface,
            x.name.as_str(),
            x.line,
            signature_for_interface(x),
            &pieces,
        );
        k = k + 1;
    }
    assert(shape.interfaces@.take(shape.interfaces.len() as int) =~= shape.interfaces@);
    assert(signature_views(out@) =~= relevant_types_of(*shape, target_text@));
    out
}

// ---------------------------------------------------------------------------
// Rows
// ---------------------------------------------------------------------------

/// The row of the target: `name|line|sig|code`.
pub open spec fn target_row(t: TargetView, code: Seq<char>) -> Seq<char> {
    row_text(seq![t.0, decimal(t.1 as nat), t.3, code])
}

/// The row of a signature: `kind|name|line|sig`.
pub open spec fn signature_row(s: SignatureView) -> Seq<char> {
    row_text(seq![kind_text(s.0), s.1, decimal(s.2 as nat), s.3])
}

/// The row of an import: `line|text`.
pub open spec fn import_row(i: (Seq<char>, usize)) -> Seq<char> {
    row_text(seq![decimal(i.1 as nat), i.0])
}

/// The row of the target, with the code given.
pub fn target_to_row(target: &TargetSymbol, code: &str) -> (r: String)
    ensures
        r@ == target_row(target@, code@),
{
    let mut fields: Vec<String> = Vec::new();
    fields.push(target.name.clone());
    fields.push(decimal_string(target.line));
    fields.push(target.signature.clone());
    fields.push(string_from(code));
    assert(views(fields@) =~= seq![target.name@, decimal(target.line as nat), target.signature@, code@]);
    format_row(&fields)
}

/// One row per signature (see `signature_row`).
pub fn signature_rows(signatures: &Vec<SymbolSignature>) -> (r: Vec<String>)
    ensures
        views(r@) == signature_views(signatures@).map_values(|s: SignatureView| signature_row(s)),
{
    let ghost sv = signature_views(signatures@);
    let mut out: Vec<String> = Vec::new();
    let mut i: usize = 0;
    while i < signatures.len()
        invariant
            i <= signatures.len(),
            sv == signature_views(signatures@),
            views(out@) == sv.take(i as int).map_values(|s: SignatureView| signature_row(s)),
        decreases signatures.len() - i,
    {
        let sig = &signatures[i];
        let mut fields: Vec<String> = Vec::new();
        fields.push(string_from(sig.kind.as_str()));
        fields.push(sig.name.clone());
        fields.push(decimal_string(sig.line));
        fields.push(sig.signature.clone());
        assert(views(fields@) =~= seq![kind_text(sig.kind), sig.name@, decimal(sig.line as nat), sig.signature@]);
        let row = format_row(&fields);
        let ghost before = views(out@);
        out.push(row);
        assert(sv[i as int] == sig@);
        assert(views(out@) =~= before.push(signature_row(sv[i as int])));
        assert(sv.take(i + 1).map_values(|s: SignatureView| signature_row(s)) =~= sv.take(
            i as int,
        ).map_values(|s: SignatureView| signature_row(s)).push(signature_row(sv[i as int])));
        i = i + 1;
    }
    assert(sv.take(signatures.len() as int) =~= sv);
    out
}

/// The signature rows joined with newlines.
pub fn signatures_to_rows(signatures: &Vec<SymbolSignature>) -> (r: String)
    ensures
        r@ == join(signature_views(signatures@).map_values(|s: SignatureView| signature_row(s)), seq!['\n']),
{
    let rows = signature_rows(signatures);
    join_rows(&rows)
}

/// One row per import (see `import_row`).
pub fn import_rows(imports: &Vec<ImportInfo>) -> (r: Vec<String>)
    ensures
        views(r@) == import_views(imports@).map_values(|i: (Seq<char>, usize)| import_row(i)),
{
    let ghost iv = import_views(imports@);
    let mut out: Vec<String> = Vec::new();
    let mut i: usize = 0;
    while i < imports.len()
        invariant
            i <= imports.len(),
            iv == import_views(imports@),
            views(out@) == iv.take(i as int).map_values(|i: (Seq<char>, usize)| import_row(i)),
        decreases imports.len() - i,
    {
        let imp = &imports[i];
        let mut fields: Vec<String> = Vec::new();
        fields.push(decimal_string(imp.line));
        fields.push(imp.text.clone());
        assert(views(fields@) =~= seq![decimal(imp.line as nat), imp.text@]);
        let row = format_row(&fields);
        let ghost before = views(out@);
        out.push(row);
        assert(iv[i as int] == (imp.text@, imp.line));
        assert(views(out@) =~= before.push(import_row(iv[i as int])));
        assert(iv.take(i + 1).map_values(|i: (Seq<char>, usize)| import_row(i)) =~= iv.take(
            i as int,
        ).map_values(|i: (Seq<char>, usize)| import_row(i)).push(import_row(iv[i as int])));
        i = i + 1;
    }
    assert(iv.take(imports.len() as int) =~= iv);
    out
}

/// The import rows joined with newlines.
pub fn imports_to_rows(imports: &Vec<ImportInfo>) -> (r: String)
    ensures
        r@ == join(import_views(imports@).map_values(|i: (Seq<char>, usize)| import_row(i)), seq!['\n']),
{
    let rows = import_rows(imports);
    join_rows(&rows)
}

// ---------------------------------------------------------------------------
// JSON and the token budget
// ---------------------------------------------------------------------------

/// Why no edit context could be produced.
#[derive(Debug)]
pub enum EditContextError {
    /// The language of the file is not supported (its error is carried).
    Language(LanguageError),
    /// The file could not be parsed.
    Parse(ParseError),
    /// No function, class or method of that name is in the file.
    SymbolNotFound { symbol: String, file: String },
    /// A text could not be written as a JSON string.
    Serialization,
    /// A text could not be tokenized.
    Tokenizer,
}

impl EditContextError {
    /// The message of the error.
    pub fn message(&self) -> (r: String)
        ensures
            r@ == match self {
                EditContextError::Language(e) => "Cannot detect language: "@ + match e {
                    LanguageError::NoExtension(p) => "No file extension found in path: "@ + p@,
                    LanguageError::UnsupportedExtension(x) => "Unsupported file extension: ."@ + x@,
                },
                EditContextError::Parse(_) => "Failed to parse code"@,
                EditContextError::SymbolNotFound { symbol, file } => "Symbol '"@ + symbol@ + "' not found in "@
                    + file@,
                EditContextError::Serialization => "Failed to serialize result to JSON"@,
                EditContextError::Tokenizer => "Failed to tokenize result"@,
            },
    {
        let mut s = String::new();
        match self {
            EditContextError::Language(e) => {
                push_str(&mut s, "Cannot detect language: ");
                let m = e.message();
                push_str(&mut s, m.as_str());
            },
            EditContextError::Parse(_) => {
                push_str(&mut s, "Failed to parse code");
            },
            EditContextError::SymbolNotFound { symbol, file } => {
                push_str(&mut s, "Symbol '");
                push_str(&mut s, symbol.as_str());
                push_str(&mut s, "' not found in ");
                push_str(&mut s, file.as_str());
            },
            EditContextError::Serialization => {
                push_str(&mut s, "Failed to serialize result to JSON");
            },
            EditContextError::Tokenizer => {
                push_str(&mut s, "Failed to tokenize result");
            },
        }
        s
    }
}

/// The parts of an edit context: display path, symbol, scope, target row,
/// and the rows of dependencies, types and imports.
pub struct EditParts {
    pub path: String,
    pub symbol: String,
    pub scope: String,
    pub target: String,
    pub deps: Vec<String>,
    pub types: Vec<String>,
    pub imports: Vec<String>,
}

/// The parts as plain values.
pub type PartsView = (Seq<char>, Seq<char>, Seq<char>, Seq<char>, Seq<Seq<char>>, Seq<Seq<char>>, Seq<
    Seq<char>,
>);

impl View for EditParts {
    type V = PartsView;

    open spec fn view(&self) -> PartsView {
        (
            self.path@,
            self.symbol@,
            self.scope@,
            self.target@,
            views(self.deps@),
            views(self.types@),
            views(self.imports@),
        )
    }
}

/// `prefix` and the JSON string literal of `value`.
pub open spec fn seg(prefix: Seq<char>, value: Seq<char>) -> Option<Seq<char>> {
    match json_literal(value) {
        Some(q) => Some(prefix + q),
        None => None,
    }
}

/// Both texts, one after the other.
pub open spec fn cat(a: Option<Seq<char>>, b: Option<Seq<char>>) -> Option<Seq<char>> {
    match (a, b) {
        (Some(x), Some(y)) => Some(x + y),
        _ => None,
    }
}

/// Nothing, as a part of a text.
pub open spec fn nothing() -> Option<Seq<char>> {
    Some(seq![])
}

/// `dh` and `deps`, with a comma after them, when there are dependencies.
pub open spec fn deps_block(v: PartsView) -> Option<Seq<char>> {
    if v.4.len() > 0 {
        cat(
            cat(seg("\"deps\":"@, join(v.4, seq!['\n'])), seg(",\"dh\":"@, "kind|name|line|sig"@)),
            Some(","@),
        )
    } else {
        nothing()
    }
}

/// `ih` and `imports`, when there are imports.
pub open spec fn imports_block(v: PartsView) -> Option<Seq<char>> {
    if v.6.len() > 0 {
        cat(seg(",\"ih\":"@, "line|text"@), seg(",\"imports\":"@, join(v.6, seq!['\n'])))
    } else {
        nothing()
    }
}

/// `p`, `scope`, `sym` and `target`.
pub open spec fn fixed_block(v: PartsView) -> Option<Seq<char>> {
    cat(
        cat(seg(",\"p\":"@, v.0), seg(",\"scope\":"@, v.2)),
        cat(seg(",\"sym\":"@, v.1), seg(",\"target\":"@, v.3)),
    )
}

/// `tyh` and `types`, when there are types.
pub open spec fn types_block(v: PartsView) -> Option<Seq<char>> {
    if v.5.len() > 0 {
        cat(seg(",\"tyh\":"@, "kind|name|line|sig"@), seg(",\"types\":"@, join(v.5, seq!['\n'])))
    } else {
        nothing()
    }
}

/// The opening of the object: with `"@":{"t":true}` when truncated.
pub open spec fn open_text(truncated: bool) -> Seq<char> {
    if truncated {
        "{\"@\":{\"t\":true},"@
    } else {
        "{"@
    }
}

/// The compact JSON object of an edit context, keys in order: `@` (only
/// when truncated), `deps` and `dh` (when there are dependencies), `h`,
/// `ih` and `imports` (when there are imports), `p`, `scope`, `sym`,
/// `target`, `tyh` and `types` (when there are types).
pub open spec fn edit_json(v: PartsView, truncated: bool) -> Option<Seq<char>> {
    cat(
        cat(cat(Some(open_text(truncated)), deps_block(v)), seg("\"h\":"@, "name|line|sig|code"@)),
        cat(cat(imports_block(v), fixed_block(v)), cat(types_block(v), Some("}"@))),
    )
}

fn seg_text(prefix: &str, value: &str) -> (r: Option<String>)
    ensures
        match seg(prefix@, value@) {
            Some(t) => r matches Some(s) && s@ == t,
            None => r is None,
        },
{
    match quote_json(value) {
        Some(q) => {
            let mut out = String::new();
            push_str(&mut out, prefix);
            push_str(&mut out, q.as_str());
            Some(out)
        },
        None => None,
    }
}

fn cat_text(a: Option<String>, b: Option<String>) -> (r: Option<String>)
    ensures
        match cat(
            match a {
                Some(x) => Some(x@),
                None => None,
            },
            match b {
                Some(x) => Some(x@),
                None => None,
            },
        ) {
            Some(t) => r matches Some(s) && s@ == t,
            None => r is None,
        },
{
    match (a, b) {
        (Some(x), Some(y)) => {
            let mut out = x;
            push_str(&mut out, y.as_str());
            Some(out)
        },
        _ => None,
    }
}

pub open spec fn opt_text(o: Option<String>) -> Option<Seq<char>> {
    match o {
        Some(x) => Some(x@),
        None => None,
    }
}

fn deps_text(parts: &EditParts) -> (r: Option<String>)
    ensures
        opt_text(r) == deps_block(parts@),
{
    if parts.deps.len() > 0 {
        let joined = join_rows(&parts.deps);
        let a = seg_text("\"deps\":", joined.as_str());
        let b = seg_text(",\"dh\":", "kind|name|line|sig");
        let ab = cat_text(a, b);
        cat_text(ab, Some(string_from(",")))
    } else {
        Some(String::new())
    }
}

fn imports_text(parts: &EditParts) -> (r: Option<String>)
    ensures
        opt_text(r) == imports_block(parts@),
{
    if parts.imports.len() > 0 {
        let joined = join_rows(&parts.imports);
        let a = seg_text(",\"ih\":", "line|text");
        let b = seg_text(",\"imports\":", joined.as_str());
        cat_text(a, b)
    } else {
        Some(String::new())
    }
}

fn types_text(parts: &EditParts) -> (r: Option<String>)
    ensures
        opt_text(r) == types_block(parts@),
{
    if parts.types.len() > 0 {
        let joined = join_rows(&parts.types);
        let a = seg_text(",\"tyh\":", "kind|name|line|sig");
        let b = seg_text(",\"types\":", joined.as_str());
        cat_text(a, b)
    } else {
        Some(String::new())
    }
}

fn fixed_text(parts: &EditParts) -> (r: Option<String>)
    ensures
        opt_text(r) == fixed_block(parts@),
{
    let a = seg_text(",\"p\":", parts.path.as_str());
    let b = seg_text(",\"scope\":", parts.scope.as_str());
    let c = seg_text(",\"sym\":", parts.symbol.as_str());
    let d = seg_text(",\"target\":", parts.target.as_str());
    cat_text(cat_text(a, b), cat_text(c, d))
}

/// The JSON text of the parts (see `edit_json`).
pub fn parts_json(parts: &EditParts, truncated: bool) -> (r: Option<String>)
    ensures
        opt_text(r) == edit_json(parts@, truncated),
{
    let open = if truncated {
        string_from("{\"@\":{\"t\":true},")
    } else {
        string_from("{")
    };
    let a = cat_text(Some(open), deps_text(parts));
    let b = cat_text(a, seg_text("\"h\":", "name|line|sig|code"));
    let c = cat_text(imports_text(parts), fixed_text(parts));
    let d = cat_text(types_text(parts), Some(string_from("}")));
    cat_text(b, cat_text(c, d))
}

/// The parts with their last import row dropped.
pub open spec fn drop_import(v: PartsView) -> PartsView {
    (v.0, v.1, v.2, v.3, v.4, v.5, v.6.drop_last())
}

/// The parts with their last type row dropped.
pub open spec fn drop_type(v: PartsView) -> PartsView {
    (v.0, v.1, v.2, v.3, v.4, v.5.drop_last(), v.6)
}

/// The parts with their last dependency row dropped.
pub open spec fn drop_dep(v: PartsView) -> PartsView {
    (v.0, v.1, v.2, v.3, v.4.drop_last(), v.5, v.6)
}

/// The JSON text of the parts, or the error of writing it.
pub open spec fn final_edit(v: PartsView, truncated: bool) -> Result<Seq<char>, EditContextError> {
    match edit_json(v, truncated) {
        Some(t) => Ok(t),
        None => Err(EditContextError::Serialization),
    }
}

/// The edit context within the budget: while its JSON text (without the
/// truncation mark) has more than `max_tokens` tokens, import rows are
/// dropped from the end, then type rows, then dependency rows, and the
/// result is marked truncated; when none are left it is given marked
/// truncated whatever its size.
pub open spec fn fit_edit(v: PartsView, truncated: bool, max_tokens: usize) -> Result<
    Seq<char>,
    EditContextError,
>
    decreases v.4.len() + v.5.len() + v.6.len(),
{
    match edit_json(v, false) {
        None => Err(EditContextError::Serialization),
        Some(text) => match cl100k_tokens(text) {
            None => Err(EditContextError::Tokenizer),
            Some(n) => if n <= max_tokens {
                final_edit(v, truncated)
            } else if v.6.len() > 0 {
                fit_edit(drop_import(v), true, max_tokens)
            } else if v.5.len() > 0 {
                fit_edit(drop_type(v), true, max_tokens)
            } else if v.4.len() > 0 {
                fit_edit(drop_dep(v), true, max_tokens)
            } else {
                final_edit(v, true)
            },
        },
    }
}

/// A result carries the text, or the error, of a spec result.
pub open spec fn same_edit_outcome(
    r: Result<String, EditContextError>,
    g: Result<Seq<char>, EditContextError>,
) -> bool {
    match g {
        Ok(t) => r matches Ok(s) && s@ == t,
        Err(EditContextError::Serialization) => r matches Err(EditContextError::Serialization),
        Err(EditContextError::Tokenizer) => r matches Err(EditContextError::Tokenizer),
        Err(_) => false,
    }
}

fn final_edit_exec(parts: &EditParts, truncated: bool) -> (r: Result<String, EditContextError>)
    ensures
        same_edit_outcome(r, final_edit(parts@, truncated)),
{
    match parts_json(parts, truncated) {
        Some(t) => Ok(t),
        None => Err(EditContextError::Serialization),
    }
}

/// The edit context within the token budget (see `fit_edit`).
pub fn enforce_budget(initial: EditParts, max_tokens: usize) -> (r: Result<String, EditContextError>)
    ensures
        same_edit_outcome(r, fit_edit(initial@, false, max_tokens)),
{
    let ghost goal = fit_edit(initial@, false, max_tokens);
    let mut parts = initial;
    let mut truncated = false;
    loop
        invariant
            goal == fit_edit(initial@, false, max_tokens),
            goal == fit_edit(parts@, truncated, max_tokens),
        decreases parts.deps@.len() + parts.types@.len() + parts.imports@.len(),
    {
        let text = match parts_json(&parts, false) {
            Some(t) => t,
            None => return Err(EditContextError::Serialization),
        };
        let n = match count_cl100k_tokens(text.as_str()) {
            Some(n) => n,
            None => return Err(EditContextError::Tokenizer),
        };
        if n <= max_tokens {
            return final_edit_exec(&parts, truncated);
        }
        let ghost before = parts@;
        if parts.imports.len() > 0 {
            parts.imports.pop();
            assert(parts@ =~= drop_import(before));
        } else if parts.types.len() > 0 {
            parts.types.pop();
            assert(parts@ =~= drop_type(before));
        } else if parts.deps.len() > 0 {
            parts.deps.pop();
            assert(parts@ =~= drop_dep(before));
        } else {
            return final_edit_exec(&parts, true);
        }
        truncated = true;
    }
}

// ---------------------------------------------------------------------------
// The edit context of a symbol
// ---------------------------------------------------------------------------

/// The signatures of the file that the target calls, itself left out.
pub open spec fn local_deps(sigs: Seq<SignatureView>, called: Seq<Seq<char>>, target: Seq<char>) -> Seq<
    SignatureView,
>
    decreases sigs.len(),
{
    if sigs.len() == 0 {
        seq![]
    } else {
        let x = sigs.last();
        local_deps(sigs.drop_last(), called, target) + if x.1 != target && called.contains(x.1) {
            seq![x]
        } else {
            seq![]
        }
    }
}

/// The signatures of the files depended on, file by file.
pub open spec fn dep_candidates(fs: Seq<ParsedFile>) -> Seq<SignatureView>
    decreases fs.len(),
{
    if fs.len() == 0 {
        seq![]
    } else {
        dep_candidates(fs.drop_last()) + file_signatures(fs.last().shape, true)
    }
}

/// The candidates that the target calls and whose name was not seen yet,
/// each name once; and the names seen after them.
pub open spec fn pick_new(c: Seq<SignatureView>, called: Seq<Seq<char>>, seen: Set<Seq<char>>) -> (
    Seq<SignatureView>,
    Set<Seq<char>>,
)
    decreases c.len(),
{
    if c.len() == 0 {
        (seq![], seen)
    } else {
        let prev = pick_new(c.drop_last(), called, seen);
        let x = c.last();
        if called.contains(x.1) && !prev.1.contains(x.1) {
            (prev.0.push(x), prev.1.insert(x.1))
        } else {
            prev
        }
    }
}

/// The names of signatures.
pub open spec fn sig_names(v: Seq<SignatureView>) -> Set<Seq<char>> {
    Set::new(|n: Seq<char>| exists|k: int| 0 <= k < v.len() && (#[trigger] v[k]).1 == n)
}

/// The code of the target, with its leading comments when asked for and
/// present.
pub open spec fn code_with_comments(
    source: Seq<char>,
    line: usize,
    l: Language,
    code: Seq<char>,
    mode: CommentMode,
) -> Seq<char> {
    if mode == CommentMode::Plain {
        code
    } else {
        match leading_comment_block(source, line as int, l) {
            Some(b) => b + "\n"@ + code,
            None => code,
        }
    }
}

/// All the parts of the edit context of target `tg`.
pub open spec fn edit_parts(
    s: EnhancedFileShape,
    t: SyntaxTree,
    l: Language,
    display: Seq<char>,
    sym: Seq<char>,
    mode: CommentMode,
    deps: Seq<ParsedFile>,
    tg: TargetView,
) -> PartsView {
    let called = called_names(t, l, tg.1, tg.2);
    let local = local_deps(file_signatures(s, false), called, tg.0);
    let project = if called.len() == 0 {
        seq![]
    } else {
        pick_new(dep_candidates(deps), called, sig_names(local).insert(tg.0)).0
    };
    let text = tg.3 + "\n"@ + tg.4;
    let code = code_with_comments(t.source@, tg.1, l, tg.4, mode);
    (
        display,
        sym,
        tg.5,
        target_row(tg, code),
        (local + project).map_values(|x: SignatureView| signature_row(x)),
        relevant_types_of(s, text).map_values(|x: SignatureView| signature_row(x)),
        relevant_imports_of(s.imports@, text).map_values(|i: (Seq<char>, usize)| import_row(i)),
    )
}

fn name_seen(seen: &Vec<String>, name: &String) -> (r: bool)
    ensures
        r == views(seen@).contains(name@),
{
    let mut k: usize = 0;
    while k < seen.len()
        invariant
            k <= seen.len(),
            forall|j: int| 0 <= j < k ==> seen@[j]@ != name@,
        decreases seen.len() - k,
    {
        if str_eq(seen[k].as_str(), name.as_str()) {
            assert(views(seen@)[k as int] == name@);
            return true;
        }
        k = k + 1;
    }
    assert forall|j: int| 0 <= j < views(seen@).len() implies views(seen@)[j] != name@ by {
        assert(views(seen@)[j] == seen@[j]@);
    }
    false
}

fn local_dependencies(sigs: &Vec<SymbolSignature>, called: &Vec<String>, target: &String) -> (r: Vec<
    SymbolSignature,
>)
    ensures
        signature_views(r@) == local_deps(signature_views(sigs@), views(called@), target@),
{
    let ghost sv = signature_views(sigs@);
    let mut out: Vec<SymbolSignature> = Vec::new();
    let mut i: usize = 0;
    assert(signature_views(out@) =~= local_deps(sv.take(0), views(called@), target@));
    while i < sigs.len()
        invariant
            i <= sigs.len(),
            sv == signature_views(sigs@),
            signature_views(out@) == local_deps(sv.take(i as int), views(called@), target@),
        decreases sigs.len() - i,
    {
        let x = &sigs[i];
        assert(sv.take(i + 1).drop_last() =~= sv.take(i as int));
        assert(sv.take(i + 1).last() == x@);
        if !str_eq(x.name.as_str(), target.as_str()) && name_seen(called, &x.name) {
            let ghost before = signature_views(out@);
            out.push(copy_signature(x));
            assert(signature_views(out@) =~= before.push(x@));
        }
        i = i + 1;
    }
    assert(sv.take(sigs.len() as int) =~= sv);
    out
}

/// The set of names held by a list.
pub open spec fn name_set(v: Seq<String>) -> Set<Seq<char>> {
    Set::new(|n: Seq<char>| exists|k: int| 0 <= k < v.len() && (#[trigger] v[k])@ == n)
}

proof fn lemma_name_set_push(v: Seq<String>, s: String)
    ensures
        name_set(v.push(s)) == name_set(v).insert(s@),
{
    assert forall|n: Seq<char>| name_set(v.push(s)).contains(n) implies name_set(v).insert(s@).contains(
        n,
    ) by {
        let k = choose|k: int| 0 <= k < v.push(s).len() && (#[trigger] v.push(s)[k])@ == n;
        if k < v.len() {
            assert(v.push(s)[k] == v[k]);
        }
    }
    assert forall|n: Seq<char>| name_set(v).insert(s@).contains(n) implies name_set(v.push(s)).contains(
        n,
    ) by {
        if n == s@ {
            assert(v.push(s)[v.len() as int] == s);
        } else {
            let k = choose|k: int| 0 <= k < v.len() && (#[trigger] v[k])@ == n;
            assert(v.push(s)[k] == v[k]);
        }
    }
    assert(name_set(v.push(s)) =~= name_set(v).insert(s@));
}

proof fn lemma_name_set_contains(v: Seq<String>, n: Seq<char>)
    ensures
        name_set(v).contains(n) == views(v).contains(n),
{
    if name_set(v).contains(n) {
        let k = choose|k: int| 0 <= k < v.len() && (#[trigger] v[k])@ == n;
        assert(views(v)[k] == n);
    }
    if views(v).contains(n) {
        let k = choose|k: int| 0 <= k < views(v).len() && views(v)[k] == n;
        assert(v[k]@ == n);
    }
}

/// The functions and methods of the files depended on that the target
/// calls and whose names were not seen (see `pick_new`).
pub fn collect_project_dependency_signatures(
    dependencies: &Vec<ParsedFile>,
    called: &Vec<String>,
    seen: &mut Vec<String>,
) -> (r: Vec<SymbolSignature>)
    ensures
        ({
            let p = pick_new(dep_candidates(dependencies@), views(called@), name_set(old(seen)@));
            signature_views(r@) == p.0 && name_set(final(seen)@) == p.1
        }),
{
    let ghost seen0 = name_set(seen@);
    let mut out: Vec<SymbolSignature> = Vec::new();
    let mut i: usize = 0;
    assert(dep_candidates(dependencies@.take(0)) =~= seq![]);
    while i < dependencies.len()
        invariant
            i <= dependencies.len(),
            ({
                let p = pick_new(dep_candidates(dependencies@.take(i as int)), views(called@), seen0);
                signature_views(out@) == p.0 && name_set(seen@) == p.1
            }),
        decreases dependencies.len() - i,
    {
        let sigs = collect_same_file_signatures(&dependencies[i].shape, true);
        let ghost base = dep_candidates(dependencies@.take(i as int));
        let ghost sv = signature_views(sigs@);
        let mut j: usize = 0;
        assert(base + sv.take(0) =~= base);
        while j < sigs.len()
            invariant
                j <= sigs.len(),
                sv == signature_views(sigs@),
                ({
                    let p = pick_new(base + sv.take(j as int), views(called@), seen0);
                    signature_views(out@) == p.0 && name_set(seen@) == p.1
                }),
            decreases sigs.len() - j,
        {
            let x = &sigs[j];
            assert((base + sv.take(j + 1)).drop_last() =~= base + sv.take(j as int));
            assert((base + sv.take(j + 1)).last() == x@);
            let called_it = name_seen(called, &x.name);
            let was_seen = name_seen(seen, &x.name);
            proof {
                lemma_name_set_contains(seen@, x.name@);
            }
            if called_it && !was_seen {
                let ghost before = signature_views(out@);
                let ghost sb = seen@;
                seen.push(x.name.clone());
                out.push(copy_signature(x));
                proof {
                    lemma_name_set_push(sb, x.name);
                }
                assert(signature_views(out@) =~= before.push(x@));
            }
            j = j + 1;
        }
        assert(sv.take(sigs.len() as int) =~= sv);
        assert(dependencies@.take(i + 1).drop_last() =~= dependencies@.take(i as int));
        assert(dep_candidates(dependencies@.take(i + 1)) == base + sv);
        i = i + 1;
    }
    assert(dependencies@.take(dependencies.len() as int) =~= dependencies@);
    out
}

/// The edit context of `symbol` in a parsed file whose shape (with code)
/// is `shape`: its row, the functions and methods it calls (from the file,
/// then from the files it depends on, each name once), the types and
/// imports its text names, cut to `max_tokens` (see `edit_parts` and
/// `fit_edit`); an error when the file has no such symbol.
pub fn edit_context(
    shape: &EnhancedFileShape,
    tree: &SyntaxTree,
    language: Language,
    display_path: &str,
    symbol: &str,
    comment_mode: CommentMode,
    max_tokens: usize,
    dependencies: &Vec<ParsedFile>,
) -> (r: Result<String, EditContextError>)
    requires
        tree.wf(),
    ensures
        target_of(*shape, symbol@) is None ==> (r matches Err(
            EditContextError::SymbolNotFound { symbol: s, file: f },
        ) && s@ == symbol@ && f@ == display_path@),
        target_of(*shape, symbol@) matches Some(tg) ==> same_edit_outcome(
            r,
            fit_edit(
                edit_parts(
                    *shape,
                    *tree,
                    language,
                    display_path@,
                    symbol@,
                    comment_mode,
                    dependencies@,
                    tg,
                ),
                false,
                max_tokens,
            ),
        ),
{
    let target = match find_target_symbol(shape, symbol) {
        Some(t) => t,
        None => {
            return Err(
                EditContextError::SymbolNotFound {
                    symbol: string_from(symbol),
                    file: string_from(display_path),
                },
            );
        },
    };
    let ghost tg = target@;
    let called = collect_called_names(tree, language, target.line, target.end_line);
    let same = collect_same_file_signatures(shape, false);
    let mut deps = local_dependencies(&same, &called, &target.name);
    let ghost local = signature_views(deps@);
    let mut seen: Vec<String> = Vec::new();
    let mut k: usize = 0;
    while k < deps.len()
        invariant
            k <= deps.len(),
            local == signature_views(deps@),
            name_set(seen@) == sig_names(local.take(k as int)),
        decreases deps.len() - k,
    {
        let ghost sb = seen@;
        seen.push(deps[k].name.clone());
        proof {
            lemma_name_set_push(sb, deps@[k as int].name);
            assert(local.take(k + 1) =~= local.take(k as int).push(local[k as int]));
            assert(sig_names(local.take(k + 1)) =~= sig_names(local.take(k as int)).insert(
                local[k as int].1,
            )) by {
                let a = local.take(k + 1);
                let b = local.take(k as int);
                assert forall|n: Seq<char>| sig_names(a).contains(n) implies sig_names(b).insert(
                    local[k as int].1,
                ).contains(n) by {
                    let m = choose|m: int| 0 <= m < a.len() && (#[trigger] a[m]).1 == n;
                    if m < b.len() {
                        assert(a[m] == b[m]);
                    }
                }
                assert forall|n: Seq<char>| sig_names(b).insert(local[k as int].1).contains(
                    n,
                ) implies sig_names(a).contains(n) by {
                    if n == local[k as int].1 {
                        assert(a[k as int].1 == n);
                    } else {
                        let m = choose|m: int| 0 <= m < b.len() && (#[trigger] b[m]).1 == n;
                        assert(a[m] == b[m]);
                    }
                }
            }
        }
        k = k + 1;
    }
    assert(local.take(deps.len() as int) =~= local);
    let ghost sb = seen@;
    seen.push(target.name.clone());
    proof {
        lemma_name_set_push(sb, target.name);
    }
    let ghost before_project = signature_views(deps@);
    if called.len() > 0 {
        let project = collect_project_dependency_signatures(dependencies, &called, &mut seen);
        let mut m: usize = 0;
        while m < project.len()
            invariant
                m <= project.len(),
                signature_views(deps@) == before_project + signature_views(project@).take(m as int),
            decreases project.len() - m,
        {
            let ghost b = signature_views(deps@);
            deps.push(copy_signature(&project[m]));
            assert(signature_views(deps@) =~= b.push(signature_views(project@)[m as int]));
            assert(signature_views(project@).take(m + 1) =~= signature_views(project@).take(
                m as int,
            ).push(signature_views(project@)[m as int]));
            m = m + 1;
        }
        assert(signature_views(project@).take(project.len() as int) =~= signature_views(project@));
    } else {
        assert(signature_views(deps@) =~= before_project + seq![]);
    }
    let mut text = target.signature.clone();
    push_str(&mut text, "\n");
    push_str(&mut text, target.code.as_str());
    let imports = relevant_imports(&shape.imports, text.as_str());
    let types = relevant_types(shape, text.as_str());
    let source = string_of(tree.source.as_slice());
    let code = match prepend_leading_comments_to_code(
        source.as_str(),
        target.line,
        language,
        Some(target.code.clone()),
        comment_mode,
    ) {
        Some(c) => c,
        None => target.code.clone(),
    };
    let parts = EditParts {
        path: string_from(display_path),
        symbol: string_from(symbol),
        scope: target.scope.clone(),
        target: target_to_row(&target, code.as_str()),
        deps: signature_rows(&deps),
        types: signature_rows(&types),
        imports: import_rows(&imports),
    };
    proof {
        assert(parts@ =~= edit_parts(
            *shape,
            *tree,
            language,
            display_path@,
            symbol@,
            comment_mode,
            dependencies@,
            tg,
        ));
    }
    enforce_budget(parts, max_tokens)
}

/// Parts `w` are parts `v` with rows dropped from the ends of their lists:
/// imports first, then types, then dependencies.
pub open spec fn reduced(w: PartsView, v: PartsView) -> bool {
    &&& w.0 == v.0 && w.1 == v.1 && w.2 == v.2 && w.3 == v.3
    &&& w.4.len() <= v.4.len() && w.4 == v.4.take(w.4.len() as int)
    &&& w.5.len() <= v.5.len() && w.5 == v.5.take(w.5.len() as int)
    &&& w.6.len() <= v.6.len() && w.6 == v.6.take(w.6.len() as int)
    &&& w.5.len() < v.5.len() ==> w.6.len() == 0
    &&& w.4.len() < v.4.len() ==> w.5.len() == 0 && w.6.len() == 0
}

proof fn lemma_reduced_trans(w: PartsView, u: PartsView, v: PartsView)
    requires
        reduced(w, u),
        reduced(u, v),
    ensures
        reduced(w, v),
{
    assert(w.4 =~= v.4.take(w.4.len() as int));
    assert(w.5 =~= v.5.take(w.5.len() as int));
    assert(w.6 =~= v.6.take(w.6.len() as int));
}

/// An edit context is the JSON text of its parts with rows dropped from the
/// ends (imports first, then types, then dependencies), marked truncated
/// when rows were dropped or it was marked before: either that text,
/// without the mark, fits in `max_tokens`, or no optional rows are left
/// and it is marked truncated.
pub proof fn law_edit_context_budget(v: PartsView, truncated: bool, max_tokens: usize)
    ensures
        fit_edit(v, truncated, max_tokens) matches Ok(text) ==> exists|w: PartsView|
            #![trigger reduced(w, v)]
            reduced(w, v) && ((edit_json(w, false) matches Some(u) && cl100k_tokens(u) matches Some(
                n,
            ) && n <= max_tokens && Some(text) == edit_json(w, truncated || w != v)) || (w.4.len()
                == 0 && w.5.len() == 0 && w.6.len() == 0 && Some(text) == edit_json(w, true))),
    decreases v.4.len() + v.5.len() + v.6.len(),
{
    assert(reduced(v, v)) by {
        assert(v.4 =~= v.4.take(v.4.len() as int));
        assert(v.5 =~= v.5.take(v.5.len() as int));
        assert(v.6 =~= v.6.take(v.6.len() as int));
    }
    match fit_edit(v, truncated, max_tokens) {
        Ok(text) => {
            let n = cl100k_tokens(edit_json(v, false).unwrap()).unwrap();
            if n <= max_tokens {
                assert(reduced(v, v));
            } else if v.6.len() > 0 {
                let d = drop_import(v);
                law_edit_context_budget(d, true, max_tokens);
                let w = choose|w: PartsView|
                    #![trigger reduced(w, d)]
                    reduced(w, d) && ((edit_json(w, false) matches Some(u) && cl100k_tokens(u) matches Some(
                        n,
                    ) && n <= max_tokens && Some(text) == edit_json(w, true || w != d)) || (w.4.len()
                        == 0 && w.5.len() == 0 && w.6.len() == 0 && Some(text) == edit_json(w, true)));
                assert(reduced(d, v)) by {
                    assert(d.6 =~= v.6.take(d.6.len() as int));
                    assert(d.4 =~= v.4.take(d.4.len() as int));
                    assert(d.5 =~= v.5.take(d.5.len() as int));
                }
                lemma_reduced_trans(w, d, v);
                assert(w != v) by {
                    assert(w.6.len() < v.6.len());
                }
            } else if v.5.len() > 0 {
                let d = drop_type(v);
                law_edit_context_budget(d, true, max_tokens);
                let w = choose|w: PartsView|
                    #![trigger reduced(w, d)]
                    reduced(w, d) && ((edit_json(w, false) matches Some(u) && cl100k_tokens(u) matches Some(
                        n,
                    ) && n <= max_tokens && Some(text) == edit_json(w, true || w != d)) || (w.4.len()
                        == 0 && w.5.len() == 0 && w.6.len() == 0 && Some(text) == edit_json(w, true)));
                assert(reduced(d, v)) by {
                    assert(d.6 =~= v.6.take(d.6.len() as int));
                    assert(d.4 =~= v.4.take(d.4.len() as int));
                    assert(d.5 =~= v.5.take(d.5.len() as int));
                }
                lemma_reduced_trans(w, d, v);
                assert(w != v) by {
                    assert(w.5.len() < v.5.len());
                }
            } else if v.4.len() > 0 {
                let d = drop_dep(v);
                law_edit_context_budget(d, true, max_tokens);
                let w = choose|w: PartsView|
                    #![trigger reduced(w, d)]
                    reduced(w, d) && ((edit_json(w, false) matches Some(u) && cl100k_tokens(u) matches Some(
                        n,
                    ) && n <= max_tokens && Some(text) == edit_json(w, true || w != d)) || (w.4.len()
                        == 0 && w.5.len() == 0 && w.6.len() == 0 && Some(text) == edit_json(w, true)));
                assert(reduced(d, v)) by {
                    assert(d.6 =~= v.6.take(d.6.len() as int));
                    assert(d.4 =~= v.4.take(d.4.len() as int));
                    assert(d.5 =~= v.5.take(d.5.len() as int));
                }
                lemma_reduced_trans(w, d, v);
                assert(w != v) by {
                    assert(w.4.len() < v.4.len());
                }
            } else {
                assert(reduced(v, v));
            }
        },
        Err(_) => {},
    }
}

/// The edit context of `symbol` in the source of the file at `file_path`
/// (see `edit_context`): the language is told by the path, the source is
/// parsed and its shape taken with code; errors when the language is not
/// supported or the source does not parse.
pub fn minimal_edit_context(
    file_path: &str,
    display_path: &str,
    source: &str,
    symbol: &str,
    comment_mode: CommentMode,
    max_tokens: usize,
    dependencies: &Vec<ParsedFile>,
) -> (r: Result<String, EditContextError>)
    ensures
        path_language(file_path@) is None ==> r matches Err(EditContextError::Language(_)),
        path_language(file_path@) matches Some(l) ==> (crate::parser::parse_nodes(l, source@) is None
            ==> r matches Err(EditContextError::Parse(_))),
        path_language(file_path@) matches Some(l) ==> (crate::parser::parse_nodes(l, source@) is Some
            ==> exists|t: SyntaxTree, s: EnhancedFileShape|
            #![trigger shape_lists(s, t, l, true)]
            {
                &&& t.wf()
                &&& crate::parser::tree_is_parse(t, l, source@)
                &&& shape_lists(s, t, l, true)
                &&& s.path matches Some(q) && q@ == file_path@
                &&& s.language matches Some(n) && n@ == crate::parser::language_name(l)
                &&& target_of(s, symbol@) is None ==> (r matches Err(
                    EditContextError::SymbolNotFound { symbol: sy, file: f },
                ) && sy@ == symbol@ && f@ == display_path@)
                &&& target_of(s, symbol@) matches Some(tg) ==> same_edit_outcome(
                    r,
                    fit_edit(
                        edit_parts(s, t, l, display_path@, symbol@, comment_mode, dependencies@, tg),
                        false,
                        max_tokens,
                    ),
                )
            }),
{
    let language = match detect_language(file_path) {
        Ok(l) => l,
        Err(e) => return Err(EditContextError::Language(e)),
    };
    let tree = match parse_code(source, language) {
        Ok(t) => t,
        Err(e) => return Err(EditContextError::Parse(e)),
    };
    let shape = extract_enhanced_shape(&tree, language, Some(file_path), true);
    let r = edit_context(
        &shape,
        &tree,
        language,
        display_path,
        symbol,
        comment_mode,
        max_tokens,
        dependencies,
    );
    r
}

} // verus!
