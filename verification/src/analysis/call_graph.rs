//! Best-effort call graphs: the definitions of a project, how a called name
//! is resolved to one of them, and the callers and callees of a symbol,
//! level by level.
use vstd::prelude::*;
use crate::analysis::calls::{call_sites, called_names, collect_call_sites, collect_called_names};
use crate::analysis::shape::{
    EnhancedClassInfo, EnhancedFileShape, EnhancedFunctionInfo, ImplBlockInfo, InterfaceInfo,
    MethodInfo, extract_enhanced_shape, shape_lists,
};
use crate::parser::{Language, detect_language, language_for_extension, parse_code};
use crate::paths::path_extension;
use crate::rows::{decimal, decimal_string, format_row, join_rows, row_text};
use crate::syntax::SyntaxTree;
use crate::text::{
    ascii_lower, compare_strs, lemma_text_order_flip, lemma_text_order_trans, lemma_text_order_zero,
    join, push_str, str_eq, str_is, text_order, views,
};

verus! {

/// Which way a call graph is walked.
#[derive(Debug, Clone, Copy, PartialEq, Eq, Structural)]
pub enum Direction {
    Callers,
    Callees,
    Both,
}

/// Why a call graph could not be produced.
#[derive(Debug)]
pub enum CallGraphError {
    /// The direction is not `callers`, `callees` or `both` (it is carried).
    InvalidDirection(String),
    /// No definition of the symbol was found.
    SymbolNotFound { symbol: String, file: String },
    /// A text could not be written as a JSON string.
    Serialization,
    /// A text could not be tokenized.
    Tokenizer,
}

impl CallGraphError {
    /// The message of the error.
    pub fn message(&self) -> (r: String)
        ensures
            r@ == match self {
                CallGraphError::InvalidDirection(v) => "Invalid direction '"@ + v@
                    + "', expected callers, callees, or both"@,
                CallGraphError::SymbolNotFound { symbol, file } => "Symbol '"@ + symbol@ + "' not found in "@
                    + file@,
                CallGraphError::Serialization => "Failed to serialize result to JSON"@,
                CallGraphError::Tokenizer => "Failed to tokenize result"@,
            },
    {
        let mut s = String::new();
        match self {
            CallGraphError::InvalidDirection(v) => {
                push_str(&mut s, "Invalid direction '");
                push_str(&mut s, v.as_str());
                push_str(&mut s, "', expected callers, callees, or both");
            },
            CallGraphError::SymbolNotFound { symbol, file } => {
                push_str(&mut s, "Symbol '");
                push_str(&mut s, symbol.as_str());
                push_str(&mut s, "' not found in ");
                push_str(&mut s, file.as_str());
            },
            CallGraphError::Serialization => {
                push_str(&mut s, "Failed to serialize result to JSON");
            },
            CallGraphError::Tokenizer => {
                push_str(&mut s, "Failed to tokenize result");
            },
        }
        s
    }
}

/// `callers`, `callees` or `both`; anything else is an error that carries
/// the value.
pub fn parse_direction(value: &str) -> (r: Result<Direction, CallGraphError>)
    ensures
        value@ == "callers"@ ==> r == Ok::<Direction, CallGraphError>(Direction::Callers),
        value@ == "callees"@ ==> r == Ok::<Direction, CallGraphError>(Direction::Callees),
        value@ == "both"@ ==> r == Ok::<Direction, CallGraphError>(Direction::Both),
        value@ != "callers"@ && value@ != "callees"@ && value@ != "both"@ ==> (r matches Err(
            CallGraphError::InvalidDirection(v),
        ) && v@ == value@),
{
    proof {
        reveal_strlit("callers");
        reveal_strlit("callees");
        reveal_strlit("both");
        assert("callees"@[5] != "callers"@[5]);
        assert("both"@.len() != "callers"@.len());
        assert("both"@.len() != "callees"@.len());
    }
    if str_is(value, "callers") {
        Ok(Direction::Callers)
    } else if str_is(value, "callees") {
        Ok(Direction::Callees)
    } else if str_is(value, "both") {
        Ok(Direction::Both)
    } else {
        let mut v = String::new();
        push_str(&mut v, value);
        Err(CallGraphError::InvalidDirection(v))
    }
}

// ---------------------------------------------------------------------------
// Parsed files and their definitions
// ---------------------------------------------------------------------------

/// A file of the project, parsed, with its shape.
#[derive(Debug)]
pub struct ParsedFile {
    pub path: String,
    pub language: Language,
    pub tree: SyntaxTree,
    pub shape: EnhancedFileShape,
}

impl ParsedFile {
    /// The tree is well formed and the shape is the one of the tree.
    pub open spec fn wf(self) -> bool {
        &&& self.tree.wf()
        &&& shape_lists(self.shape, self.tree, self.language, false)
    }
}

/// Every file is well formed.
pub open spec fn files_wf(fs: Seq<ParsedFile>) -> bool {
    forall|i: int| 0 <= i < fs.len() ==> (#[trigger] fs[i]).wf()
}

/// The language of a path, by its (case-insensitive) extension.
pub open spec fn path_language(p: Seq<char>) -> Option<Language> {
    match path_extension(p) {
        None => None,
        Some(ext) => language_for_extension(ascii_lower(ext)),
    }
}

/// Parses one file of the project: `None` when its language is not
/// supported or the parser gives no tree.
pub fn parse_project_file(path: &str, source: &str) -> (r: Option<ParsedFile>)
    ensures
        path_language(path@) is None ==> r is None,
        path_language(path@) matches Some(l) ==> (r is Some <==> crate::parser::parse_nodes(
            l,
            source@,
        ) is Some),
        r matches Some(f) ==> {
            &&& f.wf()
            &&& f.path@ == path@
            &&& path_language(path@) == Some(f.language)
            &&& crate::parser::tree_is_parse(f.tree, f.language, source@)
        },
{
    let language = match detect_language(path) {
        Ok(l) => l,
        Err(_) => return None,
    };
    let tree = match parse_code(source, language) {
        Ok(t) => t,
        Err(_) => return None,
    };
    let shape = extract_enhanced_shape(&tree, language, None, false);
    let mut p = String::new();
    push_str(&mut p, path);
    Some(ParsedFile { path: p, language, tree, shape })
}

/// A function or method of the project: its name, file, first and last
/// line, and the type or class it belongs to (empty for a free function).
#[derive(Debug)]
pub struct SymbolDef {
    pub name: String,
    pub file: String,
    pub line: usize,
    pub end_line: usize,
    pub scope: String,
}

/// A definition as plain values: name, file, line, end line, scope.
pub type DefView = (Seq<char>, Seq<char>, usize, usize, Seq<char>);

impl View for SymbolDef {
    type V = DefView;

    open spec fn view(&self) -> DefView {
        (self.name@, self.file@, self.line, self.end_line, self.scope@)
    }
}

pub open spec fn def_views(v: Seq<SymbolDef>) -> Seq<DefView> {
    v.map_values(|d: SymbolDef| d@)
}

/// A copy of a definition.
pub fn copy_def(d: &SymbolDef) -> (r: SymbolDef)
    ensures
        r@ == d@,
{
    SymbolDef {
        name: d.name.clone(),
        file: d.file.clone(),
        line: d.line,
        end_line: d.end_line,
        scope: d.scope.clone(),
    }
}

pub open spec fn function_defs(fs: Seq<EnhancedFunctionInfo>, file: Seq<char>, scope: Seq<char>) -> Seq<
    DefView,
> {
    fs.map_values(|f: EnhancedFunctionInfo| (f.name@, file, f.line, f.end_line, scope))
}

pub open spec fn method_defs(ms: Seq<MethodInfo>, file: Seq<char>, scope: Seq<char>) -> Seq<DefView> {
    ms.map_values(|m: MethodInfo| (m.name@, file, m.line, m.end_line, scope))
}

pub open spec fn class_defs(cs: Seq<EnhancedClassInfo>, file: Seq<char>) -> Seq<DefView>
    decreases cs.len(),
{
    if cs.len() == 0 {
        seq![]
    } else {
        class_defs(cs.drop_last(), file) + function_defs(cs.last().methods@, file, cs.last().name@)
    }
}

pub open spec fn impl_defs(bs: Seq<ImplBlockInfo>, file: Seq<char>) -> Seq<DefView>
    decreases bs.len(),
{
    if bs.len() == 0 {
        seq![]
    } else {
        impl_defs(bs.drop_last(), file) + method_defs(bs.last().methods@, file, bs.last().impl_type@)
    }
}

pub open spec fn interface_defs(is: Seq<InterfaceInfo>, file: Seq<char>) -> Seq<DefView>
    decreases is.len(),
{
    if is.len() == 0 {
        seq![]
    } else {
        interface_defs(is.drop_last(), file) + function_defs(
            is.last().methods@,
            file,
            is.last().name@,
        )
    }
}

/// The definitions of one file: its functions, then the methods of its
/// classes, of its impl blocks and of its interfaces.
pub open spec fn shape_defs(file: Seq<char>, s: EnhancedFileShape) -> Seq<DefView> {
    function_defs(s.functions@, file, seq![]) + class_defs(s.classes@, file) + impl_defs(
        s.impl_blocks@,
        file,
    ) + interface_defs(s.interfaces@, file)
}

/// The definitions of all files, in order.
pub open spec fn project_defs(fs: Seq<ParsedFile>) -> Seq<DefView>
    decreases fs.len(),
{
    if fs.len() == 0 {
        seq![]
    } else {
        project_defs(fs.drop_last()) + shape_defs(fs.last().path@, fs.last().shape)
    }
}

fn string_of_str(s: &str) -> (r: String)
    ensures
        r@ == s@,
{
    let mut r = String::new();
    push_str(&mut r, s);
    r
}

/// The definition of a function, with a scope.
pub fn def_from_function(file: &str, function: &EnhancedFunctionInfo, scope: &str) -> (r: SymbolDef)
    ensures
        r@ == (function.name@, file@, function.line, function.end_line, scope@),
{
    SymbolDef {
        name: function.name.clone(),
        file: string_of_str(file),
        line: function.line,
        end_line: function.end_line,
        scope: string_of_str(scope),
    }
}

/// The definition of a method, with a scope.
pub fn def_from_method(file: &str, method: &MethodInfo, scope: &str) -> (r: SymbolDef)
    ensures
        r@ == (method.name@, file@, method.line, method.end_line, scope@),
{
    SymbolDef {
        name: method.name.clone(),
        file: string_of_str(file),
        line: method.line,
        end_line: method.end_line,
        scope: string_of_str(scope),
    }
}

fn push_function_defs(
    out: &mut Vec<SymbolDef>,
    file: &str,
    fs: &Vec<EnhancedFunctionInfo>,
    scope: &str,
)
    ensures
        def_views(final(out)@) == def_views(old(out)@) + function_defs(fs@, file@, scope@),
{
    let ghost start = def_views(out@);
    let mut i: usize = 0;
    while i < fs.len()
        invariant
            i <= fs.len(),
            def_views(out@) == start + function_defs(fs@.take(i as int), file@, scope@),
        decreases fs.len() - i,
    {
        let d = def_from_function(file, &fs[i], scope);
        let ghost before = out@;
        out.push(d);
        assert(def_views(out@) =~= def_views(before).push(d@));
        assert(function_defs(fs@.take(i + 1), file@, scope@) =~= function_defs(
            fs@.take(i as int),
            file@,
            scope@,
        ).push(d@));
        assert(def_views(out@) =~= start + function_defs(fs@.take(i + 1), file@, scope@));
        i = i + 1;
    }
    assert(fs@.take(fs.len() as int) == fs@);
}

fn push_method_defs(out: &mut Vec<SymbolDef>, file: &str, ms: &Vec<MethodInfo>, scope: &str)
    ensures
        def_views(final(out)@) == def_views(old(out)@) + method_defs(ms@, file@, scope@),
{
    let ghost start = def_views(out@);
    let mut i: usize = 0;
    while i < ms.len()
        invariant
            i <= ms.len(),
            def_views(out@) == start + method_defs(ms@.take(i as int), file@, scope@),
        decreases ms.len() - i,
    {
        let d = def_from_method(file, &ms[i], scope);
        let ghost before = out@;
        out.push(d);
        assert(def_views(out@) =~= def_views(before).push(d@));
        assert(method_defs(ms@.take(i + 1), file@, scope@) =~= method_defs(
            ms@.take(i as int),
            file@,
            scope@,
        ).push(d@));
        assert(def_views(out@) =~= start + method_defs(ms@.take(i + 1), file@, scope@));
        i = i + 1;
    }
    assert(ms@.take(ms.len() as int) == ms@);
}

fn push_shape_defs(out: &mut Vec<SymbolDef>, file: &str, shape: &EnhancedFileShape)
    ensures
        def_views(final(out)@) == def_views(old(out)@) + shape_defs(file@, *shape),
{
    let ghost start = def_views(out@);
    push_function_defs(out, file, &shape.functions, "");
    proof {
        reveal_strlit("");
        assert(""@ =~= Seq::<char>::empty());
    }
    let ghost a = def_views(out@);
    let mut i: usize = 0;
    while i < shape.classes.len()
        invariant
            i <= shape.classes.len(),
            def_views(out@) == a + class_defs(shape.classes@.take(i as int), file@),
        decreases shape.classes.len() - i,
    {
        let c = &shape.classes[i];
        push_function_defs(out, file, &c.methods, c.name.as_str());
        assert(shape.classes@.take(i + 1).drop_last() =~= shape.classes@.take(i as int));
        i = i + 1;
    }
    assert(shape.classes@.take(shape.classes.len() as int) == shape.classes@);
    let ghost b = def_views(out@);
    let mut j: usize = 0;
    while j < shape.impl_blocks.len()
        invariant
            j <= shape.impl_blocks.len(),
            def_views(out@) == b + impl_defs(shape.impl_blocks@.take(j as int), file@),
        decreases shape.impl_blocks.len() - j,
    {
        let blk = &shape.impl_blocks[j];
        push_method_defs(out, file, &blk.methods, blk.impl_type.as_str());
        assert(shape.impl_blocks@.take(j + 1).drop_last() =~= shape.impl_blocks@.take(j as int));
        j = j + 1;
    }
    assert(shape.impl_blocks@.take(shape.impl_blocks.len() as int) == shape.impl_blocks@);
    let ghost c0 = def_views(out@);
    let mut k: usize = 0;
    while k < shape.interfaces.len()
        invariant
            k <= shape.interfaces.len(),
            def_views(out@) == c0 + interface_defs(shape.interfaces@.take(k as int), file@),
        decreases shape.interfaces.len() - k,
    {
        let itf = &shape.interfaces[k];
        push_function_defs(out, file, &itf.methods, itf.name.as_str());
        assert(shape.interfaces@.take(k + 1).drop_last() =~= shape.interfaces@.take(k as int));
        k = k + 1;
    }
    assert(shape.interfaces@.take(shape.interfaces.len() as int) == shape.interfaces@);
    assert(def_views(out@) =~= start + shape_defs(file@, *shape));
}

/// The definitions of one file (see `shape_defs`).
pub fn definitions_from_shape(file: &str, shape: &EnhancedFileShape) -> (r: Vec<SymbolDef>)
    ensures
        def_views(r@) == shape_defs(file@, *shape),
{
    let mut out: Vec<SymbolDef> = Vec::new();
    push_shape_defs(&mut out, file, shape);
    assert(def_views(Seq::<SymbolDef>::empty()) =~= seq![]);
    assert(seq![] + shape_defs(file@, *shape) =~= shape_defs(file@, *shape));
    out
}

/// The definitions of all files, in order (see `project_defs`).
pub fn collect_definitions(files: &Vec<ParsedFile>) -> (r: Vec<SymbolDef>)
    ensures
        def_views(r@) == project_defs(files@),
{
    let mut out: Vec<SymbolDef> = Vec::new();
    let mut i: usize = 0;
    assert(def_views(out@) =~= seq![]);
    while i < files.len()
        invariant
            i <= files.len(),
            def_views(out@) == project_defs(files@.take(i as int)),
        decreases files.len() - i,
    {
        push_shape_defs(&mut out, files[i].path.as_str(), &files[i].shape);
        assert(files@.take(i + 1).drop_last() =~= files@.take(i as int));
        i = i + 1;
    }
    assert(files@.take(files.len() as int) == files@);
    out
}

// ---------------------------------------------------------------------------
// Resolving names to definitions
// ---------------------------------------------------------------------------

/// The first index of `s` at which `p` holds.
pub open spec fn first_where<A>(s: Seq<A>, p: spec_fn(A) -> bool) -> Option<int>
    decreases s.len(),
{
    if s.len() == 0 {
        None
    } else {
        match first_where(s.drop_last(), p) {
            Some(i) => Some(i),
            None => if p(s.last()) {
                Some(s.len() - 1)
            } else {
                None
            },
        }
    }
}

/// `first_where` is the first index at which `p` holds, and `None` when `p`
/// holds nowhere.
pub proof fn lemma_first_where<A>(s: Seq<A>, p: spec_fn(A) -> bool)
    ensures
        match first_where(s, p) {
            Some(i) => 0 <= i < s.len() && p(s[i]) && forall|j: int| 0 <= j < i ==> !p(#[trigger] s[j]),
            None => forall|j: int| 0 <= j < s.len() ==> !p(#[trigger] s[j]),
        },
    decreases s.len(),
{
    if s.len() > 0 {
        lemma_first_where(s.drop_last(), p);
        assert forall|j: int| 0 <= j < s.len() - 1 implies s.drop_last()[j] == s[j] by {}
    }
}

/// A definition of `name` in `file`.
pub open spec fn named_in(name: Seq<char>, file: Seq<char>) -> spec_fn(DefView) -> bool {
    |d: DefView| d.0 == name && d.1 == file
}

/// A definition of `name`.
pub open spec fn named(name: Seq<char>) -> spec_fn(DefView) -> bool {
    |d: DefView| d.0 == name
}

/// The definition a called `name` stands for, seen from `file`: the first
/// definition of that name in the same file, else the first one anywhere.
pub open spec fn resolved(defs: Seq<DefView>, name: Seq<char>, file: Seq<char>) -> Option<DefView> {
    match first_where(defs, named_in(name, file)) {
        Some(i) => Some(defs[i]),
        None => match first_where(defs, named(name)) {
            Some(i) => Some(defs[i]),
            None => None,
        },
    }
}

pub open spec fn opt_def_view(o: Option<SymbolDef>) -> Option<DefView> {
    match o {
        Some(d) => Some(d@),
        None => None,
    }
}

/// The definition a called `name` stands for, seen from `current_file`
/// (see `resolved`).
pub fn resolve_definition(defs: &Vec<SymbolDef>, name: &str, current_file: &str) -> (r: Option<
    SymbolDef,
>)
    ensures
        opt_def_view(r) == resolved(def_views(defs@), name@, current_file@),
{
    let ghost dv = def_views(defs@);
    proof {
        lemma_first_where(dv, named_in(name@, current_file@));
        lemma_first_where(dv, named(name@));
    }
    let mut i: usize = 0;
    while i < defs.len()
        invariant
            i <= defs.len(),
            dv == def_views(defs@),
            forall|j: int| 0 <= j < i ==> !named_in(name@, current_file@)(#[trigger] dv[j]),
        decreases defs.len() - i,
    {
        if str_eq(defs[i].name.as_str(), name) && str_eq(defs[i].file.as_str(), current_file) {
            proof {
                let p = named_in(name@, current_file@);
                lemma_first_where(dv, p);
                assert(p(dv[i as int]));
                match first_where(dv, p) {
                    Some(m) => {
                        if m < i {
                            assert(!p(dv[m]));
                        } else if m > i {
                            assert(!p(dv[i as int]));
                        }
                    },
                    None => {
                        assert(!p(dv[i as int]));
                    },
                }
            }
            return Some(copy_def(&defs[i]));
        }
        assert(!named_in(name@, current_file@)(dv[i as int]));
        i = i + 1;
    }
    proof {
        lemma_first_where(dv, named_in(name@, current_file@));
        if let Some(m) = first_where(dv, named_in(name@, current_file@)) {
            assert(!named_in(name@, current_file@)(dv[m]));
        }
    }
    let mut k: usize = 0;
    while k < defs.len()
        invariant
            k <= defs.len(),
            dv == def_views(defs@),
            first_where(dv, named_in(name@, current_file@)) is None,
            forall|j: int| 0 <= j < k ==> !named(name@)(#[trigger] dv[j]),
        decreases defs.len() - k,
    {
        if str_eq(defs[k].name.as_str(), name) {
            proof {
                let p = named(name@);
                lemma_first_where(dv, p);
                assert(p(dv[k as int]));
                match first_where(dv, p) {
                    Some(m) => {
                        if m < k {
                            assert(!p(dv[m]));
                        } else if m > k {
                            assert(!p(dv[k as int]));
                        }
                    },
                    None => {
                        assert(!p(dv[k as int]));
                    },
                }
            }
            return Some(copy_def(&defs[k]));
        }
        assert(!named(name@)(dv[k as int]));
        k = k + 1;
    }
    proof {
        lemma_first_where(dv, named(name@));
        if let Some(m) = first_where(dv, named(name@)) {
            assert(!named(name@)(dv[m]));
        }
    }
    None
}

/// The definition of the symbol asked for: the first of that name in the
/// given file, else the first of that name anywhere.
pub fn find_target_definition(defs: &Vec<SymbolDef>, file_path: &str, symbol: &str) -> (r: Option<
    SymbolDef,
>)
    ensures
        opt_def_view(r) == resolved(def_views(defs@), symbol@, file_path@),
{
    resolve_definition(defs, symbol, file_path)
}

/// The definition `d` spans `line` of `file`.
pub open spec fn covers(d: DefView, file: Seq<char>, line: usize) -> bool {
    d.1 == file && d.2 <= line && line <= d.3
}

/// Among the definitions that span `line` of `file`, the index of the one
/// that starts last (the last of them where several start on that line).
pub open spec fn containing(defs: Seq<DefView>, file: Seq<char>, line: usize) -> Option<int>
    decreases defs.len(),
{
    if defs.len() == 0 {
        None
    } else {
        let prev = containing(defs.drop_last(), file, line);
        let e = defs.last();
        if covers(e, file, line) && match prev {
            None => true,
            Some(k) => defs[k].2 <= e.2,
        } {
            Some(defs.len() - 1)
        } else {
            prev
        }
    }
}

pub proof fn lemma_containing_bounds(defs: Seq<DefView>, file: Seq<char>, line: usize)
    ensures
        containing(defs, file, line) matches Some(k) ==> 0 <= k < defs.len() && covers(
            defs[k],
            file,
            line,
        ),
    decreases defs.len(),
{
    if defs.len() > 0 {
        lemma_containing_bounds(defs.drop_last(), file, line);
    }
}

/// The index of the definition that spans `line` of `file` (see
/// `containing`).
pub fn definition_containing_line(defs: &Vec<SymbolDef>, file: &str, line: usize) -> (r: Option<
    usize,
>)
    ensures
        match r {
            Some(k) => containing(def_views(defs@), file@, line) == Some(k as int),
            None => containing(def_views(defs@), file@, line) is None,
        },
{
    let ghost dv = def_views(defs@);
    let mut best: Option<usize> = None;
    let mut i: usize = 0;
    while i < defs.len()
        invariant
            i <= defs.len(),
            dv == def_views(defs@),
            match best {
                Some(k) => containing(dv.take(i as int), file@, line) == Some(k as int) && k < i,
                None => containing(dv.take(i as int), file@, line) is None,
            },
        decreases defs.len() - i,
    {
        proof {
            lemma_containing_bounds(dv.take(i as int), file@, line);
            assert(dv.take(i + 1).drop_last() =~= dv.take(i as int));
        }
        let d = &defs[i];
        if str_eq(d.file.as_str(), file) && d.line <= line && line <= d.end_line {
            let better = match best {
                None => true,
                Some(k) => defs[k].line <= d.line,
            };
            if better {
                best = Some(i);
            }
        }
        i = i + 1;
    }
    assert(dv.take(defs.len() as int) =~= dv);
    best
}

// ---------------------------------------------------------------------------
// Callers and callees of one definition
// ---------------------------------------------------------------------------

/// Callers are ordered by file, then line, then name.
pub open spec fn caller_before(a: DefView, b: DefView) -> bool {
    ||| text_order(a.1, b.1) < 0
    ||| a.1 == b.1 && a.2 < b.2
    ||| a.1 == b.1 && a.2 == b.2 && text_order(a.0, b.0) < 0
}

/// Two callers with the same file, line and name count as one.
pub open spec fn same_caller(a: DefView, b: DefView) -> bool {
    a.1 == b.1 && a.2 == b.2 && a.0 == b.0
}

pub open spec fn not_before(d: DefView) -> spec_fn(DefView) -> bool {
    |e: DefView| !caller_before(e, d)
}

/// `d` put into `s` before the first caller that does not come before it,
/// unless that one is the same caller.
pub open spec fn insert_caller(s: Seq<DefView>, d: DefView) -> Seq<DefView> {
    match first_where(s, not_before(d)) {
        None => s.push(d),
        Some(i) => if same_caller(s[i], d) {
            s
        } else {
            s.insert(i, d)
        },
    }
}

/// Callers sorted by file, line and name, each kept once (the first met).
pub open spec fn sort_callers(raw: Seq<DefView>) -> Seq<DefView>
    decreases raw.len(),
{
    if raw.len() == 0 {
        seq![]
    } else {
        insert_caller(sort_callers(raw.drop_last()), raw.last())
    }
}

/// For each call line, the definition that spans it in `file`.
pub open spec fn lines_callers(lines: Seq<usize>, defs: Seq<DefView>, file: Seq<char>) -> Seq<
    DefView,
>
    decreases lines.len(),
{
    if lines.len() == 0 {
        seq![]
    } else {
        lines_callers(lines.drop_last(), defs, file) + match containing(defs, file, lines.last()) {
            Some(k) => seq![defs[k]],
            None => seq![],
        }
    }
}

/// The definitions that span a call of `name`, file by file, call by call.
pub open spec fn raw_callers(fs: Seq<ParsedFile>, defs: Seq<DefView>, name: Seq<char>) -> Seq<
    DefView,
>
    decreases fs.len(),
{
    if fs.len() == 0 {
        seq![]
    } else {
        raw_callers(fs.drop_last(), defs, name) + lines_callers(
            call_sites(fs.last().tree, 0, fs.last().language, name),
            defs,
            fs.last().path@,
        )
    }
}

/// The callers of `name`: sorted, each once.
pub open spec fn callers_of(fs: Seq<ParsedFile>, defs: Seq<DefView>, name: Seq<char>) -> Seq<
    DefView,
> {
    sort_callers(raw_callers(fs, defs, name))
}

fn caller_before_exec(a: &SymbolDef, b: &SymbolDef) -> (r: bool)
    ensures
        r == caller_before(a@, b@),
{
    let f = compare_strs(a.file.as_str(), b.file.as_str());
    if f < 0 {
        return true;
    }
    if !str_eq(a.file.as_str(), b.file.as_str()) {
        return false;
    }
    if a.line != b.line {
        return a.line < b.line;
    }
    compare_strs(a.name.as_str(), b.name.as_str()) < 0
}

fn insert_caller_exec(out: &mut Vec<SymbolDef>, d: SymbolDef)
    ensures
        def_views(final(out)@) == insert_caller(def_views(old(out)@), d@),
{
    let ghost s = def_views(out@);
    let mut i: usize = 0;
    while i < out.len() && caller_before_exec(&out[i], &d)
        invariant
            i <= out.len(),
            s == def_views(out@),
            forall|j: int| 0 <= j < i ==> !not_before(d@)(#[trigger] s[j]),
        decreases out.len() - i,
    {
        assert(!not_before(d@)(s[i as int]));
        i = i + 1;
    }
    proof {
        let p = not_before(d@);
        lemma_first_where(s, p);
        if i < out.len() {
            assert(p(s[i as int]));
            match first_where(s, p) {
                Some(m) => {
                    if m < i {
                        assert(!p(s[m]));
                    } else if m > i {
                        assert(!p(s[i as int]));
                    }
                },
                None => {
                    assert(!p(s[i as int]));
                },
            }
        } else {
            if let Some(m) = first_where(s, p) {
                assert(!p(s[m]));
            }
        }
    }
    if i == out.len() {
        out.push(d);
        assert(def_views(out@) =~= s.push(d@));
    } else if str_eq(out[i].file.as_str(), d.file.as_str()) && out[i].line == d.line && str_eq(
        out[i].name.as_str(),
        d.name.as_str(),
    ) {
    } else {
        let ghost dv = d@;
        out.insert(i, d);
        assert(def_views(out@) =~= s.insert(i as int, dv));
    }
}

/// Definitions sorted by file, line and name, each kept once (the first
/// met): see `sort_callers`.
pub fn sort_callers_exec(raw: Vec<SymbolDef>) -> (r: Vec<SymbolDef>)
    ensures
        def_views(r@) == sort_callers(def_views(raw@)),
{
    let ghost rv = def_views(raw@);
    let mut out: Vec<SymbolDef> = Vec::new();
    assert(def_views(out@) =~= sort_callers(rv.take(0)));
    let mut i: usize = 0;
    let n = raw.len();
    while i < n
        invariant
            n == rv.len(),
            n == raw@.len(),
            i <= n,
            rv == def_views(raw@),
            def_views(out@) == sort_callers(rv.take(i as int)),
        decreases n - i,
    {
        let d = copy_def(&raw[i]);
        assert(d@ == rv[i as int]);
        insert_caller_exec(&mut out, d);
        assert(rv.take(i + 1).drop_last() =~= rv.take(i as int));
        i = i + 1;
    }
    assert(rv.take(n as int) =~= rv);
    out
}

/// The definitions that call `symbol_name`, over all files: for each call,
/// the definition that spans its line; sorted by file, line and name, each
/// once (see `callers_of`).
pub fn callers_for_symbol(symbol_name: &str, files: &Vec<ParsedFile>, defs: &Vec<SymbolDef>) -> (r:
    Vec<SymbolDef>)
    requires
        files_wf(files@),
    ensures
        def_views(r@) == callers_of(files@, def_views(defs@), symbol_name@),
{
    let ghost dv = def_views(defs@);
    let mut raw: Vec<SymbolDef> = Vec::new();
    let mut i: usize = 0;
    assert(def_views(raw@) =~= raw_callers(files@.take(0), dv, symbol_name@));
    while i < files.len()
        invariant
            i <= files.len(),
            files_wf(files@),
            dv == def_views(defs@),
            def_views(raw@) == raw_callers(files@.take(i as int), dv, symbol_name@),
        decreases files.len() - i,
    {
        let f = &files[i];
        assert(files@[i as int].wf());
        let sites = collect_call_sites(&f.tree, f.language, symbol_name);
        let ghost start = def_views(raw@);
        let mut k: usize = 0;
        while k < sites.len()
            invariant
                k <= sites.len(),
                dv == def_views(defs@),
                def_views(raw@) == start + lines_callers(sites@.take(k as int), dv, f.path@),
            decreases sites.len() - k,
        {
            let ghost before = raw@;
            match definition_containing_line(defs, f.path.as_str(), sites[k]) {
                Some(m) => {
                    proof {
                        lemma_containing_bounds(dv, f.path@, sites@[k as int]);
                    }
                    raw.push(copy_def(&defs[m]));
                    assert(def_views(raw@) =~= def_views(before).push(dv[m as int]));
                },
                None => {},
            }
            assert(sites@.take(k + 1).drop_last() =~= sites@.take(k as int));
            assert(def_views(raw@) =~= start + lines_callers(sites@.take(k + 1), dv, f.path@));
            k = k + 1;
        }
        assert(sites@.take(sites.len() as int) =~= sites@);
        assert(files@.take(i + 1).drop_last() =~= files@.take(i as int));
        i = i + 1;
    }
    assert(files@.take(files.len() as int) =~= files@);
    sort_callers_exec(raw)
}

/// A file with this path.
pub open spec fn file_named(path: Seq<char>) -> spec_fn(ParsedFile) -> bool {
    |f: ParsedFile| f.path@ == path
}

/// The index of the first file with this path.
pub fn file_index(files: &Vec<ParsedFile>, path: &str) -> (r: Option<usize>)
    ensures
        match r {
            Some(k) => first_where(files@, file_named(path@)) == Some(k as int),
            None => first_where(files@, file_named(path@)) is None,
        },
{
    let ghost fs = files@;
    let mut i: usize = 0;
    while i < files.len()
        invariant
            i <= files.len(),
            fs == files@,
            forall|j: int| 0 <= j < i ==> !file_named(path@)(#[trigger] fs[j]),
        decreases files.len() - i,
    {
        if str_eq(files[i].path.as_str(), path) {
            proof {
                let p = file_named(path@);
                lemma_first_where(fs, p);
                assert(p(fs[i as int]));
                match first_where(fs, p) {
                    Some(m) => {
                        if m < i {
                            assert(!p(fs[m]));
                        } else if m > i {
                            assert(!p(fs[i as int]));
                        }
                    },
                    None => {
                        assert(!p(fs[i as int]));
                    },
                }
            }
            return Some(i);
        }
        assert(!file_named(path@)(fs[i as int]));
        i = i + 1;
    }
    proof {
        lemma_first_where(fs, file_named(path@));
        if let Some(m) = first_where(fs, file_named(path@)) {
            assert(!file_named(path@)(fs[m]));
        }
    }
    None
}

/// Each called name resolved from `file`, those that resolve, in order.
pub open spec fn resolve_all(names: Seq<Seq<char>>, defs: Seq<DefView>, file: Seq<char>) -> Seq<
    DefView,
>
    decreases names.len(),
{
    if names.len() == 0 {
        seq![]
    } else {
        resolve_all(names.drop_last(), defs, file) + match resolved(defs, names.last(), file) {
            Some(c) => seq![c],
            None => seq![],
        }
    }
}

/// The names called within a definition, in the file it is in (none when
/// no file has its path).
pub open spec fn names_called_by(fs: Seq<ParsedFile>, d: DefView) -> Seq<Seq<char>> {
    match first_where(fs, file_named(d.1)) {
        Some(k) => called_names(fs[k].tree, fs[k].language, d.2, d.3),
        None => seq![],
    }
}

/// The definitions that the names called within `d` resolve to.
pub open spec fn callee_targets(fs: Seq<ParsedFile>, defs: Seq<DefView>, d: DefView) -> Seq<DefView> {
    resolve_all(names_called_by(fs, d), defs, d.1)
}

/// The names called within a definition, each once, in order of first call
/// (see `names_called_by`).
pub fn called_names_for_symbol(files: &Vec<ParsedFile>, symbol: &SymbolDef) -> (r: Vec<String>)
    requires
        files_wf(files@),
    ensures
        crate::text::views(r@) == names_called_by(files@, symbol@),
{
    match file_index(files, symbol.file.as_str()) {
        Some(k) => {
            proof {
                lemma_first_where(files@, file_named(symbol.file@));
                assert(files@[k as int].wf());
            }
            collect_called_names(&files[k].tree, files[k].language, symbol.line, symbol.end_line)
        },
        None => {
            let v: Vec<String> = Vec::new();
            assert(crate::text::views(v@) =~= seq![]);
            v
        },
    }
}

/// The definitions called within `symbol` (see `callee_targets`).
pub fn callees_for_symbol(files: &Vec<ParsedFile>, defs: &Vec<SymbolDef>, symbol: &SymbolDef) -> (r:
    Vec<SymbolDef>)
    requires
        files_wf(files@),
    ensures
        def_views(r@) == callee_targets(files@, def_views(defs@), symbol@),
{
    let names = called_names_for_symbol(files, symbol);
    let ghost nv = crate::text::views(names@);
    let mut out: Vec<SymbolDef> = Vec::new();
    let mut i: usize = 0;
    assert(def_views(out@) =~= resolve_all(nv.take(0), def_views(defs@), symbol.file@));
    while i < names.len()
        invariant
            i <= names.len(),
            nv == crate::text::views(names@),
            def_views(out@) == resolve_all(nv.take(i as int), def_views(defs@), symbol.file@),
        decreases names.len() - i,
    {
        let ghost before = out@;
        match resolve_definition(defs, names[i].as_str(), symbol.file.as_str()) {
            Some(c) => {
                out.push(c);
                assert(def_views(out@) =~= def_views(before).push(c@));
            },
            None => {},
        }
        assert(nv.take(i + 1).drop_last() =~= nv.take(i as int));
        assert(nv.take(i + 1).last() == names@[i as int]@);
        i = i + 1;
    }
    assert(nv.take(names.len() as int) =~= nv);
    out
}

// ---------------------------------------------------------------------------
// Walking the graph level by level
// ---------------------------------------------------------------------------

/// Whether an edge leads to a callee or from a caller.
#[derive(Debug, Clone, Copy, PartialEq, Eq, Structural)]
pub enum EdgeDirection {
    Callee,
    Caller,
}

/// The name of a direction in a row.
pub open spec fn dir_text(d: EdgeDirection) -> Seq<char> {
    match d {
        EdgeDirection::Callee => "callee"@,
        EdgeDirection::Caller => "caller"@,
    }
}

impl EdgeDirection {
    /// `callee` or `caller`.
    pub fn as_str(&self) -> (r: &'static str)
        ensures
            r@ == dir_text(*self),
    {
        match self {
            EdgeDirection::Callee => "callee",
            EdgeDirection::Caller => "caller",
        }
    }
}

/// One edge of the graph: a callee or caller definition met at some depth.
#[derive(Debug)]
pub struct Edge {
    pub direction: EdgeDirection,
    pub symbol: String,
    pub file: String,
    pub line: usize,
    pub scope: String,
    pub depth: usize,
}

/// An edge as plain values: direction, symbol, file, line, scope, depth.
pub type EdgeView = (EdgeDirection, Seq<char>, Seq<char>, usize, Seq<char>, usize);

impl View for Edge {
    type V = EdgeView;

    open spec fn view(&self) -> EdgeView {
        (self.direction, self.symbol@, self.file@, self.line, self.scope@, self.depth)
    }
}

pub open spec fn edge_views(v: Seq<Edge>) -> Seq<EdgeView> {
    v.map_values(|e: Edge| e@)
}

/// The edge to definition `d` at `depth`.
pub open spec fn edge_of(dir: EdgeDirection, d: DefView, depth: usize) -> EdgeView {
    (dir, d.0, d.1, d.2, d.4, depth)
}

/// The edge to a definition at a depth.
pub fn edge(direction: EdgeDirection, definition: &SymbolDef, depth: usize) -> (r: Edge)
    ensures
        r@ == edge_of(direction, definition@, depth),
{
    Edge {
        direction,
        symbol: definition.name.clone(),
        file: definition.file.clone(),
        line: definition.line,
        scope: definition.scope.clone(),
        depth,
    }
}

/// A copy of an edge.
pub fn copy_edge(e: &Edge) -> (r: Edge)
    ensures
        r@ == e@,
{
    Edge {
        direction: e.direction,
        symbol: e.symbol.clone(),
        file: e.file.clone(),
        line: e.line,
        scope: e.scope.clone(),
        depth: e.depth,
    }
}

/// The definitions one step away from `d`: what it calls, or what calls it.
pub open spec fn successors(
    fs: Seq<ParsedFile>,
    defs: Seq<DefView>,
    dir: EdgeDirection,
    d: DefView,
) -> Seq<DefView> {
    match dir {
        EdgeDirection::Callee => callee_targets(fs, defs, d),
        EdgeDirection::Caller => callers_of(fs, defs, d.0),
    }
}

/// A definition is visited once, by its file and line.
pub type DefKey = (Seq<char>, usize);

pub open spec fn def_key(d: DefView) -> DefKey {
    (d.1, d.2)
}

/// One level of the walk: each definition of the frontier not visited yet
/// is marked visited and gives an edge to each of its successors; those are
/// the next frontier while `depth < max`. Gives the visited set, the edges
/// and the next frontier.
pub open spec fn sweep(
    frontier: Seq<DefView>,
    visited: Set<DefKey>,
    depth: usize,
    max: usize,
    fs: Seq<ParsedFile>,
    defs: Seq<DefView>,
    dir: EdgeDirection,
) -> (Set<DefKey>, Seq<EdgeView>, Seq<DefView>)
    decreases frontier.len(),
{
    if frontier.len() == 0 {
        (visited, seq![], seq![])
    } else {
        let prev = sweep(frontier.drop_last(), visited, depth, max, fs, defs, dir);
        let cur = frontier.last();
        if prev.0.contains(def_key(cur)) {
            prev
        } else {
            let ss = successors(fs, defs, dir, cur);
            (
                prev.0.insert(def_key(cur)),
                prev.1 + ss.map_values(|c: DefView| edge_of(dir, c, depth)),
                if depth < max {
                    prev.2 + ss
                } else {
                    prev.2
                },
            )
        }
    }
}

/// The edges of the walk from `frontier` at `depth` down to `max` (first in
/// first out, as a queue would give them; nothing is queued past `max`).
pub open spec fn levels(
    frontier: Seq<DefView>,
    visited: Set<DefKey>,
    depth: usize,
    max: usize,
    fs: Seq<ParsedFile>,
    defs: Seq<DefView>,
    dir: EdgeDirection,
) -> Seq<EdgeView>
    decreases max - depth,
{
    if frontier.len() == 0 || depth > max {
        seq![]
    } else {
        let s = sweep(frontier, visited, depth, max, fs, defs, dir);
        if depth == max {
            s.1
        } else {
            s.1 + levels(s.2, s.0, (depth + 1) as usize, max, fs, defs, dir)
        }
    }
}

/// The keys of the visited definitions.
pub open spec fn visited_keys(v: Seq<SymbolDef>) -> Set<DefKey> {
    Set::new(|k: DefKey| exists|j: int| 0 <= j < v.len() && def_key(v[j]@) == k)
}

fn is_visited(visited: &Vec<SymbolDef>, d: &SymbolDef) -> (r: bool)
    ensures
        r == visited_keys(visited@).contains(def_key(d@)),
{
    let mut i: usize = 0;
    while i < visited.len()
        invariant
            i <= visited.len(),
            forall|j: int| 0 <= j < i ==> def_key(#[trigger] visited@[j]@) != def_key(d@),
        decreases visited.len() - i,
    {
        if visited[i].line == d.line && str_eq(visited[i].file.as_str(), d.file.as_str()) {
            assert(def_key(visited@[i as int]@) == def_key(d@));
            return true;
        }
        i = i + 1;
    }
    false
}

/// What one step of the walk gives from `symbol`: its callees, or its
/// callers (see `successors`).
pub fn successors_of(
    files: &Vec<ParsedFile>,
    defs: &Vec<SymbolDef>,
    dir: EdgeDirection,
    symbol: &SymbolDef,
) -> (r: Vec<SymbolDef>)
    requires
        files_wf(files@),
    ensures
        def_views(r@) == successors(files@, def_views(defs@), dir, symbol@),
{
    match dir {
        EdgeDirection::Callee => callees_for_symbol(files, defs, symbol),
        EdgeDirection::Caller => callers_for_symbol(symbol.name.as_str(), files, defs),
    }
}

/// Walks one direction of the graph from `target`, level by level, down to
/// `max_depth`, and appends its edges (see `levels`).
pub fn collect_edges(
    files: &Vec<ParsedFile>,
    defs: &Vec<SymbolDef>,
    target: &SymbolDef,
    dir: EdgeDirection,
    max_depth: usize,
    edges: &mut Vec<Edge>,
)
    requires
        files_wf(files@),
    ensures
        edge_views(final(edges)@) == edge_views(old(edges)@) + levels(
            seq![target@],
            Set::empty(),
            1,
            max_depth,
            files@,
            def_views(defs@),
            dir,
        ),
{
    let ghost dv = def_views(defs@);
    let ghost goal = edge_views(edges@) + levels(
        seq![target@],
        Set::empty(),
        1,
        max_depth,
        files@,
        dv,
        dir,
    );
    let mut frontier: Vec<SymbolDef> = Vec::new();
    frontier.push(copy_def(target));
    let mut visited: Vec<SymbolDef> = Vec::new();
    if max_depth == 0 {
        return;
    }
    let mut depth: usize = 1;
    proof {
        assert(def_views(frontier@) =~= seq![target@]);
        assert(visited_keys(visited@) =~= Set::empty());
    }
    while depth <= max_depth && frontier.len() > 0
        invariant
            files_wf(files@),
            dv == def_views(defs@),
            1 <= depth <= max_depth,
            goal == edge_views(edges@) + levels(
                def_views(frontier@),
                visited_keys(visited@),
                depth,
                max_depth,
                files@,
                dv,
                dir,
            ),
        decreases max_depth - depth, frontier.len(),
    {
        let ghost fv = def_views(frontier@);
        let ghost v0 = visited_keys(visited@);
        let ghost e0 = edge_views(edges@);
        let mut next: Vec<SymbolDef> = Vec::new();
        let mut i: usize = 0;
        proof {
            assert(fv.take(0) =~= seq![]);
            assert(edge_views(edges@) =~= e0 + seq![]);
            assert(def_views(next@) =~= seq![]);
        }
        while i < frontier.len()
            invariant
                files_wf(files@),
                dv == def_views(defs@),
                fv == def_views(frontier@),
                i <= frontier.len(),
                sweep(fv.take(i as int), v0, depth, max_depth, files@, dv, dir) == (
                    visited_keys(visited@),
                    edge_views(edges@).skip(e0.len() as int),
                    def_views(next@),
                ),
                edge_views(edges@).len() >= e0.len(),
                edge_views(edges@).take(e0.len() as int) == e0,
            decreases frontier.len() - i,
        {
            let ghost prev_edges = edge_views(edges@);
            assert(fv.take(i + 1).drop_last() =~= fv.take(i as int));
            assert(fv.take(i + 1).last() == frontier@[i as int]@);
            if !is_visited(&visited, &frontier[i]) {
                let cur = copy_def(&frontier[i]);
                let ghost vb = visited@;
                visited.push(copy_def(&cur));
                assert(visited_keys(visited@) =~= visited_keys(vb).insert(def_key(cur@))) by {
                    assert(def_key(visited@[vb.len() as int]@) == def_key(cur@));
                    assert forall|k: DefKey| visited_keys(visited@).contains(k) implies visited_keys(
                        vb,
                    ).insert(def_key(cur@)).contains(k) by {
                        let j = choose|j: int| 0 <= j < visited@.len() && def_key(visited@[j]@) == k;
                        if j < vb.len() {
                            assert(visited@[j] == vb[j]);
                        }
                    }
                    assert forall|k: DefKey| visited_keys(vb).insert(def_key(cur@)).contains(
                        k,
                    ) implies visited_keys(visited@).contains(k) by {
                        if k != def_key(cur@) {
                            let j = choose|j: int| 0 <= j < vb.len() && def_key(vb[j]@) == k;
                            assert(visited@[j] == vb[j]);
                        }
                    }
                }
                let ss = successors_of(files, defs, dir, &cur);
                let ghost sv = def_views(ss@);
                let ghost eb = edge_views(edges@);
                let ghost nb = def_views(next@);
                let mut k: usize = 0;
                proof {
                    assert(sv.take(0) =~= seq![]);
                    assert(sv.take(0).map_values(|c: DefView| edge_of(dir, c, depth)) =~= seq![]);
                }
                while k < ss.len()
                    invariant
                        k <= ss.len(),
                        sv == def_views(ss@),
                        edge_views(edges@) == eb + sv.take(k as int).map_values(
                            |c: DefView| edge_of(dir, c, depth),
                        ),
                        def_views(next@) == nb + if depth < max_depth {
                            sv.take(k as int)
                        } else {
                            seq![]
                        },
                    decreases ss.len() - k,
                {
                    let ghost be = edge_views(edges@);
                    let ghost bn = def_views(next@);
                    edges.push(edge(dir, &ss[k], depth));
                    assert(edge_views(edges@) =~= be.push(edge_of(dir, sv[k as int], depth)));
                    assert(sv.take(k + 1).map_values(|c: DefView| edge_of(dir, c, depth))
                        =~= sv.take(k as int).map_values(|c: DefView| edge_of(dir, c, depth)).push(
                        edge_of(dir, sv[k as int], depth),
                    ));
                    if depth < max_depth {
                        next.push(copy_def(&ss[k]));
                        assert(def_views(next@) =~= bn.push(sv[k as int]));
                        assert(sv.take(k + 1) =~= sv.take(k as int).push(sv[k as int]));
                    }
                    k = k + 1;
                }
                assert(sv.take(ss.len() as int) =~= sv);
                assert(edge_views(edges@).skip(e0.len() as int) =~= prev_edges.skip(e0.len() as int)
                    + sv.map_values(|c: DefView| edge_of(dir, c, depth)));
                assert(edge_views(edges@).take(e0.len() as int) =~= e0);
                if depth < max_depth {
                    assert(def_views(next@) =~= nb + sv);
                } else {
                    assert(def_views(next@) =~= nb);
                }
            }
            i = i + 1;
        }
        assert(fv.take(frontier.len() as int) =~= fv);
        assert(edge_views(edges@) =~= e0 + edge_views(edges@).skip(e0.len() as int));
        proof {
            if depth == max_depth {
                assert(def_views(next@).len() == 0) by {
                    lemma_sweep_last(fv, v0, depth, max_depth, files@, dv, dir);
                }
            }
        }
        frontier = next;
        if depth < max_depth {
            depth = depth + 1;
        }
    }
}

/// At the last level nothing is queued.
pub proof fn lemma_sweep_last(
    frontier: Seq<DefView>,
    visited: Set<DefKey>,
    depth: usize,
    max: usize,
    fs: Seq<ParsedFile>,
    defs: Seq<DefView>,
    dir: EdgeDirection,
)
    requires
        depth >= max,
    ensures
        sweep(frontier, visited, depth, max, fs, defs, dir).2.len() == 0,
    decreases frontier.len(),
{
    if frontier.len() > 0 {
        lemma_sweep_last(frontier.drop_last(), visited, depth, max, fs, defs, dir);
    }
}

// ---------------------------------------------------------------------------
// Sorting the edges
// ---------------------------------------------------------------------------

/// `callee` comes before `caller`.
pub open spec fn dir_rank(d: EdgeDirection) -> int {
    match d {
        EdgeDirection::Callee => 0,
        EdgeDirection::Caller => 1,
    }
}

/// Edges are ordered by depth, direction, file, line, symbol and scope.
pub open spec fn edge_before(a: EdgeView, b: EdgeView) -> bool {
    ||| a.5 < b.5
    ||| a.5 == b.5 && dir_rank(a.0) < dir_rank(b.0)
    ||| a.5 == b.5 && a.0 == b.0 && text_order(a.2, b.2) < 0
    ||| a.5 == b.5 && a.0 == b.0 && a.2 == b.2 && a.3 < b.3
    ||| a.5 == b.5 && a.0 == b.0 && a.2 == b.2 && a.3 == b.3 && text_order(a.1, b.1) < 0
    ||| a.5 == b.5 && a.0 == b.0 && a.2 == b.2 && a.3 == b.3 && a.1 == b.1 && text_order(
        a.4,
        b.4,
    ) < 0
}

pub open spec fn not_edge_before(e: EdgeView) -> spec_fn(EdgeView) -> bool {
    |x: EdgeView| !edge_before(x, e)
}

/// `e` put into `s` before the first edge that does not come before it,
/// unless that edge equals it.
pub open spec fn insert_edge(s: Seq<EdgeView>, e: EdgeView) -> Seq<EdgeView> {
    match first_where(s, not_edge_before(e)) {
        None => s.push(e),
        Some(i) => if s[i] == e {
            s
        } else {
            s.insert(i, e)
        },
    }
}

/// The edges sorted, each once.
pub open spec fn sort_edges(raw: Seq<EdgeView>) -> Seq<EdgeView>
    decreases raw.len(),
{
    if raw.len() == 0 {
        seq![]
    } else {
        insert_edge(sort_edges(raw.drop_last()), raw.last())
    }
}

fn edge_before_exec(a: &Edge, b: &Edge) -> (r: bool)
    ensures
        r == edge_before(a@, b@),
{
    if a.depth != b.depth {
        return a.depth < b.depth;
    }
    if a.direction != b.direction {
        return a.direction == EdgeDirection::Callee;
    }
    let f = compare_strs(a.file.as_str(), b.file.as_str());
    proof {
        lemma_text_order_zero(a.file@, b.file@);
    }
    if f != 0 {
        return f < 0;
    }
    if a.line != b.line {
        return a.line < b.line;
    }
    let s = compare_strs(a.symbol.as_str(), b.symbol.as_str());
    proof {
        lemma_text_order_zero(a.symbol@, b.symbol@);
    }
    if s != 0 {
        return s < 0;
    }
    compare_strs(a.scope.as_str(), b.scope.as_str()) < 0
}

fn same_edge(a: &Edge, b: &Edge) -> (r: bool)
    ensures
        r == (a@ == b@),
{
    a.direction == b.direction && str_eq(a.symbol.as_str(), b.symbol.as_str()) && str_eq(
        a.file.as_str(),
        b.file.as_str(),
    ) && a.line == b.line && str_eq(a.scope.as_str(), b.scope.as_str()) && a.depth == b.depth
}

fn insert_edge_exec(out: &mut Vec<Edge>, e: Edge)
    ensures
        edge_views(final(out)@) == insert_edge(edge_views(old(out)@), e@),
{
    let ghost s = edge_views(out@);
    let mut i: usize = 0;
    while i < out.len() && edge_before_exec(&out[i], &e)
        invariant
            i <= out.len(),
            s == edge_views(out@),
            forall|j: int| 0 <= j < i ==> !not_edge_before(e@)(#[trigger] s[j]),
        decreases out.len() - i,
    {
        assert(!not_edge_before(e@)(s[i as int]));
        i = i + 1;
    }
    proof {
        let p = not_edge_before(e@);
        lemma_first_where(s, p);
        if i < out.len() {
            assert(p(s[i as int]));
            match first_where(s, p) {
                Some(m) => {
                    if m < i {
                        assert(!p(s[m]));
                    } else if m > i {
                        assert(!p(s[i as int]));
                    }
                },
                None => {
                    assert(!p(s[i as int]));
                },
            }
        } else {
            if let Some(m) = first_where(s, p) {
                assert(!p(s[m]));
            }
        }
    }
    if i == out.len() {
        out.push(e);
        assert(edge_views(out@) =~= s.push(e@));
    } else if same_edge(&out[i], &e) {
    } else {
        let ghost ev = e@;
        out.insert(i, e);
        assert(edge_views(out@) =~= s.insert(i as int, ev));
    }
}

/// The edges sorted by depth, direction, file, line, symbol and scope, each
/// once (see `sort_edges`).
pub fn sort_edges_exec(raw: &Vec<Edge>) -> (r: Vec<Edge>)
    ensures
        edge_views(r@) == sort_edges(edge_views(raw@)),
{
    let ghost rv = edge_views(raw@);
    let mut out: Vec<Edge> = Vec::new();
    assert(edge_views(out@) =~= sort_edges(rv.take(0)));
    let mut i: usize = 0;
    while i < raw.len()
        invariant
            i <= raw.len(),
            rv == edge_views(raw@),
            edge_views(out@) == sort_edges(rv.take(i as int)),
        decreases raw.len() - i,
    {
        let e = copy_edge(&raw[i]);
        insert_edge_exec(&mut out, e);
        assert(rv.take(i + 1).drop_last() =~= rv.take(i as int));
        i = i + 1;
    }
    assert(rv.take(raw.len() as int) =~= rv);
    out
}

// ---------------------------------------------------------------------------
// Rows, JSON and the token budget
// ---------------------------------------------------------------------------

/// The row of an edge: `direction|symbol|file|line|scope|depth`.
pub open spec fn edge_row(e: EdgeView) -> Seq<char> {
    row_text(seq![dir_text(e.0), e.1, e.2, decimal(e.3 as nat), e.4, decimal(e.5 as nat)])
}

/// The rows of the edges, joined with newlines.
pub open spec fn edge_rows_text(es: Seq<EdgeView>) -> Seq<char> {
    join(es.map_values(|e: EdgeView| edge_row(e)), seq!['\n'])
}

/// The header of the rows.
pub open spec fn edge_header() -> Seq<char> {
    "direction|symbol|file|line|scope|depth"@
}

fn string_from(s: &str) -> (r: String)
    ensures
        r@ == s@,
{
    let mut r = String::new();
    push_str(&mut r, s);
    r
}

/// The rows of the first `n` edges (see `edge_rows_text`).
pub fn edge_rows(edges: &Vec<Edge>, n: usize) -> (r: String)
    requires
        n <= edges.len(),
    ensures
        r@ == edge_rows_text(edge_views(edges@).take(n as int)),
{
    let ghost ev = edge_views(edges@).take(n as int);
    let mut rows: Vec<String> = Vec::new();
    let mut i: usize = 0;
    while i < n
        invariant
            n <= edges.len(),
            ev == edge_views(edges@).take(n as int),
            i <= n,
            views(rows@) == ev.take(i as int).map_values(|e: EdgeView| edge_row(e)),
        decreases n - i,
    {
        let e = &edges[i];
        let mut fields: Vec<String> = Vec::new();
        fields.push(string_from(e.direction.as_str()));
        fields.push(e.symbol.clone());
        fields.push(e.file.clone());
        fields.push(decimal_string(e.line));
        fields.push(e.scope.clone());
        fields.push(decimal_string(e.depth));
        let row = format_row(&fields);
        let ghost before = rows@;
        rows.push(row);
        proof {
            assert(ev[i as int] == e@);
            assert(views(fields@) =~= seq![
                dir_text(e.direction),
                e.symbol@,
                e.file@,
                decimal(e.line as nat),
                e.scope@,
                decimal(e.depth as nat),
            ]);
            assert(views(rows@) =~= views(before).push(edge_row(ev[i as int])));
            assert(ev.take(i + 1).map_values(|e: EdgeView| edge_row(e)) =~= ev.take(i as int).map_values(
                |e: EdgeView| edge_row(e),
            ).push(edge_row(ev[i as int])));
        }
        i = i + 1;
    }
    assert(ev.take(n as int) =~= ev);
    join_rows(&rows)
}

/// The lower-case hexadecimal digit of `d` (below 16).
pub open spec fn hex_digit(d: int) -> char {
    "0123456789abcdef"@[d]
}

/// How a character stands inside a JSON string: `"` and `\` behind a
/// backslash; backspace, form feed, line feed, carriage return and tab as
/// `\b`, `\f`, `\n`, `\r`, `\t`; the other characters below U+0020 as
/// `\u00` and two lower-case hexadecimal digits; every other character as
/// it is.
pub open spec fn json_escape(c: char) -> Seq<char> {
    if c == '"' {
        seq!['\\', '"']
    } else if c == '\\' {
        seq!['\\', '\\']
    } else if c == '\u{8}' {
        seq!['\\', 'b']
    } else if c == '\u{c}' {
        seq!['\\', 'f']
    } else if c == '\n' {
        seq!['\\', 'n']
    } else if c == '\r' {
        seq!['\\', 'r']
    } else if c == '\t' {
        seq!['\\', 't']
    } else if (c as u32) < 0x20 {
        seq!['\\', 'u', '0', '0', hex_digit((c as u32) as int / 16), hex_digit((c as u32) as int % 16)]
    } else {
        seq![c]
    }
}

/// The characters of `s`, each as it stands inside a JSON string.
#[verifier::opaque]
pub open spec fn json_escaped(s: Seq<char>) -> Seq<char>
    decreases s.len(),
{
    if s.len() == 0 {
        seq![]
    } else {
        json_escaped(s.drop_last()) + json_escape(s.last())
    }
}

/// The JSON string literal of `s`: `s` escaped, between double quotes.
/// Writing it never fails, so it is always there.
pub open spec fn json_literal(s: Seq<char>) -> Option<Seq<char>> {
    Some(seq!['"'] + json_escaped(s) + seq!['"'])
}

/// `serde_json::to_string` on a string slice: the string between double
/// quotes, with the escapes of serde_json's table (see `json_escape`). It
/// writes into a `Vec<u8>`, which never fails, so it always gives the
/// literal.
#[verifier::external_body]
pub(crate) fn quote_json(s: &str) -> (r: Option<String>)
    ensures
        match r {
            Some(q) => json_literal(s@) == Some(q@),
            None => false,
        },
{
    serde_json::to_string(s).ok()
}

/// The number of `cl100k_base` tokens of `text`, special tokens allowed;
/// none when the tokenizer fails on it.
pub uninterp spec fn cl100k_tokens(text: Seq<char>) -> Option<usize>;

/// `CoreBPE::encode` of the `cl100k_base` tokenizer, with all its special
/// tokens allowed, counted (see `cl100k_tokens`). The tokenizer is loaded
/// once, from the vocabulary that the crate embeds; that loading is not
/// expected to fail and is not covered by this contract.
#[verifier::external_body]
pub(crate) fn count_cl100k_tokens(text: &str) -> (r: Option<usize>)
    ensures
        r == cl100k_tokens(text@),
{
    let bpe = tiktoken_rs::cl100k_base_singleton();
    match bpe.encode(text, &bpe.special_tokens()) {
        Ok((tokens, _)) => Some(tokens.len()),
        Err(_) => None,
    }
}

/// The compact JSON object of a call graph, keys in order: `@` (only when
/// truncated, `{"t":true}`), `edges`, `h`, `sym`.
pub open spec fn result_json(symbol: Seq<char>, rows: Seq<char>, truncated: bool) -> Option<
    Seq<char>,
> {
    match (json_literal(rows), json_literal(edge_header()), json_literal(symbol)) {
        (Some(r), Some(h), Some(s)) => Some(
            (if truncated {
                "{\"@\":{\"t\":true},"@
            } else {
                "{"@
            }) + "\"edges\":"@ + r + ",\"h\":"@ + h + ",\"sym\":"@ + s + "}"@,
        ),
        _ => None,
    }
}

/// The JSON text of a call graph (see `result_json`).
pub fn graph_json(symbol: &str, rows: &str, truncated: bool) -> (r: Result<String, CallGraphError>)
    ensures
        match result_json(symbol@, rows@, truncated) {
            Some(t) => r matches Ok(s) && s@ == t,
            None => r matches Err(CallGraphError::Serialization),
        },
{
    let r = match quote_json(rows) {
        Some(q) => q,
        None => return Err(CallGraphError::Serialization),
    };
    let h = match quote_json("direction|symbol|file|line|scope|depth") {
        Some(q) => q,
        None => return Err(CallGraphError::Serialization),
    };
    let s = match quote_json(symbol) {
        Some(q) => q,
        None => return Err(CallGraphError::Serialization),
    };
    let mut out = String::new();
    if truncated {
        push_str(&mut out, "{\"@\":{\"t\":true},");
    } else {
        push_str(&mut out, "{");
    }
    push_str(&mut out, "\"edges\":");
    push_str(&mut out, r.as_str());
    push_str(&mut out, ",\"h\":");
    push_str(&mut out, h.as_str());
    push_str(&mut out, ",\"sym\":");
    push_str(&mut out, s.as_str());
    push_str(&mut out, "}");
    Ok(out)
}

/// The rows kept under the budget: all edges when their JSON fits in
/// `max_tokens`, else edges dropped from the end one by one (and the result
/// marked truncated) until it fits; no rows at all when even none do not
/// fit. Errors when a text cannot be written as JSON or tokenized.
pub open spec fn fit_rows(es: Seq<EdgeView>, symbol: Seq<char>, max_tokens: usize, truncated: bool) -> Result<
    (Seq<char>, bool),
    CallGraphError,
>
    decreases es.len(),
{
    let rows = edge_rows_text(es);
    match result_json(symbol, rows, truncated) {
        None => Err(CallGraphError::Serialization),
        Some(text) => match cl100k_tokens(text) {
            None => Err(CallGraphError::Tokenizer),
            Some(n) => if n <= max_tokens {
                Ok((rows, truncated))
            } else if es.len() == 0 {
                Ok((seq![], true))
            } else {
                fit_rows(es.drop_last(), symbol, max_tokens, true)
            },
        },
    }
}

/// The rows of the edges within the token budget, and whether some were
/// dropped (see `fit_rows`).
pub fn edge_rows_with_budget(edges: &Vec<Edge>, symbol: &str, max_tokens: usize) -> (r: Result<
    (String, bool),
    CallGraphError,
>)
    ensures
        match fit_rows(edge_views(edges@), symbol@, max_tokens, false) {
            Ok((rows, t)) => r matches Ok((s, u)) && s@ == rows && u == t,
            Err(CallGraphError::Serialization) => r matches Err(CallGraphError::Serialization),
            Err(CallGraphError::Tokenizer) => r matches Err(CallGraphError::Tokenizer),
            Err(_) => false,
        },
{
    let ghost ev = edge_views(edges@);
    let mut kept: usize = edges.len();
    let mut truncated = false;
    assert(ev.take(kept as int) =~= ev);
    loop
        invariant
            ev == edge_views(edges@),
            kept <= edges.len(),
            fit_rows(ev, symbol@, max_tokens, false) == fit_rows(
                ev.take(kept as int),
                symbol@,
                max_tokens,
                truncated,
            ),
            !truncated ==> kept == edges.len(),
        decreases kept,
    {
        let rows = edge_rows(edges, kept);
        let text = match graph_json(symbol, rows.as_str(), truncated) {
            Ok(t) => t,
            Err(e) => return Err(e),
        };
        let n = match count_cl100k_tokens(text.as_str()) {
            Some(n) => n,
            None => return Err(CallGraphError::Tokenizer),
        };
        if n <= max_tokens {
            return Ok((rows, truncated));
        }
        if kept == 0 {
            return Ok((String::new(), true));
        }
        assert(ev.take(kept as int).drop_last() =~= ev.take(kept - 1));
        kept = kept - 1;
        truncated = true;
    }
}

// ---------------------------------------------------------------------------
// The call graph of a symbol
// ---------------------------------------------------------------------------

/// The depth asked for, brought into 1..=3.
pub open spec fn clamp_depth(d: usize) -> usize {
    if d < 1 {
        1
    } else if d > 3 {
        3
    } else {
        d
    }
}

/// The edges of the walks asked for from `t`: callees first, then callers,
/// each walk with its own visited set.
pub open spec fn graph_edges(
    fs: Seq<ParsedFile>,
    defs: Seq<DefView>,
    t: DefView,
    direction: Direction,
    max: usize,
) -> Seq<EdgeView> {
    (if direction != Direction::Callers {
        levels(seq![t], Set::empty(), 1, max, fs, defs, EdgeDirection::Callee)
    } else {
        seq![]
    }) + (if direction != Direction::Callees {
        levels(seq![t], Set::empty(), 1, max, fs, defs, EdgeDirection::Caller)
    } else {
        seq![]
    })
}

/// The JSON text of the call graph from the definition `t`: its edges
/// sorted and each once, cut to the token budget.
pub open spec fn graph_result(
    fs: Seq<ParsedFile>,
    t: DefView,
    symbol: Seq<char>,
    direction: Direction,
    depth: usize,
    max_tokens: usize,
) -> Result<Seq<char>, CallGraphError> {
    let edges = sort_edges(graph_edges(fs, project_defs(fs), t, direction, clamp_depth(depth)));
    match fit_rows(edges, symbol, max_tokens, false) {
        Err(e) => Err(e),
        Ok((rows, truncated)) => match result_json(symbol, rows, truncated) {
            Some(text) => Ok(text),
            None => Err(CallGraphError::Serialization),
        },
    }
}

/// A result carries the text, or the error, of a spec result.
pub open spec fn same_outcome(r: Result<String, CallGraphError>, g: Result<Seq<char>, CallGraphError>) -> bool {
    match g {
        Ok(t) => r matches Ok(s) && s@ == t,
        Err(CallGraphError::Serialization) => r matches Err(CallGraphError::Serialization),
        Err(CallGraphError::Tokenizer) => r matches Err(CallGraphError::Tokenizer),
        Err(_) => false,
    }
}

/// The compact call graph of `symbol`, looked up in `file_path` first: its
/// callees and/or callers down to `depth` (brought into 1..=3), as JSON
/// within `max_tokens` (see `graph_result`); an error when no definition
/// of the symbol exists.
pub fn call_graph(
    files: &Vec<ParsedFile>,
    file_path: &str,
    symbol: &str,
    direction: Direction,
    depth: usize,
    max_tokens: usize,
) -> (r: Result<String, CallGraphError>)
    requires
        files_wf(files@),
    ensures
        resolved(project_defs(files@), symbol@, file_path@) is None ==> (r matches Err(
            CallGraphError::SymbolNotFound { symbol: s, file: f },
        ) && s@ == symbol@ && f@ == file_path@),
        resolved(project_defs(files@), symbol@, file_path@) matches Some(t) ==> same_outcome(
            r,
            graph_result(files@, t, symbol@, direction, depth, max_tokens),
        ),
{
    let definitions = collect_definitions(files);
    let target = match find_target_definition(&definitions, file_path, symbol) {
        Some(t) => t,
        None => {
            return Err(
                CallGraphError::SymbolNotFound {
                    symbol: string_from(symbol),
                    file: string_from(file_path),
                },
            );
        },
    };
    let max_depth: usize = if depth < 1 {
        1
    } else if depth > 3 {
        3
    } else {
        depth
    };
    let mut raw: Vec<Edge> = Vec::new();
    if direction != Direction::Callers {
        collect_edges(files, &definitions, &target, EdgeDirection::Callee, max_depth, &mut raw);
    }
    let ghost after_callees = edge_views(raw@);
    if direction != Direction::Callees {
        collect_edges(files, &definitions, &target, EdgeDirection::Caller, max_depth, &mut raw);
    }
    proof {
        let defs = project_defs(files@);
        let a = if direction != Direction::Callers {
            levels(seq![target@], Set::empty(), 1, max_depth, files@, defs, EdgeDirection::Callee)
        } else {
            seq![]
        };
        let b = if direction != Direction::Callees {
            levels(seq![target@], Set::empty(), 1, max_depth, files@, defs, EdgeDirection::Caller)
        } else {
            seq![]
        };
        assert(after_callees =~= seq![] + a);
        assert(edge_views(raw@) =~= a + b);
    }
    let edges = sort_edges_exec(&raw);
    let (rows, truncated) = match edge_rows_with_budget(&edges, symbol, max_tokens) {
        Ok(p) => p,
        Err(e) => return Err(e),
    };
    graph_json(symbol, rows.as_str(), truncated)
}

} // verus!
