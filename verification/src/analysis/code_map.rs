//! Code maps: for each file its functions, structs and classes as compact
//! rows at a chosen level of detail, files ordered by how many symbols they
//! hold, and type definitions as rows.
use vstd::prelude::*;
use crate::analysis::call_graph::{json_literal, quote_json};
use crate::analysis::edit_context::{cat, nothing, opt_text, seg};
use crate::analysis::shape::{EnhancedClassInfo, EnhancedFileShape, EnhancedFunctionInfo, EnhancedStructInfo, opt_view};
use crate::extraction::collect::{build_globset, glob_set_match, globset_accepts, globset_is_match};
use crate::extraction::types::{TypeDefinition, TypeKind};
use crate::paths::file_name;
use crate::rows::{decimal, decimal_string, format_row, join_rows, row_text};
use crate::text::{contains, contains_lit, has_char, has_char_exec, join, push_str, str_is, views};

verus! {

/// How much of each symbol a code map shows.
#[derive(Debug, Clone, Copy, PartialEq, Eq, Structural)]
pub enum DetailLevel {
    /// Name and line.
    Minimal,
    /// Name, line and signature.
    Signatures,
    /// Name, line, signature, doc comment and code.
    Full,
}

/// The level a text names: `minimal`, `signatures` or `full`; anything
/// else is `Signatures`.
pub open spec fn detail_of(s: Seq<char>) -> DetailLevel {
    if s == "minimal"@ {
        DetailLevel::Minimal
    } else if s == "full"@ {
        DetailLevel::Full
    } else {
        DetailLevel::Signatures
    }
}

/// The header of the rows of a level.
pub open spec fn detail_header(d: DetailLevel) -> Seq<char> {
    match d {
        DetailLevel::Minimal => "name|line"@,
        DetailLevel::Signatures => "name|line|sig"@,
        DetailLevel::Full => "name|line|sig|doc|code"@,
    }
}

impl DetailLevel {
    /// The level a text names (see `detail_of`).
    pub fn from_str(s: &str) -> (r: DetailLevel)
        ensures
            r == detail_of(s@),
    {
        if str_is(s, "minimal") {
            DetailLevel::Minimal
        } else if str_is(s, "full") {
            DetailLevel::Full
        } else {
            DetailLevel::Signatures
        }
    }

    /// The header of the rows (see `detail_header`).
    pub fn header(self) -> (r: &'static str)
        ensures
            r@ == detail_header(self),
    {
        match self {
            DetailLevel::Minimal => "name|line",
            DetailLevel::Signatures => "name|line|sig",
            DetailLevel::Full => "name|line|sig|doc|code",
        }
    }
}

/// The name of a type kind in a row.
pub open spec fn kind_name(k: TypeKind) -> Seq<char> {
    match k {
        TypeKind::Interface => "interface"@,
        TypeKind::Class => "class"@,
        TypeKind::Struct => "struct"@,
        TypeKind::Enum => "enum"@,
        TypeKind::Trait => "trait"@,
        TypeKind::Protocol => "protocol"@,
        TypeKind::TypeAlias => "type_alias"@,
        TypeKind::Record => "record"@,
        TypeKind::TypedDict => "typed_dict"@,
        TypeKind::NamedTuple => "named_tuple"@,
    }
}

/// The name of a type kind in a row (see `kind_name`).
pub fn type_kind_str(kind: TypeKind) -> (r: &'static str)
    ensures
        r@ == kind_name(kind),
{
    match kind {
        TypeKind::Interface => "interface",
        TypeKind::Class => "class",
        TypeKind::Struct => "struct",
        TypeKind::Enum => "enum",
        TypeKind::Trait => "trait",
        TypeKind::Protocol => "protocol",
        TypeKind::TypeAlias => "type_alias",
        TypeKind::Record => "record",
        TypeKind::TypedDict => "typed_dict",
        TypeKind::NamedTuple => "named_tuple",
    }
}

/// A text or nothing.
pub open spec fn or_empty(o: Option<Seq<char>>) -> Seq<char> {
    match o {
        Some(t) => t,
        None => seq![],
    }
}

/// The fields of a symbol row at a level: name and line, then the
/// signature, then the doc comment and code (empty when missing).
pub open spec fn symbol_fields(
    d: DetailLevel,
    name: Seq<char>,
    line: usize,
    sig: Seq<char>,
    doc: Option<Seq<char>>,
    code: Option<Seq<char>>,
) -> Seq<Seq<char>> {
    match d {
        DetailLevel::Minimal => seq![name, decimal(line as nat)],
        DetailLevel::Signatures => seq![name, decimal(line as nat), sig],
        DetailLevel::Full => seq![name, decimal(line as nat), sig, or_empty(doc), or_empty(code)],
    }
}

/// The row of a function.
pub open spec fn function_row(f: EnhancedFunctionInfo, d: DetailLevel) -> Seq<char> {
    row_text(symbol_fields(d, f.name@, f.line, f.signature@, opt_view(f.doc), opt_view(f.code)))
}

/// The row of a struct: no signature.
pub open spec fn struct_row(s: EnhancedStructInfo, d: DetailLevel) -> Seq<char> {
    row_text(symbol_fields(d, s.name@, s.line, seq![], opt_view(s.doc), opt_view(s.code)))
}

/// The row of a class: no signature.
pub open spec fn class_row(c: EnhancedClassInfo, d: DetailLevel) -> Seq<char> {
    row_text(symbol_fields(d, c.name@, c.line, seq![], opt_view(c.doc), opt_view(c.code)))
}

fn text_or_empty(o: &Option<String>) -> (r: String)
    ensures
        r@ == or_empty(opt_view(*o)),
{
    match o {
        Some(t) => t.clone(),
        None => String::new(),
    }
}

fn symbol_row(
    d: DetailLevel,
    name: &String,
    line: usize,
    sig: &str,
    doc: &Option<String>,
    code: &Option<String>,
) -> (r: String)
    ensures
        r@ == row_text(symbol_fields(d, name@, line, sig@, opt_view(*doc), opt_view(*code))),
{
    let mut fields: Vec<String> = Vec::new();
    fields.push(name.clone());
    fields.push(decimal_string(line));
    match d {
        DetailLevel::Minimal => {},
        DetailLevel::Signatures => {
            let mut s = String::new();
            push_str(&mut s, sig);
            fields.push(s);
        },
        DetailLevel::Full => {
            let mut s = String::new();
            push_str(&mut s, sig);
            fields.push(s);
            fields.push(text_or_empty(doc));
            fields.push(text_or_empty(code));
        },
    }
    assert(views(fields@) =~= symbol_fields(d, name@, line, sig@, opt_view(*doc), opt_view(*code)));
    format_row(&fields)
}

/// A file of a code map: its path and the rows of its functions, structs
/// and classes.
#[derive(Debug)]
pub struct FileSymbols {
    pub path: String,
    pub functions: Vec<String>,
    pub structs: Vec<String>,
    pub classes: Vec<String>,
}

/// The rows of a file's shape at a level.
pub fn file_symbols(path: &str, shape: &EnhancedFileShape, detail: DetailLevel) -> (r: FileSymbols)
    ensures
        r.path@ == path@,
        views(r.functions@) == shape.functions@.map_values(
            |f: EnhancedFunctionInfo| function_row(f, detail),
        ),
        views(r.structs@) == shape.structs@.map_values(|s: EnhancedStructInfo| struct_row(s, detail)),
        views(r.classes@) == shape.classes@.map_values(|c: EnhancedClassInfo| class_row(c, detail)),
{
    let mut functions: Vec<String> = Vec::new();
    let mut i: usize = 0;
    while i < shape.functions.len()
        invariant
            i <= shape.functions.len(),
            views(functions@) == shape.functions@.take(i as int).map_values(
                |f: EnhancedFunctionInfo| function_row(f, detail),
            ),
        decreases shape.functions.len() - i,
    {
        let f = &shape.functions[i];
        let row = symbol_row(detail, &f.name, f.line, f.signature.as_str(), &f.doc, &f.code);
        let ghost before = views(functions@);
        functions.push(row);
        assert(views(functions@) =~= before.push(function_row(*f, detail)));
        assert(shape.functions@.take(i + 1).map_values(|f: EnhancedFunctionInfo| function_row(f, detail))
            =~= shape.functions@.take(i as int).map_values(
            |f: EnhancedFunctionInfo| function_row(f, detail),
        ).push(function_row(*f, detail)));
        i = i + 1;
    }
    assert(shape.functions@.take(shape.functions.len() as int) =~= shape.functions@);
    let mut structs: Vec<String> = Vec::new();
    let mut j: usize = 0;
    while j < shape.structs.len()
        invariant
            j <= shape.structs.len(),
            views(structs@) == shape.structs@.take(j as int).map_values(
                |s: EnhancedStructInfo| struct_row(s, detail),
            ),
        decreases shape.structs.len() - j,
    {
        let s = &shape.structs[j];
        let row = symbol_row(detail, &s.name, s.line, "", &s.doc, &s.code);
        proof {
            reveal_strlit("");
            assert(""@ =~= Seq::<char>::empty());
        }
        let ghost before = views(structs@);
        structs.push(row);
        assert(views(structs@) =~= before.push(struct_row(*s, detail)));
        assert(shape.structs@.take(j + 1).map_values(|s: EnhancedStructInfo| struct_row(s, detail))
            =~= shape.structs@.take(j as int).map_values(
            |s: EnhancedStructInfo| struct_row(s, detail),
        ).push(struct_row(*s, detail)));
        j = j + 1;
    }
    assert(shape.structs@.take(shape.structs.len() as int) =~= shape.structs@);
    let mut classes: Vec<String> = Vec::new();
    let mut k: usize = 0;
    while k < shape.classes.len()
        invariant
            k <= shape.classes.len(),
            views(classes@) == shape.classes@.take(k as int).map_values(
                |c: EnhancedClassInfo| class_row(c, detail),
            ),
        decreases shape.classes.len() - k,
    {
        let c = &shape.classes[k];
        let row = symbol_row(detail, &c.name, c.line, "", &c.doc, &c.code);
        proof {
            reveal_strlit("");
            assert(""@ =~= Seq::<char>::empty());
        }
        let ghost before = views(classes@);
        classes.push(row);
        assert(views(classes@) =~= before.push(class_row(*c, detail)));
        assert(shape.classes@.take(k + 1).map_values(|c: EnhancedClassInfo| class_row(c, detail))
            =~= shape.classes@.take(k as int).map_values(
            |c: EnhancedClassInfo| class_row(c, detail),
        ).push(class_row(*c, detail)));
        k = k + 1;
    }
    assert(shape.classes@.take(shape.classes.len() as int) =~= shape.classes@);
    let mut p = String::new();
    push_str(&mut p, path);
    FileSymbols { path: p, functions, structs, classes }
}

/// How many symbols a file holds.
pub fn symbol_count(entry: &FileSymbols) -> (r: usize)
    requires
        entry.functions@.len() + entry.structs@.len() + entry.classes@.len() <= usize::MAX,
    ensures
        r == entry.functions@.len() + entry.structs@.len() + entry.classes@.len(),
{
    entry.functions.len() + entry.structs.len() + entry.classes.len()
}

/// The JSON object of one file, keys in order: `c` (classes, when there
/// are some), `f` (functions, when there are some), `h` (the header), `s`
/// (structs, when there are some); each list as rows joined with newlines.
pub open spec fn compact_file_json(
    functions: Seq<Seq<char>>,
    structs: Seq<Seq<char>>,
    classes: Seq<Seq<char>>,
    d: DetailLevel,
) -> Option<Seq<char>> {
    let c = if classes.len() > 0 {
        seg("\"c\":"@, join(classes, seq!['\n']))
    } else {
        nothing()
    };
    let f = if functions.len() > 0 {
        seg((if classes.len() > 0 {
            ","@
        } else {
            seq![]
        }) + "\"f\":"@, join(functions, seq!['\n']))
    } else {
        nothing()
    };
    let h = seg((if classes.len() > 0 || functions.len() > 0 {
        ","@
    } else {
        seq![]
    }) + "\"h\":"@, detail_header(d));
    let s = if structs.len() > 0 {
        seg(",\"s\":"@, join(structs, seq!['\n']))
    } else {
        nothing()
    };
    cat(cat(cat(Some("{"@), c), cat(f, h)), cat(s, Some("}"@)))
}

fn seg_exec(prefix: &str, value: &str) -> (r: Option<String>)
    ensures
        opt_text(r) == seg(prefix@, value@),
{
    match quote_json(value) {
        Some(q) => {
            let mut out = String::new();
            push_str(&mut out, prefix);
            push_str(&mut out, q.as_str());
            Some(out)
        },
        None => None,
    }
}

fn cat_exec(a: Option<String>, b: Option<String>) -> (r: Option<String>)
    ensures
        opt_text(r) == cat(opt_text(a), opt_text(b)),
{
    match (a, b) {
        (Some(x), Some(y)) => {
            let mut out = x;
            push_str(&mut out, y.as_str());
            Some(out)
        },
        _ => None,
    }
}

fn lit_string(s: &str) -> (r: String)
    ensures
        r@ == s@,
{
    let mut out = String::new();
    push_str(&mut out, s);
    out
}

/// The JSON text of one file of a code map (see `compact_file_json`).
pub fn build_compact_file(file: &FileSymbols, detail: DetailLevel) -> (r: Option<String>)
    ensures
        opt_text(r) == compact_file_json(
            views(file.functions@),
            views(file.structs@),
            views(file.classes@),
            detail,
        ),
{
    let c = if file.classes.len() > 0 {
        let rows = join_rows(&file.classes);
        seg_exec("\"c\":", rows.as_str())
    } else {
        Some(String::new())
    };
    let f = if file.functions.len() > 0 {
        let rows = join_rows(&file.functions);
        if file.classes.len() > 0 {
            let r = seg_exec(",\"f\":", rows.as_str());
            proof {
                reveal_strlit(",\"f\":");
                reveal_strlit(",");
                reveal_strlit("\"f\":");
                assert(","@ + "\"f\":"@ =~= ",\"f\":"@);
            }
            r
        } else {
            let r = seg_exec("\"f\":", rows.as_str());
            assert(seq![] + "\"f\":"@ =~= "\"f\":"@);
            r
        }
    } else {
        Some(String::new())
    };
    let h = if file.classes.len() > 0 || file.functions.len() > 0 {
        let r = seg_exec(",\"h\":", detail.header());
        proof {
            reveal_strlit(",\"h\":");
            reveal_strlit(",");
            reveal_strlit("\"h\":");
            assert(","@ + "\"h\":"@ =~= ",\"h\":"@);
        }
        r
    } else {
        let r = seg_exec("\"h\":", detail.header());
        assert(seq![] + "\"h\":"@ =~= "\"h\":"@);
        r
    };
    let s = if file.structs.len() > 0 {
        let rows = join_rows(&file.structs);
        seg_exec(",\"s\":", rows.as_str())
    } else {
        Some(String::new())
    };
    let a = cat_exec(Some(lit_string("{")), c);
    let b = cat_exec(f, h);
    let e = cat_exec(s, Some(lit_string("}")));
    cat_exec(cat_exec(a, b), e)
}

/// The row of a type definition: `name|kind|file|line|usage_count`.
pub open spec fn type_row(t: TypeDefinition) -> Seq<char> {
    row_text(
        seq![t.name@, kind_name(t.kind), t.file@, decimal(t.line as nat), decimal(t.usage_count as nat)],
    )
}

/// One row per type definition (see `type_row`).
pub fn type_rows(types: &Vec<TypeDefinition>) -> (r: Vec<String>)
    ensures
        views(r@) == types@.map_values(|t: TypeDefinition| type_row(t)),
{
    let mut out: Vec<String> = Vec::new();
    let mut i: usize = 0;
    while i < types.len()
        invariant
            i <= types.len(),
            views(out@) == types@.take(i as int).map_values(|t: TypeDefinition| type_row(t)),
        decreases types.len() - i,
    {
        let t = &types[i];
        let mut fields: Vec<String> = Vec::new();
        fields.push(t.name.clone());
        fields.push(lit_string(type_kind_str(t.kind)));
        fields.push(t.file.clone());
        fields.push(decimal_string(t.line));
        fields.push(decimal_string(t.usage_count));
        assert(views(fields@) =~= seq![
            t.name@,
            kind_name(t.kind),
            t.file@,
            decimal(t.line as nat),
            decimal(t.usage_count as nat),
        ]);
        let row = format_row(&fields);
        let ghost before = views(out@);
        out.push(row);
        assert(views(out@) =~= before.push(type_row(*t)));
        assert(types@.take(i + 1).map_values(|t: TypeDefinition| type_row(t)) =~= types@.take(
            i as int,
        ).map_values(|t: TypeDefinition| type_row(t)).push(type_row(*t)));
        i = i + 1;
    }
    assert(types@.take(types.len() as int) =~= types@);
    out
}

/// The JSON object of the types: the header `h` and, when any rows are
/// left, the `rows` joined with newlines.
pub open spec fn types_json(rows: Seq<Seq<char>>, keep_rows: bool) -> Option<Seq<char>> {
    cat(
        cat(Some("{"@), seg("\"h\":"@, "name|kind|file|line|usage_count"@)),
        cat(
            if keep_rows {
                seg(",\"rows\":"@, join(rows, seq!['\n']))
            } else {
                nothing()
            },
            Some("}"@),
        ),
    )
}

/// The JSON text of the types (see `types_json`): the rows are kept while
/// there is one, or when none were ever dropped.
pub fn build_types_output(rows: &Vec<String>, keep_rows: bool) -> (r: Option<String>)
    ensures
        opt_text(r) == types_json(views(rows@), keep_rows),
{
    let h = seg_exec("\"h\":", "name|kind|file|line|usage_count");
    let body = if keep_rows {
        let joined = join_rows(rows);
        seg_exec(",\"rows\":", joined.as_str())
    } else {
        Some(String::new())
    };
    cat_exec(
        cat_exec(Some(lit_string("{")), h),
        cat_exec(body, Some(lit_string("}"))),
    )
}

// ---------------------------------------------------------------------------
// Ordering files
// ---------------------------------------------------------------------------

/// A file of a code map as plain values: path and rows of functions,
/// structs and classes.
pub type FileView = (Seq<char>, Seq<Seq<char>>, Seq<Seq<char>>, Seq<Seq<char>>);

impl View for FileSymbols {
    type V = FileView;

    open spec fn view(&self) -> FileView {
        (self.path@, views(self.functions@), views(self.structs@), views(self.classes@))
    }
}

pub open spec fn file_views(v: Seq<FileSymbols>) -> Seq<FileView> {
    v.map_values(|f: FileSymbols| f@)
}

/// The estimated tokens of each file's JSON text (see `compact_file_json`);
/// a file without one counts as nothing.
pub open spec fn file_estimates(fv: Seq<FileView>, detail: DetailLevel) -> Seq<usize> {
    fv.map_values(
        |f: FileView|
            (match compact_file_json(f.1, f.2, f.3, detail) {
                Some(j) => crate::analysis::budget::estimate_of(
                    crate::analysis::budget::capped(crate::parser::utf8_len(j)),
                ),
                None => 0,
            }) as usize,
    )
}

/// The tokens the files share: a quarter of `max_tokens` is kept for the
/// types when they are shown.
pub open spec fn files_budget(max_tokens: usize, types_shown: bool) -> usize {
    if types_shown {
        (max_tokens - max_tokens / 4) as usize
    } else {
        max_tokens
    }
}

/// How many of the files, in order, the first estimate of their tokens
/// admits against nine tenths of their share of `max_tokens` (see
/// `file_estimates` and `files_budget`).
pub fn admitted_files(files: &Vec<FileSymbols>, detail: DetailLevel, max_tokens: usize, types_shown: bool) -> (r:
    usize)
    ensures
        r == crate::analysis::budget::admitted_from(
            file_estimates(file_views(files@), detail),
            0,
            crate::analysis::budget::estimate_limit_of(files_budget(max_tokens, types_shown)),
        ),
        r <= files@.len(),
{
    let ghost fe = file_estimates(file_views(files@), detail);
    let mut estimates: Vec<usize> = Vec::new();
    let mut i: usize = 0;
    while i < files.len()
        invariant
            i <= files@.len(),
            fe == file_estimates(file_views(files@), detail),
            estimates@ == fe.take(i as int),
        decreases files@.len() - i,
    {
        let chars = match build_compact_file(&files[i], detail) {
            Some(j) => crate::analysis::budget::utf8_byte_len(j.as_str()),
            None => 0,
        };
        proof {
            match compact_file_json(files@[i as int]@.1, files@[i as int]@.2, files@[i as int]@.3, detail) {
                Some(j) => crate::parser::lemma_utf8_len_nonneg(j),
                None => {},
            }
        }
        let e = crate::analysis::budget::estimate_symbol_tokens(chars);
        estimates.push(e);
        assert(fe.take(i + 1) =~= fe.take(i as int).push(e));
        i = i + 1;
    }
    assert(fe.take(files.len() as int) =~= fe);
    let share = if types_shown {
        max_tokens - max_tokens / 4
    } else {
        max_tokens
    };
    let limit = crate::analysis::budget::estimate_limit(share);
    crate::analysis::budget::admitted_count(&estimates, limit)
}

/// The number of symbols of a file.
pub open spec fn count_of(f: FileView) -> int {
    (f.1.len() + f.2.len() + f.3.len()) as int
}

pub open spec fn holds_fewer(d: FileView) -> spec_fn(FileView) -> bool {
    |e: FileView| count_of(e) < count_of(d)
}

/// `d` put before the first file with fewer symbols.
pub open spec fn insert_file(s: Seq<FileView>, d: FileView) -> Seq<FileView> {
    match crate::analysis::call_graph::first_where(s, holds_fewer(d)) {
        None => s.push(d),
        Some(i) => s.insert(i, d),
    }
}

/// The files stably sorted by decreasing number of symbols.
pub open spec fn sort_files(raw: Seq<FileView>) -> Seq<FileView>
    decreases raw.len(),
{
    if raw.len() == 0 {
        seq![]
    } else {
        insert_file(sort_files(raw.drop_last()), raw.last())
    }
}

/// The files stably sorted by decreasing number of symbols (see
/// `sort_files`).
pub fn sort_by_symbol_count(files: Vec<FileSymbols>) -> (r: Vec<FileSymbols>)
    requires
        forall|i: int| 0 <= i < files@.len() ==> count_of((#[trigger] files@[i])@) <= usize::MAX,
    ensures
        file_views(r@) == sort_files(file_views(files@)),
{
    let ghost all = file_views(files@);
    let mut out: Vec<FileSymbols> = Vec::new();
    let mut rest = files;
    let ghost mut done: int = 0;
    assert(all.skip(0) =~= all);
    assert(file_views(out@) =~= sort_files(all.take(0)));
    while rest.len() > 0
        invariant
            0 <= done <= all.len(),
            done + rest@.len() == all.len(),
            file_views(rest@) == all.skip(done),
            forall|i: int| 0 <= i < out@.len() ==> count_of((#[trigger] out@[i])@) <= usize::MAX,
            forall|i: int| 0 <= i < rest@.len() ==> count_of((#[trigger] rest@[i])@) <= usize::MAX,
            file_views(out@) == sort_files(all.take(done)),
        decreases rest@.len(),
    {
        let ghost old_rest = rest@;
        let d = rest.remove(0);
        assert(old_rest[0] == d);
        assert(file_views(rest@) =~= all.skip(done + 1)) by {
            assert forall|j: int| 0 <= j < rest@.len() implies file_views(rest@)[j] == all.skip(
                done + 1,
            )[j] by {
                assert(rest@[j] == old_rest[j + 1]);
                assert(file_views(old_rest)[j + 1] == all.skip(done)[j + 1]);
            }
        }
        assert(forall|i: int| 0 <= i < rest@.len() ==> rest@[i] == old_rest[i + 1]);
        assert(all.skip(done)[0] == d@);
        assert(all.take(done + 1).drop_last() =~= all.take(done));
        assert(all.take(done + 1).last() == d@);
        let dc = symbol_count(&d);
        let ghost s = file_views(out@);
        let mut i: usize = 0;
        while i < out.len() && !(symbol_count(&out[i]) < dc)
            invariant
                i <= out.len(),
                s == file_views(out@),
                dc == count_of(d@),
                forall|k: int| 0 <= k < out@.len() ==> count_of((#[trigger] out@[k])@) <= usize::MAX,
                forall|j: int| 0 <= j < i ==> !holds_fewer(d@)(#[trigger] s[j]),
            decreases out.len() - i,
        {
            assert(!holds_fewer(d@)(s[i as int]));
            i = i + 1;
        }
        proof {
            let p = holds_fewer(d@);
            crate::analysis::call_graph::lemma_first_where(s, p);
            if i < out.len() {
                assert(p(s[i as int]));
                match crate::analysis::call_graph::first_where(s, p) {
                    Some(m) => {
                        if m < i {
                            assert(!p(s[m]));
                        } else if m > i {
                            assert(!p(s[i as int]));
                        }
                    },
                    None => {
                        assert(!p(s[i as int]));
                    },
                }
            } else {
                if let Some(m) = crate::analysis::call_graph::first_where(s, p) {
                    assert(!p(s[m]));
                }
            }
        }
        let ghost dv = d@;
        let ghost ob = out@;
        if i == out.len() {
            out.push(d);
            assert(file_views(out@) =~= s.push(dv));
        } else {
            out.insert(i, d);
            assert(file_views(out@) =~= s.insert(i as int, dv));
        }
        assert forall|k: int| 0 <= k < out@.len() implies count_of((#[trigger] out@[k])@) <= usize::MAX by {
            if k < i {
                assert(out@[k] == ob[k]);
            } else if k > i {
                assert(out@[k] == ob[k - 1]);
            }
        }
        proof {
            done = done + 1;
        }
    }
    assert(all.take(done) =~= all);
    out
}

// ---------------------------------------------------------------------------
// Patterns
// ---------------------------------------------------------------------------

/// Whether globset accepts `pattern` and the set of that one pattern
/// matches `path`.
pub open spec fn glob_matches(pattern: Seq<char>, path: Seq<char>) -> bool {
    globset_accepts(pattern) && glob_set_match(seq![pattern], path)
}

/// Whether `pattern` matches `path` (see `glob_matches`); a pattern that
/// globset refuses matches nothing.
fn glob_is_match(pattern: &str, path: &str) -> (r: bool)
    ensures
        r == glob_matches(pattern@, path@),
{
    match build_globset(pattern) {
        Some(set) => globset_is_match(&set, path),
        None => false,
    }
}

/// A pattern with a `/` or `**` is matched against the whole path, any
/// other against the file name; a pattern that globset refuses, or a path
/// without a file name, matches nothing.
pub open spec fn pattern_matches(path: Seq<char>, pattern: Seq<char>) -> bool {
    let target = if has_char(pattern, '/') || contains(pattern, "**"@) {
        Some(path)
    } else {
        file_name(path)
    };
    match target {
        Some(t) => glob_matches(pattern, t),
        None => false,
    }
}

/// Whether a path matches a pattern (see `pattern_matches`).
pub fn matches_pattern(path: &str, pattern: &str) -> (r: bool)
    ensures
        r == pattern_matches(path@, pattern@),
{
    let pc = crate::text::chars_of(pattern);
    let whole = has_char_exec(pc.as_slice(), '/') || contains_lit(pc.as_slice(), "**");
    if whole {
        glob_is_match(pattern, path)
    } else {
        let v = crate::text::chars_of(path);
        match crate::paths::file_name_bounds(v.as_slice()) {
            Some((a, b)) => {
                let name = crate::text::string_of_range(v.as_slice(), a, b);
                glob_is_match(pattern, name.as_str())
            },
            None => false,
        }
    }
}

// ---------------------------------------------------------------------------
// Types of a source
// ---------------------------------------------------------------------------

/// Whether type definitions are read from a language's files here: Rust,
/// TypeScript, JavaScript and Python.
pub open spec fn types_read(l: crate::parser::Language) -> bool {
    match l {
        crate::parser::Language::Rust | crate::parser::Language::TypeScript
        | crate::parser::Language::JavaScript | crate::parser::Language::Python => true,
        _ => false,
    }
}

/// The type definitions of a parsed source of a language whose types are
/// read.
pub open spec fn source_types(
    t: crate::syntax::SyntaxTree,
    l: crate::parser::Language,
    file: Seq<char>,
) -> Seq<crate::extraction::types::TypeView> {
    match l {
        crate::parser::Language::Rust => crate::extraction::rust_types::rust_types(t, file),
        crate::parser::Language::TypeScript => crate::extraction::ts_types::ts_types(t, true, file),
        crate::parser::Language::JavaScript => crate::extraction::ts_types::ts_types(t, false, file),
        crate::parser::Language::Python => crate::extraction::python_types::python_types(t, file),
        _ => seq![],
    }
}

/// The type definitions of a source for a code map: none for a language
/// whose types are not read here; an error when the source cannot be
/// parsed.
pub fn extract_types_from_source(source: &str, path: &str, language: crate::parser::Language) -> (r: Result<
    Vec<TypeDefinition>,
    crate::parser::ParseError,
>)
    ensures
        !types_read(language) ==> (r matches Ok(v) && v@.len() == 0),
        types_read(language) ==> (r is Ok <==> crate::parser::parse_nodes(language, source@) is Some),
        types_read(language) && r is Ok ==> exists|t: crate::syntax::SyntaxTree|
            t.wf() && crate::parser::tree_is_parse(t, language, source@) && crate::extraction::types::type_views(r->Ok_0@)
                == #[trigger] source_types(t, language, path@),
{
    match language {
        crate::parser::Language::Rust => {
            let r = crate::extraction::rust_types::extract_rust_types(source, path);
            proof {
                if r is Ok {
                    let v = r->Ok_0;
                    let t = choose|t: crate::syntax::SyntaxTree|
                        t.wf() && crate::parser::tree_is_parse(t, language, source@) && crate::extraction::types::type_views(v@)
                            == #[trigger] crate::extraction::rust_types::rust_types(t, path@);
                    assert(source_types(t, language, path@) == crate::extraction::rust_types::rust_types(t, path@));
                }
            }
            r
        },
        crate::parser::Language::TypeScript => {
            let r = crate::extraction::ts_types::extract_typescript_types(source, path, true);
            proof {
                if r is Ok {
                    let v = r->Ok_0;
                    let t = choose|t: crate::syntax::SyntaxTree|
                        t.wf() && crate::parser::tree_is_parse(t, language, source@) && crate::extraction::types::type_views(v@)
                            == #[trigger] crate::extraction::ts_types::ts_types(t, true, path@);
                    assert(source_types(t, language, path@) == crate::extraction::ts_types::ts_types(t, true, path@));
                }
            }
            r
        },
        crate::parser::Language::JavaScript => {
            let r = crate::extraction::ts_types::extract_typescript_types(source, path, false);
            proof {
                if r is Ok {
                    let v = r->Ok_0;
                    let t = choose|t: crate::syntax::SyntaxTree|
                        t.wf() && crate::parser::tree_is_parse(t, language, source@) && crate::extraction::types::type_views(v@)
                            == #[trigger] crate::extraction::ts_types::ts_types(t, false, path@);
                    assert(source_types(t, language, path@) == crate::extraction::ts_types::ts_types(t, false, path@));
                }
            }
            r
        },
        crate::parser::Language::Python => {
            let r = crate::extraction::python_types::extract_python_types(source, path);
            proof {
                if r is Ok {
                    let v = r->Ok_0;
                    let t = choose|t: crate::syntax::SyntaxTree|
                        t.wf() && crate::parser::tree_is_parse(t, language, source@) && crate::extraction::types::type_views(v@)
                            == #[trigger] crate::extraction::python_types::python_types(t, path@);
                    assert(source_types(t, language, path@) == crate::extraction::python_types::python_types(t, path@));
                }
            }
            r
        },
        _ => Ok(Vec::new()),
    }
}

// ---------------------------------------------------------------------------
// Ordering types
// ---------------------------------------------------------------------------

/// Whether `e` comes after `d` by file, then line.
pub open spec fn located_after(d: crate::extraction::types::TypeView) -> spec_fn(
    crate::extraction::types::TypeView,
) -> bool {
    |e: crate::extraction::types::TypeView| crate::text::text_order(d.2, e.2) < 0 || (e.2 == d.2 && d.3 < e.3)
}

/// `d` put before the first type that comes after it.
pub open spec fn insert_type(
    s: Seq<crate::extraction::types::TypeView>,
    d: crate::extraction::types::TypeView,
) -> Seq<crate::extraction::types::TypeView> {
    match crate::analysis::call_graph::first_where(s, located_after(d)) {
        None => s.push(d),
        Some(i) => s.insert(i, d),
    }
}

/// The types stably sorted by file, then line.
pub open spec fn sort_types(raw: Seq<crate::extraction::types::TypeView>) -> Seq<
    crate::extraction::types::TypeView,
>
    decreases raw.len(),
{
    if raw.len() == 0 {
        seq![]
    } else {
        insert_type(sort_types(raw.drop_last()), raw.last())
    }
}

fn comes_after(d: &TypeDefinition, e: &TypeDefinition) -> (r: bool)
    ensures
        r == located_after(crate::extraction::types::type_view(*d))(crate::extraction::types::type_view(*e)),
{
    let c = crate::text::compare_strs(d.file.as_str(), e.file.as_str());
    c < 0 || (crate::text::str_eq(e.file.as_str(), d.file.as_str()) && d.line < e.line)
}

/// The types stably sorted by file, then line (see `sort_types`).
pub fn sort_types_by_location(types: Vec<TypeDefinition>) -> (r: Vec<TypeDefinition>)
    ensures
        crate::extraction::types::type_views(r@) == sort_types(crate::extraction::types::type_views(types@)),
{
    let ghost all = crate::extraction::types::type_views(types@);
    let mut out: Vec<TypeDefinition> = Vec::new();
    let mut rest = types;
    let ghost mut done: int = 0;
    assert(all.skip(0) =~= all);
    assert(crate::extraction::types::type_views(out@) =~= sort_types(all.take(0)));
    while rest.len() > 0
        invariant
            0 <= done <= all.len(),
            done + rest@.len() == all.len(),
            crate::extraction::types::type_views(rest@) == all.skip(done),
            crate::extraction::types::type_views(out@) == sort_types(all.take(done)),
        decreases rest@.len(),
    {
        let ghost old_rest = rest@;
        let d = rest.remove(0);
        assert(old_rest[0] == d);
        assert(crate::extraction::types::type_views(rest@) =~= all.skip(done + 1)) by {
            assert forall|j: int| 0 <= j < rest@.len() implies crate::extraction::types::type_views(
                rest@,
            )[j] == all.skip(done + 1)[j] by {
                assert(rest@[j] == old_rest[j + 1]);
                assert(crate::extraction::types::type_views(old_rest)[j + 1] == all.skip(done)[j + 1]);
            }
        }
        assert(all.skip(done)[0] == crate::extraction::types::type_view(d));
        assert(all.take(done + 1).drop_last() =~= all.take(done));
        assert(all.take(done + 1).last() == crate::extraction::types::type_view(d));
        let ghost s = crate::extraction::types::type_views(out@);
        let ghost dv = crate::extraction::types::type_view(d);
        let mut i: usize = 0;
        while i < out.len() && !comes_after(&d, &out[i])
            invariant
                i <= out.len(),
                s == crate::extraction::types::type_views(out@),
                dv == crate::extraction::types::type_view(d),
                forall|j: int| 0 <= j < i ==> !located_after(dv)(#[trigger] s[j]),
            decreases out.len() - i,
        {
            assert(!located_after(dv)(s[i as int]));
            i = i + 1;
        }
        proof {
            let p = located_after(dv);
            crate::analysis::call_graph::lemma_first_where(s, p);
            if i < out.len() {
                assert(p(s[i as int]));
                match crate::analysis::call_graph::first_where(s, p) {
                    Some(m) => {
                        if m < i {
                            assert(!p(s[m]));
                        } else if m > i {
                            assert(!p(s[i as int]));
                        }
                    },
                    None => {
                        assert(!p(s[i as int]));
                    },
                }
            } else {
                if let Some(m) = crate::analysis::call_graph::first_where(s, p) {
                    assert(!p(s[m]));
                }
            }
        }
        if i == out.len() {
            out.push(d);
            assert(crate::extraction::types::type_views(out@) =~= s.push(dv));
        } else {
            out.insert(i, d);
            assert(crate::extraction::types::type_views(out@) =~= s.insert(i as int, dv));
        }
        proof {
            done = done + 1;
        }
    }
    assert(all.take(done) =~= all);
    out
}

} // verus!
