//! Type definitions of a project: structs, classes, enums, traits,
//! interfaces and aliases with their fields, variants and members.
use vstd::prelude::*;
use crate::syntax::SyntaxTree;
use crate::text::{
    chars_of, line_bounds, lines, slice_range, string_of, strip_lead, strip_lead_exec, strip_trail,
    strip_trail_exec, trim, trim_chars,
};

verus! {

/// The most types kept, whatever limit is asked for.
pub const HARD_TYPE_LIMIT: usize = 1000;

/// Which limit cut an extraction short.
#[derive(Debug, Clone, Copy, PartialEq, Eq, Structural)]
pub enum LimitHit {
    TypeLimit,
    TokenLimit,
}

/// Kind of a type definition.
#[derive(Debug, Clone, Copy, PartialEq, Eq, Hash, Structural)]
pub enum TypeKind {
    Struct,
    Class,
    Enum,
    Trait,
    Interface,
    Protocol,
    TypeAlias,
    Record,
    TypedDict,
    NamedTuple,
}

/// A field with its type.
#[derive(Debug, Clone, PartialEq, Eq)]
pub struct Field {
    pub name: String,
    pub type_annotation: String,
}

/// An enum variant, with its payload type where it has one.
#[derive(Debug, Clone, PartialEq, Eq)]
pub struct Variant {
    pub name: String,
    pub type_annotation: Option<String>,
}

/// A member (method, associated type) with its signature.
#[derive(Debug, Clone, PartialEq, Eq)]
pub struct Member {
    pub name: String,
    pub type_annotation: String,
}

/// One type definition.
#[derive(Debug, Clone, PartialEq, Eq)]
pub struct TypeDefinition {
    pub name: String,
    pub kind: TypeKind,
    pub file: String,
    pub line: usize,
    pub signature: String,
    pub usage_count: usize,
    pub fields: Option<Vec<Field>>,
    pub variants: Option<Vec<Variant>>,
    pub members: Option<Vec<Member>>,
}

/// The result of a type extraction.
#[derive(Debug, Clone, PartialEq, Eq)]
pub struct TypeExtractionResult {
    pub types: Vec<TypeDefinition>,
    pub total_types: usize,
    pub types_included: usize,
    pub limit_hit: Option<LimitHit>,
    pub truncated: bool,
}

impl TypeExtractionResult {
    /// An empty result.
    pub fn new() -> (r: Self)
        ensures
            r.types@.len() == 0,
            r.total_types == 0,
            r.types_included == 0,
            r.limit_hit is None,
            !r.truncated,
    {
        TypeExtractionResult {
            types: Vec::new(),
            total_types: 0,
            types_included: 0,
            limit_hit: None,
            truncated: false,
        }
    }

    /// Record how many types were kept and whether a limit cut the result.
    pub fn finalize(&mut self)
        ensures
            final(self).types == old(self).types,
            final(self).total_types == old(self).total_types,
            final(self).limit_hit == old(self).limit_hit,
            final(self).types_included == old(self).types@.len(),
            final(self).truncated == old(self).limit_hit is Some,
    {
        self.types_included = self.types.len();
        self.truncated = self.limit_hit.is_some();
    }
}


/// Name and type of a field.
pub type FieldView = (Seq<char>, Seq<char>);

/// Name and payload type of a variant.
pub type VariantView = (Seq<char>, Option<Seq<char>>);

/// Name and signature of a member.
pub type MemberView = (Seq<char>, Seq<char>);

/// Name, kind, file, line, signature, usage count, fields, variants and
/// members of a type definition.
pub type TypeView = (
    Seq<char>,
    TypeKind,
    Seq<char>,
    usize,
    Seq<char>,
    usize,
    Option<Seq<FieldView>>,
    Option<Seq<VariantView>>,
    Option<Seq<MemberView>>,
);

pub open spec fn field_views(v: Seq<Field>) -> Seq<FieldView> {
    v.map_values(|f: Field| (f.name@, f.type_annotation@))
}

pub open spec fn variant_views(v: Seq<Variant>) -> Seq<VariantView> {
    v.map_values(
        |x: Variant|
            (
                x.name@,
                match x.type_annotation {
                    Some(s) => Some(s@),
                    None => None,
                },
            ),
    )
}

pub open spec fn member_views(v: Seq<Member>) -> Seq<MemberView> {
    v.map_values(|m: Member| (m.name@, m.type_annotation@))
}

pub open spec fn opt_fields(o: Option<Vec<Field>>) -> Option<Seq<FieldView>> {
    match o {
        Some(v) => Some(field_views(v@)),
        None => None,
    }
}

pub open spec fn opt_variants(o: Option<Vec<Variant>>) -> Option<Seq<VariantView>> {
    match o {
        Some(v) => Some(variant_views(v@)),
        None => None,
    }
}

pub open spec fn opt_members(o: Option<Vec<Member>>) -> Option<Seq<MemberView>> {
    match o {
        Some(v) => Some(member_views(v@)),
        None => None,
    }
}

pub open spec fn type_view(d: TypeDefinition) -> TypeView {
    (
        d.name@,
        d.kind,
        d.file@,
        d.line,
        d.signature@,
        d.usage_count,
        opt_fields(d.fields),
        opt_variants(d.variants),
        opt_members(d.members),
    )
}

pub open spec fn type_views(v: Seq<TypeDefinition>) -> Seq<TypeView> {
    v.map_values(|d: TypeDefinition| type_view(d))
}

/// Position of the definition named `name` in `defs`, or -1.
pub open spec fn def_index(defs: Seq<TypeView>, name: Seq<char>) -> int
    decreases defs.len(),
{
    if defs.len() == 0 {
        -1
    } else if defs.last().0 == name {
        defs.len() - 1
    } else {
        def_index(defs.drop_last(), name)
    }
}

pub proof fn lemma_def_index(defs: Seq<TypeView>, name: Seq<char>)
    ensures
        -1 <= def_index(defs, name) < defs.len(),
        def_index(defs, name) >= 0 ==> defs[def_index(defs, name)].0 == name,
        def_index(defs, name) < 0 ==> forall|j: int| 0 <= j < defs.len() ==> defs[j].0 != name,
    decreases defs.len(),
{
    if defs.len() > 0 {
        lemma_def_index(defs.drop_last(), name);
        if def_index(defs, name) < 0 {
            assert forall|j: int| 0 <= j < defs.len() implies defs[j].0 != name by {
                if j < defs.len() - 1 {
                    assert(defs[j] == defs.drop_last()[j]);
                }
            }
        }
    }
}

/// Position of the definition named `name` in `defs`.
pub fn find_definition(defs: &Vec<TypeDefinition>, name: &str) -> (r: Option<usize>)
    ensures
        match r {
            Some(j) => j < defs@.len() && def_index(type_views(defs@), name@) == j,
            None => def_index(type_views(defs@), name@) == -1,
        },
{
    let mut k = defs.len();
    assert(defs@.take(k as int) =~= defs@);
    while k > 0
        invariant
            k <= defs@.len(),
            def_index(type_views(defs@), name@) == def_index(type_views(defs@.take(k as int)), name@),
        decreases k,
    {
        let ghost pre = type_views(defs@.take(k as int));
        assert(pre.last() == type_view(defs@[k - 1]));
        assert(pre.drop_last() =~= type_views(defs@.take(k - 1)));
        if crate::text::str_eq(defs[k - 1].name.as_str(), name) {
            return Some(k - 1);
        }
        k = k - 1;
    }
    None
}

/// The first line of `text`, trimmed (`text.lines().next().unwrap_or("").trim()`).
pub open spec fn first_line_trimmed(text: Seq<char>) -> Seq<char> {
    if lines(text).len() > 0 {
        trim(lines(text)[0])
    } else {
        seq![]
    }
}

/// The signature of a definition node: the first line of its text, trimmed.
pub fn signature_for(tree: &SyntaxTree, i: usize) -> (r: String)
    requires
        tree.wf(),
        i < tree.len(),
    ensures
        r@ == first_line_trimmed(tree.text(i as int)),
{
    let text = chars_of(tree.node_text(i).as_str());
    let lb = line_bounds(text.as_slice());
    if lb.len() == 0 {
        return String::new();
    }
    let (a, b) = lb[0];
    let line = slice_range(text.as_slice(), a, b);
    string_of(trim_chars(line.as_slice()).as_slice())
}

/// A type annotation without the surrounding whitespace, the leading
/// colons and the trailing semicolons
/// (`text.trim().trim_start_matches(':').trim().trim_end_matches(';').trim()`).
pub open spec fn clean_annotation(text: Seq<char>) -> Seq<char> {
    trim(strip_trail(trim(strip_lead(trim(text), ':')), ';'))
}

/// Clean a type annotation (see `clean_annotation`).
pub fn clean_type_annotation(text: &str) -> (r: String)
    ensures
        r@ == clean_annotation(text@),
{
    let a = trim_chars(chars_of(text).as_slice());
    let b = trim_chars(strip_lead_exec(a.as_slice(), ':').as_slice());
    let c = trim_chars(strip_trail_exec(b.as_slice(), ';').as_slice());
    string_of(c.as_slice())
}
} // verus!
