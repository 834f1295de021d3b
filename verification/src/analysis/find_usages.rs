//! Usages of a symbol: identifier occurrences with their usage type,
//! context, enclosing scope, owner hint and a confidence that they refer to
//! the definition that was found.
use vstd::prelude::*;
use crate::paths::path_stem;
use crate::rows::{decimal, decimal_string, format_row, join_rows, row_text};
use crate::text::{compare_strs, lemma_text_order_zero, text_order};
use crate::text::{
    ascii_lower, ascii_lower_chars, chars_eq, chars_of, eq_lit, first_index, last_occ,
    last_segment, last_segment_bounds, rfind_str, slice_range, split_contains, split_str,
    string_of, trim, trim_bounds, trim_char, trim_char_exec, trim_chars,
};

verus! {

/// One usage of a symbol.
#[derive(Debug, Clone)]
pub struct UsageRow {
    pub file: String,
    pub line: usize,
    pub column: usize,
    pub usage_type: String,
    pub context: String,
    pub scope: String,
    pub confidence: String,
    pub owner_hint: Option<String>,
}

/// `text.trim().trim_matches('&').trim()`.
pub open spec fn scope_token(text: Seq<char>) -> Seq<char> {
    trim(trim_char(trim(text), '&'))
}

/// A scope token without surrounding whitespace and `&`.
pub fn normalize_scope_token(text: &[char]) -> (r: String)
    ensures
        r@ == scope_token(text@),
{
    let t = trim_chars(text);
    let a = trim_char_exec(t.as_slice(), '&');
    string_of(trim_chars(a.as_slice()).as_slice())
}

/// The owner named by an expression: its last `:`/`.` segment, after
/// generics and arguments are cut off; none for blank text.
pub open spec fn owner_of_text(text: Seq<char>) -> Option<Seq<char>> {
    let t = trim(text);
    if t.len() == 0 {
        None
    } else {
        let a = t.take(first_index(t, '<'));
        let b = a.take(first_index(a, '('));
        match last_segment(trim(b)) {
            Some(seg) => Some(scope_token(seg)),
            None => None,
        }
    }
}

/// The owner named by an expression (see `owner_of_text`).
pub fn normalize_owner_hint(text: &[char]) -> (r: Option<String>)
    ensures
        match r {
            Some(s) => owner_of_text(text@) == Some(s@),
            None => owner_of_text(text@) is None,
        },
{
    let t = trim_chars(text);
    if t.len() == 0 {
        return None;
    }
    let lt = crate::text::line_end_char(t.as_slice(), '<');
    let a = slice_range(t.as_slice(), 0, lt);
    assert(a@ =~= t@.take(first_index(t@, '<')));
    let lp = crate::text::line_end_char(a.as_slice(), '(');
    let b = slice_range(a.as_slice(), 0, lp);
    assert(b@ =~= a@.take(first_index(a@, '(')));
    let c = trim_chars(b.as_slice());
    assert(c@.take(c@.len() as int) == c@);
    match last_segment_bounds(c.as_slice(), c.len()) {
        Some((x, y)) => {
            let seg = slice_range(c.as_slice(), x, y);
            Some(normalize_scope_token(seg.as_slice()))
        },
        None => None,
    }
}

/// `scope.rsplit("::").nth(1)`: the piece before the last `::`.
pub open spec fn scope_owner_of(scope: Seq<char>) -> Option<Seq<char>> {
    let i = last_occ(scope, "::"@);
    if i < 0 {
        None
    } else {
        let rest = scope.take(i);
        let k = last_occ(rest, "::"@);
        if k < 0 {
            Some(rest)
        } else {
            Some(rest.skip(k + 2))
        }
    }
}

/// The owner in a `::`-separated scope (see `scope_owner_of`).
pub fn scope_owner(scope: &[char]) -> (r: Option<Vec<char>>)
    ensures
        match r {
            Some(o) => scope_owner_of(scope@) == Some(o@),
            None => scope_owner_of(scope@) is None,
        },
{
    let sep = chars_of("::");
    proof {
        reveal_strlit("::");
    }
    assert(scope@.take(scope@.len() as int) == scope@);
    match rfind_str(scope, sep.as_slice(), scope.len()) {
        None => None,
        Some(i) => {
            let rest = slice_range(scope, 0, i);
            assert(rest@ =~= scope@.take(i as int));
            assert(rest@.take(rest@.len() as int) == rest@);
            match rfind_str(rest.as_slice(), sep.as_slice(), rest.len()) {
                None => Some(rest),
                Some(k) => {
                    proof {
                        crate::text::lemma_last_occ_bound(rest@, "::"@);
                    }
                    let piece = slice_range(rest.as_slice(), k + 2, rest.len());
                    assert(piece@ =~= rest@.skip(k + 2));
                    Some(piece)
                },
            }
        },
    }
}

/// Whether an owner hint matches a definition's owner: for `self`/`this`
/// (any case), the owner must be one of the usage scope's segments;
/// otherwise it must equal the hint.
pub open spec fn owner_match(def_owner: Option<Seq<char>>, hint: Seq<char>, usage_scope: Seq<char>) -> bool {
    if ascii_lower(hint) == "self"@ || ascii_lower(hint) == "this"@ {
        match def_owner {
            Some(o) => split_str(usage_scope, "::"@).contains(o),
            None => false,
        }
    } else {
        def_owner == Some(hint)
    }
}

/// Whether an owner hint matches a definition's owner (see `owner_match`).
pub fn owner_matches(definition_owner: Option<&str>, owner_hint: &str, usage_scope: &str) -> (r: bool)
    ensures
        r == owner_match(
            match definition_owner {
                Some(o) => Some(o@),
                None => None,
            },
            owner_hint@,
            usage_scope@,
        ),
{
    let hint = chars_of(owner_hint);
    let low = ascii_lower_chars(hint.as_slice());
    if eq_lit(low.as_slice(), "self") || eq_lit(low.as_slice(), "this") {
        match definition_owner {
            Some(o) => {
                let sep = chars_of("::");
                proof {
                    reveal_strlit("::");
                }
                let sc = chars_of(usage_scope);
                let oc = chars_of(o);
                split_contains(sc.as_slice(), sep.as_slice(), oc.as_slice())
            },
            None => false,
        }
    } else {
        match definition_owner {
            Some(o) => {
                let oc = chars_of(o);
                chars_eq(oc.as_slice(), hint.as_slice())
            },
            None => false,
        }
    }
}

/// A definition's scope owner is one of the segments of a usage's scope.
pub open spec fn scope_align(def_scope: Seq<char>, usage_scope: Seq<char>) -> bool {
    match scope_owner_of(def_scope) {
        Some(o) => split_str(usage_scope, "::"@).contains(o),
        None => false,
    }
}

/// Whether the scopes of a definition and a usage align (see `scope_align`).
pub fn scope_aligns(definition_scope: &str, usage_scope: &str) -> (r: bool)
    ensures
        r == scope_align(definition_scope@, usage_scope@),
{
    let ds = chars_of(definition_scope);
    match scope_owner(ds.as_slice()) {
        None => false,
        Some(o) => {
            let sep = chars_of("::");
            proof {
                reveal_strlit("::");
            }
            let sc = chars_of(usage_scope);
            split_contains(sc.as_slice(), sep.as_slice(), o.as_slice())
        },
    }
}

/// Where a symbol is defined, as used to score the other usages.
#[derive(Debug, Clone)]
pub struct DefinitionSite {
    pub file: String,
    pub scope: String,
    pub owner: Option<String>,
}

/// Owner of a definition: its scope owner, else the stem of its file name.
pub open spec fn definition_owner_of(u: UsageRow) -> Option<Seq<char>> {
    match scope_owner_of(u.scope@) {
        Some(o) => Some(o),
        None => path_stem(u.file@),
    }
}

/// The owner of a definition (see `definition_owner_of`).
pub fn definition_owner(usage: &UsageRow) -> (r: Option<String>)
    ensures
        match r {
            Some(s) => definition_owner_of(*usage) == Some(s@),
            None => definition_owner_of(*usage) is None,
        },
{
    let sc = chars_of(usage.scope.as_str());
    match scope_owner(sc.as_slice()) {
        Some(o) => Some(string_of(o.as_slice())),
        None => crate::paths::file_stem(usage.file.as_str()),
    }
}

/// The view of a definition site.
pub open spec fn site_view(d: DefinitionSite) -> (Seq<char>, Seq<char>, Option<Seq<char>>) {
    (
        d.file@,
        d.scope@,
        match d.owner {
            Some(o) => Some(o@),
            None => None,
        },
    )
}

/// The definition site of a usage.
pub open spec fn site_of(u: UsageRow) -> (Seq<char>, Seq<char>, Option<Seq<char>>) {
    (u.file@, u.scope@, definition_owner_of(u))
}

impl DefinitionSite {
    /// The definition site of a usage.
    pub fn from(usage: &UsageRow) -> (r: DefinitionSite)
        ensures
            site_view(r) == site_of(*usage),
    {
        DefinitionSite {
            file: usage.file.clone(),
            scope: usage.scope.clone(),
            owner: definition_owner(usage),
        }
    }
}

/// Confidence that a usage refers to a found definition.
#[derive(Debug, Clone, Copy, PartialEq, Eq, Structural)]
pub enum Confidence {
    High,
    Medium,
    Low,
}

/// The text of a confidence.
pub open spec fn confidence_text(c: Confidence) -> Seq<char> {
    match c {
        Confidence::High => "high"@,
        Confidence::Medium => "medium"@,
        Confidence::Low => "low"@,
    }
}

impl Confidence {
    /// The text of the confidence.
    pub fn as_str(self) -> (r: &'static str)
        ensures
            r@ == confidence_text(self),
    {
        match self {
            Confidence::High => "high",
            Confidence::Medium => "medium",
            Confidence::Low => "low",
        }
    }
}

/// Number of sites whose owner matches the hint.
pub open spec fn count_owner_matches(
    sites: Seq<(Seq<char>, Seq<char>, Option<Seq<char>>)>,
    hint: Seq<char>,
    usage_scope: Seq<char>,
) -> nat
    decreases sites.len(),
{
    if sites.len() == 0 {
        0
    } else {
        count_owner_matches(sites.drop_last(), hint, usage_scope) + if owner_match(
            sites.last().2,
            hint,
            usage_scope,
        ) {
            1nat
        } else {
            0nat
        }
    }
}

/// Number of sites whose scope aligns with the usage's scope.
pub open spec fn count_scope_aligned(
    sites: Seq<(Seq<char>, Seq<char>, Option<Seq<char>>)>,
    usage_scope: Seq<char>,
) -> nat
    decreases sites.len(),
{
    if sites.len() == 0 {
        0
    } else {
        count_scope_aligned(sites.drop_last(), usage_scope) + if scope_align(
            sites.last().1,
            usage_scope,
        ) {
            1nat
        } else {
            0nat
        }
    }
}

/// Whether a site lies in the given file.
pub open spec fn some_site_in_file(sites: Seq<(Seq<char>, Seq<char>, Option<Seq<char>>)>, file: Seq<char>) -> bool {
    exists|i: int| 0 <= i < sites.len() && sites[i].0 == file
}

/// Confidence of a usage given the definitions found: definitions
/// themselves are high; with no definition, low; high when exactly one
/// definition's owner matches the usage's owner hint, or else exactly one
/// definition's scope aligns; medium when a definition is in the same file;
/// low otherwise.
pub open spec fn usage_confidence(u: UsageRow, sites: Seq<(Seq<char>, Seq<char>, Option<Seq<char>>)>) -> Confidence {
    if u.usage_type@ == "definition"@ {
        Confidence::High
    } else if sites.len() == 0 {
        Confidence::Low
    } else if u.owner_hint is Some && count_owner_matches(sites, u.owner_hint.unwrap()@, u.scope@)
        == 1 {
        Confidence::High
    } else if count_scope_aligned(sites, u.scope@) == 1 {
        Confidence::High
    } else if some_site_in_file(sites, u.file@) {
        Confidence::Medium
    } else {
        Confidence::Low
    }
}

/// Confidence of a usage (see `usage_confidence`).
pub fn confidence_for_usage(usage: &UsageRow, definitions: &Vec<DefinitionSite>) -> (r: Confidence)
    requires
        definitions@.len() < usize::MAX,
    ensures
        r == usage_confidence(*usage, definitions@.map_values(|d: DefinitionSite| site_view(d))),
{
    let ghost sites = definitions@.map_values(|d: DefinitionSite| site_view(d));
    let ut = chars_of(usage.usage_type.as_str());
    if eq_lit(ut.as_slice(), "definition") {
        return Confidence::High;
    }
    if definitions.len() == 0 {
        return Confidence::Low;
    }
    if let Some(hint) = &usage.owner_hint {
        let mut n: usize = 0;
        let mut i: usize = 0;
        while i < definitions.len()
            invariant
                i <= definitions.len() < usize::MAX,
                n <= i,
                sites == definitions@.map_values(|d: DefinitionSite| site_view(d)),
                n == count_owner_matches(sites.take(i as int), hint@, usage.scope@),
            decreases definitions.len() - i,
        {
            let d = &definitions[i];
            let m = match &d.owner {
                Some(o) => owner_matches(Some(o.as_str()), hint.as_str(), usage.scope.as_str()),
                None => owner_matches(None, hint.as_str(), usage.scope.as_str()),
            };
            assert(sites.take(i + 1).drop_last() =~= sites.take(i as int));
            assert(sites.take(i + 1).last() == site_view(definitions@[i as int]));
            if m {
                n = n + 1;
            }
            i = i + 1;
        }
        assert(sites.take(definitions.len() as int) =~= sites);
        if n == 1 {
            return Confidence::High;
        }
    }
    let mut n: usize = 0;
    let mut i: usize = 0;
    while i < definitions.len()
        invariant
            i <= definitions.len() < usize::MAX,
            n <= i,
            sites == definitions@.map_values(|d: DefinitionSite| site_view(d)),
            n == count_scope_aligned(sites.take(i as int), usage.scope@),
        decreases definitions.len() - i,
    {
        let d = &definitions[i];
        assert(sites.take(i + 1).drop_last() =~= sites.take(i as int));
        assert(sites.take(i + 1).last() == site_view(definitions@[i as int]));
        if scope_aligns(d.scope.as_str(), usage.scope.as_str()) {
            n = n + 1;
        }
        i = i + 1;
    }
    assert(sites.take(definitions.len() as int) =~= sites);
    if n == 1 {
        return Confidence::High;
    }
    let mut k: usize = 0;
    while k < definitions.len()
        invariant
            k <= definitions.len(),
            sites == definitions@.map_values(|d: DefinitionSite| site_view(d)),
            forall|j: int| 0 <= j < k ==> sites[j].0 != usage.file@,
            usage.usage_type@ != "definition"@,
            sites.len() > 0,
            !(usage.owner_hint is Some && count_owner_matches(
                sites,
                usage.owner_hint.unwrap()@,
                usage.scope@,
            ) == 1),
            count_scope_aligned(sites, usage.scope@) != 1,
        decreases definitions.len() - k,
    {
        assert(sites[k as int] == site_view(definitions@[k as int]));
        if crate::text::str_eq(definitions[k].file.as_str(), usage.file.as_str()) {
            assert(sites[k as int].0 == usage.file@);
            return Confidence::Medium;
        }
        k = k + 1;
    }
    Confidence::Low
}

/// Definition sites of the rows that are definitions, in order.
pub open spec fn definition_sites(rows: Seq<UsageRow>) -> Seq<(Seq<char>, Seq<char>, Option<Seq<char>>)>
    decreases rows.len(),
{
    if rows.len() == 0 {
        seq![]
    } else {
        let r = definition_sites(rows.drop_last());
        if rows.last().usage_type@ == "definition"@ {
            r.push(site_of(rows.last()))
        } else {
            r
        }
    }
}

/// Set each usage's confidence from the definitions among the usages; all
/// other fields stay as they are.
pub fn assign_confidence(usages: &mut Vec<UsageRow>)
    requires
        old(usages)@.len() < usize::MAX,
    ensures
        final(usages)@.len() == old(usages)@.len(),
        forall|i: int|
            0 <= i < old(usages)@.len() ==> {
                let o = #[trigger] old(usages)@[i];
                let n = final(usages)@[i];
                &&& n.file == o.file && n.line == o.line && n.column == o.column
                &&& n.usage_type == o.usage_type && n.context == o.context && n.scope == o.scope
                &&& n.owner_hint == o.owner_hint
                &&& n.confidence@ == confidence_text(
                    usage_confidence(o, definition_sites(old(usages)@)),
                )
            },
{
    let ghost orig = usages@;
    let mut defs: Vec<DefinitionSite> = Vec::new();
    let mut i: usize = 0;
    while i < usages.len()
        invariant
            usages@ == orig,
            orig.len() < usize::MAX,
            i <= usages.len(),
            defs@.len() <= i,
            defs@.map_values(|d: DefinitionSite| site_view(d)) == definition_sites(
                orig.take(i as int),
            ),
        decreases usages.len() - i,
    {
        let ghost before = defs@;
        let ut = chars_of(usages[i].usage_type.as_str());
        if eq_lit(ut.as_slice(), "definition") {
            defs.push(DefinitionSite::from(&usages[i]));
        }
        proof {
            let f = |d: DefinitionSite| site_view(d);
            assert(orig.take(i + 1).drop_last() =~= orig.take(i as int));
            assert(orig.take(i + 1).last() == orig[i as int]);
            if defs@.len() > before.len() {
                assert(defs@.map_values(f) =~= before.map_values(f).push(site_of(orig[i as int])));
            }
        }
        i = i + 1;
    }
    assert(orig.take(orig.len() as int) =~= orig);
    let mut k: usize = 0;
    while k < usages.len()
        invariant
            usages@.len() == orig.len(),
            k <= usages.len(),
            defs@.len() < usize::MAX,
            defs@.map_values(|d: DefinitionSite| site_view(d)) == definition_sites(orig),
            forall|j: int| k <= j < orig.len() ==> usages@[j] == orig[j],
            forall|j: int|
                0 <= j < k ==> {
                    let o = #[trigger] orig[j];
                    let n = usages@[j];
                    &&& n.file == o.file && n.line == o.line && n.column == o.column
                    &&& n.usage_type == o.usage_type && n.context == o.context && n.scope
                        == o.scope
                    &&& n.owner_hint == o.owner_hint
                    &&& n.confidence@ == confidence_text(usage_confidence(o, definition_sites(orig)))
                },
        decreases usages.len() - k,
    {
        let c = confidence_for_usage(&usages[k], &defs);
        let u = &usages[k];
        let row = UsageRow {
            file: u.file.clone(),
            line: u.line,
            column: u.column,
            usage_type: u.usage_type.clone(),
            context: u.context.clone(),
            scope: u.scope.clone(),
            confidence: c.as_str().to_string(),
            owner_hint: crate::text::clone_opt_string(&u.owner_hint),
        };
        usages.set(k, row);
        k = k + 1;
    }
}

} // verus!

verus! {

use crate::parser::Language;
use crate::syntax::SyntaxTree;
use crate::text::{contains, contains_lit, ends_with, ends_with_lit, join, join_strings, line_bounds, lines, push_chars, push_str, views};

/// How a usage uses the symbol, from the kinds of its parent, grandparent
/// and great-grandparent.
pub open spec fn usage_kind(t: SyntaxTree, i: int) -> Seq<char> {
    match t.parent(i) {
        None => "reference"@,
        Some(p) => {
            let pk = t.kind(p as int);
            if pk == "function_item"@ || pk == "function_declaration"@ || pk
                == "method_definition"@ || pk == "method_declaration"@ || pk == "struct_item"@ || pk
                == "class_definition"@ || pk == "class_declaration"@ || pk == "enum_item"@ || pk
                == "interface_declaration"@ || pk == "type_alias_declaration"@ {
                "definition"@
            } else if pk == "let_declaration"@ || pk == "const_item"@ || pk == "static_item"@
                || pk == "variable_declarator"@ || pk == "lexical_declaration"@ {
                "definition"@
            } else if pk == "use_declaration"@ || pk == "import_statement"@ || pk
                == "import_clause"@ || pk == "import_specifier"@ {
                "import"@
            } else if pk == "call_expression"@ || pk == "method_call_expression"@ || pk == "call"@ {
                "call"@
            } else if pk == "type_annotation"@ || pk == "type_identifier"@ || pk
                == "generic_type"@ || pk == "type_arguments"@ || pk == "type_parameter"@ {
                "type_reference"@
            } else {
                match t.parent(p as int) {
                    None => "reference"@,
                    Some(g) => {
                        let gk = t.kind(g as int);
                        if gk == "let_declaration"@ || gk == "const_item"@ || gk
                            == "variable_declaration"@ {
                            "definition"@
                        } else if gk == "parameter"@ || gk == "formal_parameter"@ || gk
                            == "return_type"@ {
                            "type_reference"@
                        } else if gk == "call_expression"@ || gk == "method_call_expression"@ {
                            "call"@
                        } else {
                            match t.parent(g as int) {
                                Some(gg) => {
                                    let ggk = t.kind(gg as int);
                                    if ggk == "let_declaration"@ || ggk == "const_item"@ || ggk
                                        == "variable_declaration"@ {
                                        "definition"@
                                    } else {
                                        "reference"@
                                    }
                                },
                                None => "reference"@,
                            }
                        }
                    },
                }
            }
        },
    }
}

/// The usage type of identifier node `i` (see `usage_kind`).
pub fn classify_usage_type(tree: &SyntaxTree, i: usize) -> (r: String)
    requires
        tree.wf(),
        i < tree.len(),
    ensures
        r@ == usage_kind(*tree, i as int),
{
    let p = match tree.nodes[i].parent {
        None => return "reference".to_string(),
        Some(p) => p,
    };
    assert(p < i);
    if tree.kind_is(p, "function_item") || tree.kind_is(p, "function_declaration")
        || tree.kind_is(p, "method_definition") || tree.kind_is(p, "method_declaration")
        || tree.kind_is(p, "struct_item") || tree.kind_is(p, "class_definition")
        || tree.kind_is(p, "class_declaration") || tree.kind_is(p, "enum_item") || tree.kind_is(
        p,
        "interface_declaration",
    ) || tree.kind_is(p, "type_alias_declaration") {
        return "definition".to_string();
    }
    if tree.kind_is(p, "let_declaration") || tree.kind_is(p, "const_item") || tree.kind_is(
        p,
        "static_item",
    ) || tree.kind_is(p, "variable_declarator") || tree.kind_is(p, "lexical_declaration") {
        return "definition".to_string();
    }
    if tree.kind_is(p, "use_declaration") || tree.kind_is(p, "import_statement") || tree.kind_is(
        p,
        "import_clause",
    ) || tree.kind_is(p, "import_specifier") {
        return "import".to_string();
    }
    if tree.kind_is(p, "call_expression") || tree.kind_is(p, "method_call_expression")
        || tree.kind_is(p, "call") {
        return "call".to_string();
    }
    if tree.kind_is(p, "type_annotation") || tree.kind_is(p, "type_identifier") || tree.kind_is(
        p,
        "generic_type",
    ) || tree.kind_is(p, "type_arguments") || tree.kind_is(p, "type_parameter") {
        return "type_reference".to_string();
    }
    let g = match tree.nodes[p].parent {
        None => return "reference".to_string(),
        Some(g) => g,
    };
    assert(p > 0);
    if tree.kind_is(g, "let_declaration") || tree.kind_is(g, "const_item") || tree.kind_is(
        g,
        "variable_declaration",
    ) {
        return "definition".to_string();
    }
    if tree.kind_is(g, "parameter") || tree.kind_is(g, "formal_parameter") || tree.kind_is(
        g,
        "return_type",
    ) {
        return "type_reference".to_string();
    }
    if tree.kind_is(g, "call_expression") || tree.kind_is(g, "method_call_expression") {
        return "call".to_string();
    }
    let gg = match tree.nodes[g].parent {
        None => return "reference".to_string(),
        Some(gg) => gg,
    };
    if tree.kind_is(gg, "let_declaration") || tree.kind_is(gg, "const_item") || tree.kind_is(
        gg,
        "variable_declaration",
    ) {
        return "definition".to_string();
    }
    "reference".to_string()
}

/// Node kinds that open a scope for usages, per language.
pub open spec fn usage_context_kind(kind: Seq<char>, l: Language) -> bool {
    match l {
        Language::Rust => kind == "function_item"@ || kind == "impl_item"@ || kind == "trait_item"@
            || kind == "struct_item"@ || kind == "enum_item"@ || kind == "mod_item"@,
        Language::Python => kind == "function_definition"@ || kind == "class_definition"@,
        Language::JavaScript | Language::TypeScript => kind == "function_declaration"@ || kind
            == "method_definition"@ || kind == "class_declaration"@ || kind == "arrow_function"@
            || kind == "function_expression"@,
        Language::Go => kind == "function_declaration"@ || kind == "method_declaration"@ || kind
            == "type_spec"@,
        Language::CSharp => kind == "method_declaration"@ || kind == "constructor_declaration"@
            || kind == "property_declaration"@ || kind == "class_declaration"@ || kind
            == "interface_declaration"@ || kind == "struct_declaration"@ || kind
            == "namespace_declaration"@,
        Language::Java => kind == "method_declaration"@ || kind == "constructor_declaration"@
            || kind == "class_declaration"@ || kind == "interface_declaration"@ || kind
            == "enum_declaration"@,
        Language::Haskell => kind == "declaration"@,
        Language::Html | Language::Css | Language::Swift => false,
    }
}

/// Whether node `i` opens a scope for usages.
pub fn is_usage_context_node(tree: &SyntaxTree, i: usize, language: Language) -> (r: bool)
    requires
        i < tree.len(),
    ensures
        r == usage_context_kind(tree.kind(i as int), language),
{
    match language {
        Language::Rust => tree.kind_is(i, "function_item") || tree.kind_is(i, "impl_item")
            || tree.kind_is(i, "trait_item") || tree.kind_is(i, "struct_item") || tree.kind_is(
            i,
            "enum_item",
        ) || tree.kind_is(i, "mod_item"),
        Language::Python => tree.kind_is(i, "function_definition") || tree.kind_is(
            i,
            "class_definition",
        ),
        Language::JavaScript | Language::TypeScript => tree.kind_is(i, "function_declaration")
            || tree.kind_is(i, "method_definition") || tree.kind_is(i, "class_declaration")
            || tree.kind_is(i, "arrow_function") || tree.kind_is(i, "function_expression"),
        Language::Go => tree.kind_is(i, "function_declaration") || tree.kind_is(
            i,
            "method_declaration",
        ) || tree.kind_is(i, "type_spec"),
        Language::CSharp => tree.kind_is(i, "method_declaration") || tree.kind_is(
            i,
            "constructor_declaration",
        ) || tree.kind_is(i, "property_declaration") || tree.kind_is(i, "class_declaration")
            || tree.kind_is(i, "interface_declaration") || tree.kind_is(i, "struct_declaration")
            || tree.kind_is(i, "namespace_declaration"),
        Language::Java => tree.kind_is(i, "method_declaration") || tree.kind_is(
            i,
            "constructor_declaration",
        ) || tree.kind_is(i, "class_declaration") || tree.kind_is(i, "interface_declaration")
            || tree.kind_is(i, "enum_declaration"),
        Language::Haskell => tree.kind_is(i, "declaration"),
        Language::Html | Language::Css | Language::Swift => false,
    }
}

/// The scope token of the first node of `cs` whose kind passes `pick`.
pub open spec fn first_token_where(t: SyntaxTree, cs: Seq<usize>, impl_child: bool) -> Option<Seq<char>>
    decreases cs.len(),
{
    if cs.len() == 0 {
        None
    } else if (impl_child && (contains(t.kind(cs[0] as int), "type_identifier"@) || t.kind(
        cs[0] as int,
    ) == "scoped_type_identifier"@)) || (!impl_child && contains(
        t.kind(cs[0] as int),
        "identifier"@,
    )) {
        Some(scope_token(t.text(cs[0] as int)))
    } else {
        first_token_where(t, cs.drop_first(), impl_child)
    }
}

/// The scope token of the first child of `i` that is a type (for impl
/// blocks) or an identifier.
fn first_token_child(tree: &SyntaxTree, i: usize, impl_child: bool) -> (r: Option<String>)
    requires
        tree.wf(),
        i < tree.len(),
    ensures
        match r {
            Some(s) => first_token_where(*tree, tree.children(i as int), impl_child) == Some(s@),
            None => first_token_where(*tree, tree.children(i as int), impl_child) is None,
        },
{
    let cs = tree.children_of(i);
    let mut k: usize = 0;
    assert(cs@.skip(0) =~= cs@);
    while k < cs.len()
        invariant
            tree.wf(),
            forall|j: int| 0 <= j < cs@.len() ==> (#[trigger] cs@[j]) < tree.len(),
            cs@ == tree.children(i as int),
            k <= cs.len(),
            first_token_where(*tree, cs@, impl_child) == first_token_where(
                *tree,
                cs@.skip(k as int),
                impl_child,
            ),
        decreases cs.len() - k,
    {
        let c = cs[k];
        assert(cs@.skip(k as int)[0] == c);
        let kind = chars_of(tree.nodes[c].kind.as_str());
        let pick = if impl_child {
            contains_lit(kind.as_slice(), "type_identifier") || tree.kind_is(
                c,
                "scoped_type_identifier",
            )
        } else {
            contains_lit(kind.as_slice(), "identifier")
        };
        if pick {
            let text = chars_of(tree.node_text(c).as_str());
            return Some(normalize_scope_token(text.as_slice()));
        }
        assert(cs@.skip(k as int).drop_first() =~= cs@.skip(k + 1));
        k = k + 1;
    }
    None
}

/// Scope name of a named node: the scope token of its `name`, `property` or
/// `field` child, else of its first identifier child.
pub open spec fn named_field_scope(t: SyntaxTree, i: int) -> Option<Seq<char>> {
    match t.child_by_field(i, "name"@) {
        Some(n) => Some(scope_token(t.text(n as int))),
        None => match t.child_by_field(i, "property"@) {
            Some(n) => Some(scope_token(t.text(n as int))),
            None => match t.child_by_field(i, "field"@) {
                Some(n) => Some(scope_token(t.text(n as int))),
                None => first_token_where(t, t.children(i), false),
            },
        },
    }
}

/// Scope name of node `i`: for impl blocks the implemented type, for
/// methods their name as written, for others their named field.
pub open spec fn scope_name(t: SyntaxTree, i: int) -> Option<Seq<char>> {
    if t.kind(i) == "impl_item"@ {
        match t.child_by_field(i, "type"@) {
            Some(n) => Some(scope_token(t.text(n as int))),
            None => first_token_where(t, t.children(i), true),
        }
    } else if t.kind(i) == "method_declaration"@ || t.kind(i) == "method_definition"@ {
        match t.child_by_field(i, "name"@) {
            Some(n) => Some(t.text(n as int)),
            None => match t.child_by_field(i, "property"@) {
                Some(n) => Some(t.text(n as int)),
                None => match t.child_by_field(i, "field"@) {
                    Some(n) => Some(t.text(n as int)),
                    None => named_field_scope(t, i),
                },
            },
        }
    } else {
        named_field_scope(t, i)
    }
}

fn extract_named_field(tree: &SyntaxTree, i: usize) -> (r: Option<String>)
    requires
        tree.wf(),
        i < tree.len(),
    ensures
        match r {
            Some(s) => named_field_scope(*tree, i as int) == Some(s@),
            None => named_field_scope(*tree, i as int) is None,
        },
{
    if let Some(n) = tree.child_by_field_name(i, "name") {
        return Some(normalize_scope_token(chars_of(tree.node_text(n).as_str()).as_slice()));
    }
    if let Some(n) = tree.child_by_field_name(i, "property") {
        return Some(normalize_scope_token(chars_of(tree.node_text(n).as_str()).as_slice()));
    }
    if let Some(n) = tree.child_by_field_name(i, "field") {
        return Some(normalize_scope_token(chars_of(tree.node_text(n).as_str()).as_slice()));
    }
    first_token_child(tree, i, false)
}

/// The scope name of node `i` (see `scope_name`).
pub fn extract_scope_name(tree: &SyntaxTree, i: usize) -> (r: Option<String>)
    requires
        tree.wf(),
        i < tree.len(),
    ensures
        match r {
            Some(s) => scope_name(*tree, i as int) == Some(s@),
            None => scope_name(*tree, i as int) is None,
        },
{
    if tree.kind_is(i, "impl_item") {
        if let Some(n) = tree.child_by_field_name(i, "type") {
            return Some(normalize_scope_token(chars_of(tree.node_text(n).as_str()).as_slice()));
        }
        return first_token_child(tree, i, true);
    }
    if tree.kind_is(i, "method_declaration") || tree.kind_is(i, "method_definition") {
        if let Some(n) = tree.child_by_field_name(i, "name") {
            return Some(tree.node_text(n));
        }
        if let Some(n) = tree.child_by_field_name(i, "property") {
            return Some(tree.node_text(n));
        }
        if let Some(n) = tree.child_by_field_name(i, "field") {
            return Some(tree.node_text(n));
        }
        return extract_named_field(tree, i);
    }
    extract_named_field(tree, i)
}

/// Scope names from node `i` up to the root, innermost first.
pub open spec fn scope_parts(t: SyntaxTree, i: int, l: Language) -> Seq<Seq<char>>
    decreases i,
{
    if i < 0 || i >= t.len() {
        seq![]
    } else {
        let here = if usage_context_kind(t.kind(i), l) && scope_name(t, i) is Some {
            seq![scope_name(t, i).unwrap()]
        } else {
            seq![]
        };
        let up = match t.parent(i) {
            Some(p) => if p < i {
                scope_parts(t, p as int, l)
            } else {
                seq![]
            },
            None => seq![],
        };
        here + up
    }
}

/// The scope of node `i`: the scope names around it, outermost first,
/// joined by `::`.
pub fn scope_for_node(tree: &SyntaxTree, i: usize, language: Language) -> (r: String)
    requires
        tree.wf(),
        i < tree.len(),
    ensures
        r@ == join(scope_parts(*tree, i as int, language).reverse(), "::"@),
{
    let mut parts: Vec<String> = Vec::new();
    let mut node = i;
    loop
        invariant
            tree.wf(),
            node < tree.len(),
            scope_parts(*tree, i as int, language) == views(parts@) + scope_parts(
                *tree,
                node as int,
                language,
            ),
        decreases node,
    {
        let ghost before = parts@;
        if is_usage_context_node(tree, node, language) {
            if let Some(name) = extract_scope_name(tree, node) {
                parts.push(name);
            }
        }
        let ghost here = if usage_context_kind(tree.kind(node as int), language) && scope_name(
            *tree,
            node as int,
        ) is Some {
            seq![scope_name(*tree, node as int).unwrap()]
        } else {
            seq![]
        };
        assert(views(parts@) =~= views(before) + here);
        match tree.nodes[node].parent {
            Some(p) => {
                assert(node > 0);
                assert(scope_parts(*tree, node as int, language) == here + scope_parts(
                    *tree,
                    p as int,
                    language,
                ));
                assert(views(before) + (here + scope_parts(*tree, p as int, language)) =~= views(
                    parts@,
                ) + scope_parts(*tree, p as int, language));
                node = p;
            },
            None => {
                assert(scope_parts(*tree, node as int, language) =~= here);
                assert(scope_parts(*tree, i as int, language) =~= views(parts@));
                // Outermost first.
                let mut rev: Vec<String> = Vec::new();
                let mut k = parts.len();
                while k > 0
                    invariant
                        k <= parts.len(),
                        rev@.len() == parts@.len() - k,
                        forall|j: int|
                            0 <= j < rev@.len() ==> (#[trigger] rev@[j])@ == views(
                                parts@,
                            ).reverse()[j],
                    decreases k,
                {
                    k = k - 1;
                    assert(views(parts@).reverse()[(parts.len() - k - 1) as int] == parts@[k as int]@);
                    let ghost old_rev = rev@;
                    rev.push(parts[k].clone());
                    assert(forall|j: int| 0 <= j < old_rev.len() ==> rev@[j] == old_rev[j]);
                }
                assert(views(rev@) =~= views(parts@).reverse());
                return join_strings(&rev, "::");
            },
        }
    }
}

} // verus!

verus! {

/// Owner hint from the parent's owner fields, tried in order: the owner of
/// the first of them that is not the node itself and names an owner.
pub open spec fn owner_from_fields(t: SyntaxTree, p: int, i: int, fields: Seq<Seq<char>>) -> Option<
    Seq<char>,
>
    decreases fields.len(),
{
    if fields.len() == 0 {
        None
    } else {
        match t.child_by_field(p, fields[0]) {
            Some(c) => if c != i && owner_of_text(t.text(c as int)) is Some {
                owner_of_text(t.text(c as int))
            } else {
                owner_from_fields(t, p, i, fields.drop_first())
            },
            None => owner_from_fields(t, p, i, fields.drop_first()),
        }
    }
}

/// The fields of a parent that may name the owner of a child.
pub open spec fn owner_fields() -> Seq<Seq<char>> {
    seq!["function"@, "receiver"@, "object"@, "value"@, "argument"@, "module"@, "scope"@]
}

/// Among `cs`, the named node just before `i` when `i` is named: `Some(None)`
/// when `i` is the first named one, none when `i` is not a named node of `cs`.
pub open spec fn prev_named(t: SyntaxTree, cs: Seq<usize>, i: int, last: Option<usize>) -> Option<
    Option<usize>,
>
    decreases cs.len(),
{
    if cs.len() == 0 {
        None
    } else if cs[0] == i {
        if t.nodes@[i].named {
            Some(last)
        } else {
            None
        }
    } else if 0 <= cs[0] < t.len() && t.nodes@[cs[0] as int].named {
        prev_named(t, cs.drop_first(), i, Some(cs[0]))
    } else {
        prev_named(t, cs.drop_first(), i, last)
    }
}

/// The owner hint of node `i`: what one of its parent's owner fields names,
/// else what the named sibling before it names.
pub open spec fn owner_hint_of(t: SyntaxTree, i: int) -> Option<Seq<char>> {
    match t.parent(i) {
        None => None,
        Some(p) => match owner_from_fields(t, p as int, i, owner_fields()) {
            Some(o) => Some(o),
            None => match prev_named(t, t.children(p as int), i, None) {
                Some(Some(q)) => owner_of_text(t.text(q as int)),
                _ => None,
            },
        },
    }
}

fn owner_field_list() -> (r: Vec<&'static str>)
    ensures
        r@.map_values(|s: &str| s@) == owner_fields(),
{
    let r = vec!["function", "receiver", "object", "value", "argument", "module", "scope"];
    assert(r@.map_values(|s: &str| s@) =~= owner_fields());
    r
}

/// The owner hint of node `i` (see `owner_hint_of`).
pub fn owner_hint(tree: &SyntaxTree, i: usize) -> (r: Option<String>)
    requires
        tree.wf(),
        i < tree.len(),
    ensures
        match r {
            Some(s) => owner_hint_of(*tree, i as int) == Some(s@),
            None => owner_hint_of(*tree, i as int) is None,
        },
{
    let p = match tree.nodes[i].parent {
        None => return None,
        Some(p) => p,
    };
    assert(p < i);
    let fields = owner_field_list();
    let ghost fs = owner_fields();
    let mut k: usize = 0;
    assert(fs.skip(0) =~= fs);
    while k < fields.len()
        invariant
            tree.wf(),
            p < tree.len(),
            i < tree.len(),
            tree.nodes@[i as int].parent == Some(p),
            fields@.map_values(|s: &str| s@) == fs,
            fs == owner_fields(),
            k <= fields.len(),
            owner_from_fields(*tree, p as int, i as int, fs) == owner_from_fields(
                *tree,
                p as int,
                i as int,
                fs.skip(k as int),
            ),
        decreases fields.len() - k,
    {
        assert(fs.skip(k as int)[0] == fields@[k as int]@);
        assert(fs.skip(k as int).drop_first() =~= fs.skip(k + 1));
        if let Some(c) = tree.child_by_field_name(p, fields[k]) {
            if c != i {
                let text = chars_of(tree.node_text(c).as_str());
                if let Some(o) = normalize_owner_hint(text.as_slice()) {
                    return Some(o);
                }
            }
        }
        k = k + 1;
    }
    assert(fs.skip(fields.len() as int) =~= Seq::<Seq<char>>::empty());
    let cs = tree.children_of(p);
    let mut last: Option<usize> = None;
    let mut j: usize = 0;
    assert(cs@.skip(0) =~= cs@);
    while j < cs.len()
        invariant
            tree.wf(),
            i < tree.len(),
            tree.nodes@[i as int].parent == Some(p),
            cs@ == tree.children(p as int),
            owner_from_fields(*tree, p as int, i as int, owner_fields()) is None,
            forall|q: int| 0 <= q < cs@.len() ==> (#[trigger] cs@[q]) < tree.len(),
            j <= cs.len(),
            last matches Some(q) ==> q < tree.len(),
            prev_named(*tree, cs@, i as int, None) == prev_named(
                *tree,
                cs@.skip(j as int),
                i as int,
                last,
            ),
        decreases cs.len() - j,
    {
        let c = cs[j];
        assert(cs@.skip(j as int)[0] == c);
        assert(cs@.skip(j as int).drop_first() =~= cs@.skip(j + 1));
        if c == i {
            if !tree.nodes[i].named {
                return None;
            }
            return match last {
                Some(q) => {
                    let text = chars_of(tree.node_text(q).as_str());
                    normalize_owner_hint(text.as_slice())
                },
                None => None,
            };
        }
        if tree.nodes[c].named {
            last = Some(c);
        }
        j = j + 1;
    }
    None
}

/// A limit on the total number of context lines.
#[derive(Debug, Clone, Copy)]
pub struct ContextBudget {
    pub max_total_lines: Option<u32>,
    pub used_lines: u32,
}

/// Whether `additional` lines still fit.
pub open spec fn budget_allows(b: ContextBudget, additional: int) -> bool {
    match b.max_total_lines {
        None => true,
        Some(max) => b.used_lines + additional <= max,
    }
}

/// Lines used after `additional` more are taken (at most `u32::MAX`; only
/// reached without a limit).
pub open spec fn budget_used_after(b: ContextBudget, additional: int) -> int {
    if b.used_lines + additional <= 0xFFFF_FFFF {
        b.used_lines + additional
    } else {
        0xFFFF_FFFF
    }
}

impl ContextBudget {
    /// A budget with nothing used.
    pub fn new(max_total_lines: Option<u32>) -> (r: Self)
        ensures
            r.max_total_lines == max_total_lines,
            r.used_lines == 0,
    {
        ContextBudget { max_total_lines, used_lines: 0 }
    }

    /// Whether `additional` more lines fit in the budget.
    pub fn can_add_lines(&self, additional: u32) -> (r: bool)
        ensures
            r == budget_allows(*self, additional as int),
    {
        match self.max_total_lines {
            None => true,
            Some(max) => (self.used_lines as u64) + (additional as u64) <= max as u64,
        }
    }

    /// Take `additional` lines when they fit; whether they did.
    pub fn add_lines(&mut self, additional: u32) -> (r: bool)
        ensures
            r == budget_allows(*old(self), additional as int),
            final(self).max_total_lines == old(self).max_total_lines,
            final(self).used_lines == if r {
                budget_used_after(*old(self), additional as int)
            } else {
                old(self).used_lines as int
            },
    {
        if self.can_add_lines(additional) {
            let total = (self.used_lines as u64) + (additional as u64);
            self.used_lines = if total <= 0xFFFF_FFFFu64 {
                total as u32
            } else {
                0xFFFF_FFFFu32
            };
            true
        } else {
            false
        }
    }

    /// Whether the budget is zero lines.
    pub fn max_is_zero(&self) -> (r: bool)
        ensures
            r == (self.max_total_lines == Some(0u32)),
    {
        match self.max_total_lines {
            Some(m) => m == 0,
            None => false,
        }
    }
}

/// Lines `line - context .. line + context` (0-based, clipped to the source)
/// joined by newlines; empty when `line` lies past them.
pub open spec fn context_text(source: Seq<char>, line: int, context: int) -> Seq<char> {
    let ls = lines(source);
    let start = if line >= context {
        line - context
    } else {
        0
    };
    let end = if line + context + 1 < ls.len() {
        line + context + 1
    } else {
        ls.len() as int
    };
    if start <= end {
        join(ls.subrange(start, end), "\n"@)
    } else {
        seq![]
    }
}

/// The lines around 0-based `line` (see `context_text`).
pub fn extract_code_with_context(source: &[char], line: usize, context_lines: u32) -> (r: String)
    ensures
        r@ == context_text(source@, line as int, context_lines as int),
{
    let lb = line_bounds(source);
    let ghost ls = lines(source@);
    let c = context_lines as usize;
    let start = if line >= c {
        line - c
    } else {
        0
    };
    let end = if line < lb.len() && lb.len() - line - 1 > c {
        line + c + 1
    } else {
        lb.len()
    };
    assert(end == (if line + c + 1 < ls.len() { line + c + 1 } else { ls.len() as int }));
    if start > end {
        return String::new();
    }
    let mut out = String::new();
    let mut j = start;
    while j < end
        invariant
            ls == lines(source@),
            lb@.len() == ls.len(),
            forall|q: int|
                0 <= q < lb@.len() ==> {
                    &&& (#[trigger] lb@[q]).0 <= lb@[q].1 <= source@.len()
                    &&& source@.subrange(lb@[q].0 as int, lb@[q].1 as int) == ls[q]
                },
            start <= j <= end <= lb.len(),
            out@ == join(ls.subrange(start as int, j as int), "\n"@),
        decreases end - j,
    {
        let (a, b) = lb[j];
        if j > start {
            push_str(&mut out, "\n");
        }
        let piece = slice_range(source, a, b);
        push_chars(&mut out, piece.as_slice());
        proof {
            let p = ls.subrange(start as int, j + 1);
            assert(p.drop_last() =~= ls.subrange(start as int, j as int));
            assert(p.last() == ls[j as int]);
            if j == start {
                assert(p.len() == 1);
                assert(out@ =~= p[0]);
            }
        }
        j = j + 1;
    }
    out
}

} // verus!

verus! {

/// Identifier node kinds.
pub open spec fn ident_kind(k: Seq<char>) -> bool {
    k == "identifier"@ || ends_with(k, "_identifier"@)
}

/// The view of a usage row.
pub open spec fn row_view(u: UsageRow) -> (
    Seq<char>,
    usize,
    usize,
    Seq<char>,
    Seq<char>,
    Seq<char>,
    Seq<char>,
    Option<Seq<char>>,
) {
    (
        u.file@,
        u.line,
        u.column,
        u.usage_type@,
        u.context@,
        u.scope@,
        u.confidence@,
        match u.owner_hint {
            Some(o) => Some(o@),
            None => None,
        },
    )
}

/// Context of a usage at node `i`: nothing when the budget is zero lines.
pub open spec fn usage_context(t: SyntaxTree, i: int, context_lines: u32, zero: bool) -> Seq<char> {
    if zero {
        seq![]
    } else {
        context_text(t.source@, t.nodes@[i].start_row as int, context_lines as int)
    }
}

/// The row for a usage at node `i`, with low confidence before scoring.
pub open spec fn usage_row_at(
    t: SyntaxTree,
    i: int,
    path: Seq<char>,
    l: Language,
    context_lines: u32,
    zero: bool,
) -> (Seq<char>, usize, usize, Seq<char>, Seq<char>, Seq<char>, Seq<char>, Option<Seq<char>>) {
    (
        path,
        (t.nodes@[i].start_row + 1) as usize,
        (t.nodes@[i].start_col + 1) as usize,
        usage_kind(t, i),
        usage_context(t, i, context_lines, zero),
        join(scope_parts(t, i, l).reverse(), "::"@),
        "low"@,
        owner_hint_of(t, i),
    )
}

/// Searching nodes `k..` for identifiers whose text is `symbol`: the rows
/// found, whether the search ran to the end (it stops at the first usage
/// whose context lines no longer fit the budget), and the budget after.
pub open spec fn usage_search(
    t: SyntaxTree,
    symbol: Seq<char>,
    path: Seq<char>,
    l: Language,
    context_lines: u32,
    b: ContextBudget,
    k: int,
) -> (Seq<(Seq<char>, usize, usize, Seq<char>, Seq<char>, Seq<char>, Seq<char>, Option<Seq<char>>)>, bool, ContextBudget)
    decreases t.len() - k,
{
    if k < 0 || k >= t.len() {
        (seq![], true, b)
    } else if !(ident_kind(t.kind(k)) && t.text(k) == symbol) {
        usage_search(t, symbol, path, l, context_lines, b, k + 1)
    } else {
        let zero = b.max_total_lines == Some(0u32);
        let ctx = usage_context(t, k, context_lines, zero);
        let n = (lines(ctx).len() as u32) as int;
        if !budget_allows(b, n) {
            (seq![], false, b)
        } else {
            let b2 = ContextBudget { max_total_lines: b.max_total_lines, used_lines: budget_used_after(b, n) as u32 };
            let rest = usage_search(t, symbol, path, l, context_lines, b2, k + 1);
            (seq![usage_row_at(t, k, path, l, context_lines, zero)] + rest.0, rest.1, rest.2)
        }
    }
}

/// Find the identifiers of `tree` whose text is `symbol`, in preorder, and
/// append a row for each to `usages` while the context budget lasts; false
/// when the budget ran out (see `usage_search`).
pub fn find_identifiers(
    tree: &SyntaxTree,
    path: &str,
    symbol: &str,
    language: Language,
    context_lines: u32,
    budget: &mut ContextBudget,
    usages: &mut Vec<UsageRow>,
) -> (r: bool)
    requires
        tree.wf(),
    ensures
        r == usage_search(*tree, symbol@, path@, language, context_lines, *old(budget), 0).1,
        *final(budget) == usage_search(*tree, symbol@, path@, language, context_lines, *old(budget), 0).2,
        final(usages)@.map_values(|u: UsageRow| row_view(u)) == old(usages)@.map_values(
            |u: UsageRow| row_view(u),
        ) + usage_search(*tree, symbol@, path@, language, context_lines, *old(budget), 0).0,
{
    let ghost total = usage_search(*tree, symbol@, path@, language, context_lines, *old(budget), 0);
    let ghost start_rows = old(usages)@.map_values(|u: UsageRow| row_view(u));
    let sym = chars_of(symbol);
    let mut k: usize = 0;
    while k < tree.nodes.len()
        invariant
            tree.wf(),
            k <= tree.len(),
            sym@ == symbol@,
            total == usage_search(*tree, symbol@, path@, language, context_lines, *old(budget), 0),
            start_rows == old(usages)@.map_values(|u: UsageRow| row_view(u)),
            ({
                let rest = usage_search(*tree, symbol@, path@, language, context_lines, *budget, k as int);
                &&& total.1 == rest.1
                &&& total.2 == rest.2
                &&& start_rows + total.0 == usages@.map_values(|u: UsageRow| row_view(u)) + rest.0
            }),
        decreases tree.nodes.len() - k,
    {
        let kind = chars_of(tree.nodes[k].kind.as_str());
        let is_ident = eq_lit(kind.as_slice(), "identifier") || ends_with_lit(
            kind.as_slice(),
            "_identifier",
        );
        if is_ident {
            let text = chars_of(tree.node_text(k).as_str());
            if chars_eq(text.as_slice(), sym.as_slice()) {
                let zero = budget.max_is_zero();
                let context = if zero {
                    String::new()
                } else {
                    extract_code_with_context(
                        tree.source.as_slice(),
                        tree.nodes[k].start_row,
                        context_lines,
                    )
                };
                let cc = chars_of(context.as_str());
                let lb = line_bounds(cc.as_slice());
                let n: u32 = if zero {
                    0
                } else {
                    #[verifier::truncate]
                    (lb.len() as u32)
                };
                assert(zero ==> context@.len() == 0);
                assert(zero ==> lines(context@) =~= Seq::<Seq<char>>::empty());
                let ghost b0 = *budget;
                assert(lb@.len() == lines(usage_context(*tree, k as int, context_lines, zero)).len());
                if !budget.add_lines(n) {
                    assert(*budget == b0);
                    proof {
                        let rest = usage_search(*tree, symbol@, path@, language, context_lines, b0, k as int);
                        assert(rest.1 == false);
                        assert(rest.2 == b0);
                        assert(total.2 == b0);
                        assert(total.1 == false);
                        assert(rest.0 =~= Seq::<(Seq<char>, usize, usize, Seq<char>, Seq<char>, Seq<char>, Seq<char>, Option<Seq<char>>)>::empty());
                        let f = |u: UsageRow| row_view(u);
                        assert(usages@.map_values(f) + rest.0 =~= usages@.map_values(f));
                        assert(usages@.map_values(f) =~= start_rows + total.0);
                    }
                    return false;
                }
                let row = UsageRow {
                    file: path.to_string(),
                    line: tree.nodes[k].start_row + 1,
                    column: tree.nodes[k].start_col + 1,
                    usage_type: classify_usage_type(tree, k),
                    context,
                    scope: scope_for_node(tree, k, language),
                    confidence: "low".to_string(),
                    owner_hint: owner_hint(tree, k),
                };
                let ghost before = usages@;
                usages.push(row);
                proof {
                    let f = |u: UsageRow| row_view(u);
                    assert(usages@.map_values(f) =~= before.map_values(f).push(row_view(row)));
                    assert(*budget == ContextBudget { max_total_lines: b0.max_total_lines, used_lines: budget_used_after(b0, n as int) as u32 });
                }
            }
        }
        k = k + 1;
    }
    true
}


/// A usage row as plain values.
pub type UsageView = (Seq<char>, usize, usize, Seq<char>, Seq<char>, Seq<char>, Seq<char>, Option<
    Seq<char>,
>);

/// Usages are ordered by file, line, column, usage type and scope.
pub open spec fn usage_before(a: UsageView, b: UsageView) -> bool {
    ||| text_order(a.0, b.0) < 0
    ||| a.0 == b.0 && a.1 < b.1
    ||| a.0 == b.0 && a.1 == b.1 && a.2 < b.2
    ||| a.0 == b.0 && a.1 == b.1 && a.2 == b.2 && text_order(a.3, b.3) < 0
    ||| a.0 == b.0 && a.1 == b.1 && a.2 == b.2 && a.3 == b.3 && text_order(a.5, b.5) < 0
}

pub open spec fn comes_after(d: UsageView) -> spec_fn(UsageView) -> bool {
    |e: UsageView| usage_before(d, e)
}

/// `d` put before the first usage that comes after it (so after the ones
/// equal to it: the sort is stable).
pub open spec fn insert_usage(s: Seq<UsageView>, d: UsageView) -> Seq<UsageView> {
    match crate::analysis::call_graph::first_where(s, comes_after(d)) {
        None => s.push(d),
        Some(i) => s.insert(i, d),
    }
}

/// The usages stably sorted by file, line, column, usage type and scope.
pub open spec fn sort_usage_views(raw: Seq<UsageView>) -> Seq<UsageView>
    decreases raw.len(),
{
    if raw.len() == 0 {
        seq![]
    } else {
        insert_usage(sort_usage_views(raw.drop_last()), raw.last())
    }
}

pub open spec fn usage_views(v: Seq<UsageRow>) -> Seq<UsageView> {
    v.map_values(|u: UsageRow| row_view(u))
}

fn usage_before_exec(a: &UsageRow, b: &UsageRow) -> (r: bool)
    ensures
        r == usage_before(row_view(*a), row_view(*b)),
{
    let f = compare_strs(a.file.as_str(), b.file.as_str());
    proof {
        lemma_text_order_zero(a.file@, b.file@);
    }
    if f != 0 {
        return f < 0;
    }
    if a.line != b.line {
        return a.line < b.line;
    }
    if a.column != b.column {
        return a.column < b.column;
    }
    let t = compare_strs(a.usage_type.as_str(), b.usage_type.as_str());
    proof {
        lemma_text_order_zero(a.usage_type@, b.usage_type@);
    }
    if t != 0 {
        return t < 0;
    }
    compare_strs(a.scope.as_str(), b.scope.as_str()) < 0
}

/// A copy of a usage row.
pub fn copy_usage(u: &UsageRow) -> (r: UsageRow)
    ensures
        row_view(r) == row_view(*u),
{
    UsageRow {
        file: u.file.clone(),
        line: u.line,
        column: u.column,
        usage_type: u.usage_type.clone(),
        context: u.context.clone(),
        scope: u.scope.clone(),
        confidence: u.confidence.clone(),
        owner_hint: match &u.owner_hint {
            Some(o) => Some(o.clone()),
            None => None,
        },
    }
}

/// The usages stably sorted by file, line, column, usage type and scope
/// (see `sort_usage_views`).
pub fn sort_usages(raw: &Vec<UsageRow>) -> (r: Vec<UsageRow>)
    ensures
        usage_views(r@) == sort_usage_views(usage_views(raw@)),
{
    let ghost rv = usage_views(raw@);
    let mut out: Vec<UsageRow> = Vec::new();
    let mut k: usize = 0;
    assert(usage_views(out@) =~= sort_usage_views(rv.take(0)));
    while k < raw.len()
        invariant
            k <= raw.len(),
            rv == usage_views(raw@),
            usage_views(out@) == sort_usage_views(rv.take(k as int)),
        decreases raw.len() - k,
    {
        let d = copy_usage(&raw[k]);
        assert(rv.take(k + 1).drop_last() =~= rv.take(k as int));
        assert(rv.take(k + 1).last() == row_view(d));
        let ghost s = usage_views(out@);
        let mut i: usize = 0;
        while i < out.len() && !usage_before_exec(&d, &out[i])
            invariant
                i <= out.len(),
                s == usage_views(out@),
                forall|j: int| 0 <= j < i ==> !comes_after(row_view(d))(#[trigger] s[j]),
            decreases out.len() - i,
        {
            assert(!comes_after(row_view(d))(s[i as int]));
            i = i + 1;
        }
        proof {
            let p = comes_after(row_view(d));
            crate::analysis::call_graph::lemma_first_where(s, p);
            if i < out.len() {
                assert(p(s[i as int]));
                match crate::analysis::call_graph::first_where(s, p) {
                    Some(m) => {
                        if m < i {
                            assert(!p(s[m]));
                        } else if m > i {
                            assert(!p(s[i as int]));
                        }
                    },
                    None => {
                        assert(!p(s[i as int]));
                    },
                }
            } else {
                if let Some(m) = crate::analysis::call_graph::first_where(s, p) {
                    assert(!p(s[m]));
                }
            }
        }
        let ghost dv = row_view(d);
        if i == out.len() {
            out.push(d);
            assert(usage_views(out@) =~= s.push(dv));
        } else {
            out.insert(i, d);
            assert(usage_views(out@) =~= s.insert(i as int, dv));
        }
        k = k + 1;
    }
    assert(rv.take(raw.len() as int) =~= rv);
    out
}

/// The row of a usage: `file|line|col|type|context|scope|conf|owner`.
pub open spec fn usage_row_text(u: UsageView) -> Seq<char> {
    row_text(
        seq![
            u.0,
            decimal(u.1 as nat),
            decimal(u.2 as nat),
            u.3,
            u.4,
            u.5,
            u.6,
            match u.7 {
                Some(o) => o,
                None => seq![],
            },
        ],
    )
}

/// The rows of the usages joined with newlines; the header is not part of
/// them.
pub fn usages_to_rows(usages: &Vec<UsageRow>, _header: &str) -> (r: String)
    ensures
        r@ == join(usage_views(usages@).map_values(|u: UsageView| usage_row_text(u)), seq!['\n']),
{
    let ghost uv = usage_views(usages@);
    let mut rows: Vec<String> = Vec::new();
    let mut i: usize = 0;
    while i < usages.len()
        invariant
            i <= usages.len(),
            uv == usage_views(usages@),
            crate::text::views(rows@) == uv.take(i as int).map_values(|u: UsageView| usage_row_text(u)),
        decreases usages.len() - i,
    {
        let u = &usages[i];
        let mut fields: Vec<String> = Vec::new();
        fields.push(u.file.clone());
        fields.push(decimal_string(u.line));
        fields.push(decimal_string(u.column));
        fields.push(u.usage_type.clone());
        fields.push(u.context.clone());
        fields.push(u.scope.clone());
        fields.push(u.confidence.clone());
        fields.push(
            match &u.owner_hint {
                Some(o) => o.clone(),
                None => String::new(),
            },
        );
        let ghost uvi = row_view(*u);
        let ghost expected = seq![
            uvi.0,
            decimal(uvi.1 as nat),
            decimal(uvi.2 as nat),
            uvi.3,
            uvi.4,
            uvi.5,
            uvi.6,
            match uvi.7 {
                Some(o) => o,
                None => seq![],
            },
        ];
        assert(crate::text::views(fields@) =~= expected);
        assert(usage_row_text(uvi) == row_text(expected));
        let row = format_row(&fields);
        assert(row@ == usage_row_text(row_view(*u)));
        let ghost before = crate::text::views(rows@);
        rows.push(row);
        assert(uv[i as int] == row_view(*u));
        assert(crate::text::views(rows@) =~= before.push(usage_row_text(uv[i as int])));
        assert(uv.take(i + 1).map_values(|u: UsageView| usage_row_text(u)) =~= uv.take(
            i as int,
        ).map_values(|u: UsageView| usage_row_text(u)).push(usage_row_text(uv[i as int])));
        i = i + 1;
    }
    assert(uv.take(usages.len() as int) =~= uv);
    join_rows(&rows)
}

/// Why a file could not be searched.
#[derive(Debug)]
pub enum SearchError {
    /// The language of the file is not supported.
    Language(crate::parser::LanguageError),
    /// The file could not be parsed.
    Parse(crate::parser::ParseError),
}

/// Search the source of one file for usages of `symbol` (see
/// `find_identifiers`): the language is told by the path and the source
/// parsed; errors when the language is not supported or the source does
/// not parse, and then nothing is added.
pub fn search_source(
    path: &str,
    source: &str,
    symbol: &str,
    context_lines: u32,
    budget: &mut ContextBudget,
    usages: &mut Vec<UsageRow>,
) -> (r: Result<bool, SearchError>)
    ensures
        crate::analysis::call_graph::path_language(path@) is None ==> r matches Err(SearchError::Language(_)),
        r is Err ==> *final(budget) == *old(budget) && final(usages)@ == old(usages)@,
        crate::analysis::call_graph::path_language(path@) matches Some(l) ==> (r is Ok
            <==> crate::parser::parse_nodes(l, source@) is Some),
        crate::analysis::call_graph::path_language(path@) matches Some(l) ==> (r is Err ==> r matches Err(
            SearchError::Parse(_),
        )),
        r matches Ok(done) ==> exists|t: SyntaxTree|
            #![trigger usage_search(t, symbol@, path@, crate::analysis::call_graph::path_language(path@).unwrap(), context_lines, *old(budget), 0)]
            {
                let s = usage_search(
                    t,
                    symbol@,
                    path@,
                    crate::analysis::call_graph::path_language(path@).unwrap(),
                    context_lines,
                    *old(budget),
                    0,
                );
                &&& t.wf()
                &&& crate::parser::tree_is_parse(
                    t,
                    crate::analysis::call_graph::path_language(path@).unwrap(),
                    source@,
                )
                &&& done == s.1
                &&& *final(budget) == s.2
                &&& usage_views(final(usages)@) == usage_views(old(usages)@) + s.0
            },
{
    let language = match crate::parser::detect_language(path) {
        Ok(l) => l,
        Err(e) => return Err(SearchError::Language(e)),
    };
    let tree = match crate::parser::parse_code(source, language) {
        Ok(t) => t,
        Err(e) => return Err(SearchError::Parse(e)),
    };
    let done = find_identifiers(&tree, path, symbol, language, context_lines, budget, usages);
    Ok(done)
}


/// The bytes a usage's row is estimated to take: its texts in UTF-8, its
/// line and column in decimal, and seven for what separates them.
pub open spec fn row_chars(u: UsageView) -> int {
    crate::parser::utf8_len(u.0) + decimal(u.1 as nat).len() + decimal(u.2 as nat).len()
        + crate::parser::utf8_len(u.3) + crate::parser::utf8_len(u.4) + crate::parser::utf8_len(u.5)
        + crate::parser::utf8_len(u.6) + match u.7 {
        Some(h) => crate::parser::utf8_len(h),
        None => 0,
    } + 7
}

/// The estimated tokens of each usage's row (see `row_chars`).
pub open spec fn row_estimates(us: Seq<UsageView>) -> Seq<usize> {
    us.map_values(
        |u: UsageView|
            crate::analysis::budget::estimate_of(crate::analysis::budget::capped(row_chars(u))) as usize,
    )
}

/// The estimated bytes of a usage's row (see `row_chars`), capped at the
/// largest `usize`.
pub fn usage_row_chars(u: &UsageRow) -> (r: usize)
    ensures
        r == crate::analysis::budget::capped(row_chars(row_view(*u))),
{
    proof {
        crate::parser::lemma_utf8_len_nonneg(u.file@);
        crate::parser::lemma_utf8_len_nonneg(u.usage_type@);
        crate::parser::lemma_utf8_len_nonneg(u.context@);
        crate::parser::lemma_utf8_len_nonneg(u.scope@);
        crate::parser::lemma_utf8_len_nonneg(u.confidence@);
        match &u.owner_hint {
            Some(h) => crate::parser::lemma_utf8_len_nonneg(h@),
            None => {},
        }
    }
    let mut n = crate::analysis::budget::utf8_byte_len(u.file.as_str());
    n = crate::analysis::budget::capped_add(n, decimal_string(u.line).as_str().unicode_len());
    n = crate::analysis::budget::capped_add(n, decimal_string(u.column).as_str().unicode_len());
    n = crate::analysis::budget::capped_add(n, crate::analysis::budget::utf8_byte_len(u.usage_type.as_str()));
    n = crate::analysis::budget::capped_add(n, crate::analysis::budget::utf8_byte_len(u.context.as_str()));
    n = crate::analysis::budget::capped_add(n, crate::analysis::budget::utf8_byte_len(u.scope.as_str()));
    n = crate::analysis::budget::capped_add(n, crate::analysis::budget::utf8_byte_len(u.confidence.as_str()));
    let h = match &u.owner_hint {
        Some(h) => crate::analysis::budget::utf8_byte_len(h.as_str()),
        None => 0,
    };
    n = crate::analysis::budget::capped_add(n, h);
    crate::analysis::budget::capped_add(n, 7)
}

/// The rows of the usages under a token budget. Unenforced, all rows.
/// Enforced, a first estimate (see `row_estimates`) admits the usages in
/// order while their sum stays within nine tenths of `max_tokens`; the
/// rows of those are then cut to the exact budget (see
/// `usage_rows_with_budget`), truncated already when some were not
/// admitted.
pub fn build_rows_with_budget(
    usages: &Vec<UsageRow>,
    symbol: &str,
    header: &str,
    max_tokens: usize,
    enforce: bool,
) -> (r: Option<(String, bool)>)
    ensures
        !enforce ==> (r matches Some((s, t)) && !t && s@ == join(
            usage_views(usages@).map_values(|u: UsageView| usage_row_text(u)),
            seq!['\n'],
        )),
        enforce ==> ({
            let uv = usage_views(usages@);
            let k = crate::analysis::budget::admitted_from(
                row_estimates(uv),
                0,
                crate::analysis::budget::estimate_limit_of(max_tokens),
            );
            match fit_usage_rows(uv.take(k), symbol@, header@, max_tokens, k < uv.len()) {
                Some((rows, t)) => r matches Some((s, u)) && s@ == rows && u == t,
                None => r is None,
            }
        }),
{
    if !enforce {
        return Some((usages_to_rows(usages, header), false));
    }
    let ghost uv = usage_views(usages@);
    let mut estimates: Vec<usize> = Vec::new();
    let mut i: usize = 0;
    while i < usages.len()
        invariant
            i <= usages@.len(),
            uv == usage_views(usages@),
            estimates@ == row_estimates(uv).take(i as int),
        decreases usages@.len() - i,
    {
        let c = usage_row_chars(&usages[i]);
        let e = crate::analysis::budget::estimate_symbol_tokens(c);
        estimates.push(e);
        assert(row_estimates(uv).take(i + 1) =~= row_estimates(uv).take(i as int).push(e));
        i = i + 1;
    }
    assert(row_estimates(uv).take(usages.len() as int) =~= row_estimates(uv));
    let limit = crate::analysis::budget::estimate_limit(max_tokens);
    let k = crate::analysis::budget::admitted_count(&estimates, limit);
    let mut kept: Vec<UsageRow> = Vec::new();
    let mut j: usize = 0;
    while j < k
        invariant
            j <= k <= usages@.len(),
            uv == usage_views(usages@),
            usage_views(kept@) == uv.take(j as int),
        decreases k - j,
    {
        let ghost b = usage_views(kept@);
        kept.push(copy_usage(&usages[j]));
        assert(usage_views(kept@) =~= b.push(uv[j as int]));
        assert(uv.take(j + 1) =~= uv.take(j as int).push(uv[j as int]));
        j = j + 1;
    }
    usage_rows_with_budget(&kept, symbol, header, max_tokens, k < usages.len())
}

/// The compact JSON object of usages, keys in order: `@` (only when
/// truncated), `h`, `sym`, `u`.
pub open spec fn usages_json(symbol: Seq<char>, header: Seq<char>, rows: Seq<char>, truncated: bool) -> Option<
    Seq<char>,
> {
    crate::analysis::edit_context::cat(
        crate::analysis::edit_context::cat(
            Some(
                if truncated {
                    "{\"@\":{\"t\":true},"@
                } else {
                    "{"@
                },
            ),
            crate::analysis::edit_context::seg("\"h\":"@, header),
        ),
        crate::analysis::edit_context::cat(
            crate::analysis::edit_context::cat(
                crate::analysis::edit_context::seg(",\"sym\":"@, symbol),
                crate::analysis::edit_context::seg(",\"u\":"@, rows),
            ),
            Some("}"@),
        ),
    )
}

fn seg_text(prefix: &str, value: &str) -> (r: Option<String>)
    ensures
        crate::analysis::edit_context::opt_text(r) == crate::analysis::edit_context::seg(prefix@, value@),
{
    match crate::analysis::call_graph::quote_json(value) {
        Some(q) => {
            let mut out = String::new();
            push_str(&mut out, prefix);
            push_str(&mut out, q.as_str());
            Some(out)
        },
        None => None,
    }
}

fn cat_text(a: Option<String>, b: Option<String>) -> (r: Option<String>)
    ensures
        crate::analysis::edit_context::opt_text(r) == crate::analysis::edit_context::cat(
            crate::analysis::edit_context::opt_text(a),
            crate::analysis::edit_context::opt_text(b),
        ),
{
    match (a, b) {
        (Some(x), Some(y)) => {
            let mut out = x;
            push_str(&mut out, y.as_str());
            Some(out)
        },
        _ => None,
    }
}

fn lit(s: &str) -> (r: String)
    ensures
        r@ == s@,
{
    let mut out = String::new();
    push_str(&mut out, s);
    out
}

/// The JSON text of usages (see `usages_json`).
pub fn usages_result_json(symbol: &str, header: &str, rows: &str, truncated: bool) -> (r: Option<String>)
    ensures
        crate::analysis::edit_context::opt_text(r) == usages_json(symbol@, header@, rows@, truncated),
{
    let open = if truncated {
        lit("{\"@\":{\"t\":true},")
    } else {
        lit("{")
    };
    let a = cat_text(Some(open), seg_text("\"h\":", header));
    let b = cat_text(seg_text(",\"sym\":", symbol), seg_text(",\"u\":", rows));
    cat_text(a, cat_text(b, Some(lit("}"))))
}

/// The rows kept under the budget: all usages when their JSON fits in
/// `max_tokens`, else usages dropped from the end (and the result marked
/// truncated) until it fits; no rows when even none fit; `None` when a text
/// cannot be written as JSON or tokenized.
pub open spec fn fit_usage_rows(
    us: Seq<UsageView>,
    symbol: Seq<char>,
    header: Seq<char>,
    max_tokens: usize,
    truncated: bool,
) -> Option<(Seq<char>, bool)>
    decreases us.len(),
{
    let rows = join(us.map_values(|u: UsageView| usage_row_text(u)), seq!['\n']);
    match usages_json(symbol, header, rows, truncated) {
        None => None,
        Some(text) => match crate::analysis::call_graph::cl100k_tokens(text) {
            None => None,
            Some(n) => if n <= max_tokens {
                Some((rows, truncated))
            } else if us.len() == 0 {
                Some((seq![], true))
            } else {
                fit_usage_rows(us.drop_last(), symbol, header, max_tokens, true)
            },
        },
    }
}

/// The usage rows within the token budget, and whether some were dropped
/// (see `fit_usage_rows`); `truncated` says whether rows were already left
/// out before.
pub fn usage_rows_with_budget(
    usages: &Vec<UsageRow>,
    symbol: &str,
    header: &str,
    max_tokens: usize,
    truncated: bool,
) -> (r: Option<(String, bool)>)
    ensures
        match fit_usage_rows(usage_views(usages@), symbol@, header@, max_tokens, truncated) {
            Some((rows, t)) => r matches Some((s, u)) && s@ == rows && u == t,
            None => r is None,
        },
{
    let ghost uv = usage_views(usages@);
    let mut kept: Vec<UsageRow> = Vec::new();
    let mut i: usize = 0;
    while i < usages.len()
        invariant
            i <= usages.len(),
            uv == usage_views(usages@),
            usage_views(kept@) == uv.take(i as int),
        decreases usages.len() - i,
    {
        let ghost b = usage_views(kept@);
        kept.push(copy_usage(&usages[i]));
        assert(usage_views(kept@) =~= b.push(uv[i as int]));
        assert(uv.take(i + 1) =~= uv.take(i as int).push(uv[i as int]));
        i = i + 1;
    }
    assert(uv.take(usages.len() as int) =~= uv);
    let mut tr = truncated;
    loop
        invariant
            uv == usage_views(usages@),
            fit_usage_rows(uv, symbol@, header@, max_tokens, truncated) == fit_usage_rows(
                usage_views(kept@),
                symbol@,
                header@,
                max_tokens,
                tr,
            ),
        decreases kept@.len(),
    {
        let rows = usages_to_rows(&kept, header);
        let text = match usages_result_json(symbol, header, rows.as_str(), tr) {
            Some(t) => t,
            None => return None,
        };
        let n = match crate::analysis::call_graph::count_cl100k_tokens(text.as_str()) {
            Some(n) => n,
            None => return None,
        };
        if n <= max_tokens {
            return Some((rows, tr));
        }
        if kept.len() == 0 {
            return Some((String::new(), true));
        }
        let ghost b = usage_views(kept@);
        kept.pop();
        assert(usage_views(kept@) =~= b.drop_last());
        tr = true;
    }
}

/// The header of the usage rows.
pub fn usage_header() -> (r: &'static str)
    ensures
        r@ == "file|line|col|type|context|scope|conf|owner"@,
{
    "file|line|col|type|context|scope|conf|owner"
}

} // verus!
