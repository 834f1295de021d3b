//! The symbol (function, class, ...) at a line and column, with its
//! signature and the chain of enclosing scopes.
use vstd::prelude::*;
use crate::parser::Language;
use crate::syntax::{SyntaxNode, SyntaxTree};
use crate::text::{chars_of, contains, contains_lit, join, push_str};

verus! {

/// An enclosing scope: its name, signature and kind.
#[derive(Debug, Clone)]
pub struct ScopeInfo {
    pub name: String,
    pub signature: String,
    pub kind: String,
}

/// The view of a scope: (name, signature, kind).
pub open spec fn scope_view(s: ScopeInfo) -> (Seq<char>, Seq<char>, Seq<char>) {
    (s.name@, s.signature@, s.kind@)
}

/// The answer: innermost symbol, its abbreviated kind and signature, the
/// line asked for, and the scope chain from outermost to innermost joined
/// by `::`.
#[derive(Debug, Clone)]
pub struct SymbolAtLine {
    pub sym: String,
    pub kind: String,
    pub sig: String,
    pub line: u32,
    pub scope: String,
}

/// Why no symbol was found.
#[derive(Debug, Clone, Copy, PartialEq, Eq, Structural)]
pub enum SymbolAtLineError {
    /// The position is in no scope (a comment, whitespace, top level).
    NoSymbol,
}

/// The (0-based) position lies within the node's start and end points.
pub open spec fn in_range(line: int, column: int, n: SyntaxNode) -> bool {
    &&& !(line < n.start_row || line > n.end_row)
    &&& !(line == n.start_row && column < n.start_col)
    &&& !(line == n.end_row && column > n.end_col)
}

/// Whether the position lies within the points of node `n`.
pub fn is_position_in_range(line: usize, column: usize, n: &SyntaxNode) -> (r: bool)
    ensures
        r == in_range(line as int, column as int, *n),
{
    if line < n.start_row || line > n.end_row {
        return false;
    }
    if line == n.start_row && column < n.start_col {
        return false;
    }
    if line == n.end_row && column > n.end_col {
        return false;
    }
    true
}

/// The first node of `cs` whose range holds the position.
pub open spec fn first_in_range(t: SyntaxTree, cs: Seq<usize>, line: int, column: int) -> Option<
    usize,
>
    decreases cs.len(),
{
    if cs.len() == 0 {
        None
    } else if 0 <= cs[0] < t.len() && in_range(line, column, t.nodes@[cs[0] as int]) {
        Some(cs[0])
    } else {
        first_in_range(t, cs.drop_first(), line, column)
    }
}

/// From node `i`, step into the first child holding the position, as long
/// as there is one: the deepest node at the position.
pub open spec fn descend(t: SyntaxTree, i: int, line: int, column: int) -> int
    decreases t.len() - i,
{
    match first_in_range(t, t.children(i), line, column) {
        Some(c) => if i < c < t.len() {
            descend(t, c as int, line, column)
        } else {
            i
        },
        None => i,
    }
}

/// Position in `cs` of the first node whose range holds the position.
fn first_child_in_range(tree: &SyntaxTree, cs: &Vec<usize>, line: usize, column: usize) -> (r:
    Option<usize>)
    requires
        tree.wf(),
        forall|j: int| 0 <= j < cs@.len() ==> (#[trigger] cs@[j]) < tree.len(),
    ensures
        match r {
            Some(k) => k < cs@.len() && first_in_range(*tree, cs@, line as int, column as int)
                == Some(cs@[k as int]),
            None => first_in_range(*tree, cs@, line as int, column as int) is None,
        },
{
    let mut k: usize = 0;
    assert(cs@.skip(0) =~= cs@);
    while k < cs.len()
        invariant
            tree.wf(),
            forall|j: int| 0 <= j < cs@.len() ==> (#[trigger] cs@[j]) < tree.len(),
            k <= cs.len(),
            first_in_range(*tree, cs@, line as int, column as int) == first_in_range(
                *tree,
                cs@.skip(k as int),
                line as int,
                column as int,
            ),
        decreases cs.len() - k,
    {
        let c = cs[k];
        assert(cs@.skip(k as int)[0] == c);
        if is_position_in_range(line, column, &tree.nodes[c]) {
            return Some(k);
        }
        assert(cs@.skip(k as int).drop_first() =~= cs@.skip(k + 1));
        k = k + 1;
    }
    None
}

/// The deepest node at a 0-based position, descending from the root.
pub fn find_node_at_position(tree: &SyntaxTree, line: usize, column: usize) -> (r: usize)
    requires
        tree.wf(),
    ensures
        r == descend(*tree, 0, line as int, column as int),
        r < tree.len(),
{
    let mut node: usize = 0;
    loop
        invariant
            tree.wf(),
            node < tree.len(),
            descend(*tree, 0, line as int, column as int) == descend(
                *tree,
                node as int,
                line as int,
                column as int,
            ),
        decreases tree.len() - node,
    {
        let cs = tree.children_of(node);
        proof {
            tree.lemma_children(node as int, tree.len());
        }
        let found = first_child_in_range(tree, &cs, line, column);
        match found {
            Some(k) => {
                let c = cs[k];
                assert(node < c);
                node = c;
            },
            None => {
                return node;
            },
        }
    }
}

/// Node kinds that open a scope, per language.
pub open spec fn context_kind(kind: Seq<char>, l: Language) -> bool {
    match l {
        Language::Rust => kind == "function_item"@ || kind == "impl_item"@ || kind == "trait_item"@
            || kind == "struct_item"@ || kind == "enum_item"@ || kind == "mod_item"@,
        Language::Python => kind == "function_definition"@ || kind == "class_definition"@ || kind
            == "module"@,
        Language::JavaScript | Language::TypeScript => kind == "function_declaration"@ || kind
            == "method_definition"@ || kind == "class_declaration"@ || kind == "arrow_function"@
            || kind == "function_expression"@,
        Language::CSharp => kind == "method_declaration"@ || kind == "constructor_declaration"@
            || kind == "property_declaration"@ || kind == "class_declaration"@ || kind
            == "interface_declaration"@ || kind == "struct_declaration"@ || kind
            == "namespace_declaration"@,
        Language::Java => kind == "method_declaration"@ || kind == "constructor_declaration"@
            || kind == "class_declaration"@ || kind == "interface_declaration"@ || kind
            == "enum_declaration"@,
        Language::Haskell => kind == "function"@ || kind == "bind"@ || kind == "signature"@ || kind
            == "data_type"@ || kind == "newtype"@ || kind == "type_synomym"@ || kind == "class"@
            || kind == "instance"@,
        _ => false,
    }
}

/// Whether node `i` opens a scope in the language.
pub fn is_context_node(tree: &SyntaxTree, i: usize, language: Language) -> (r: bool)
    requires
        i < tree.len(),
    ensures
        r == context_kind(tree.kind(i as int), language),
{
    match language {
        Language::Rust => tree.kind_is(i, "function_item") || tree.kind_is(i, "impl_item")
            || tree.kind_is(i, "trait_item") || tree.kind_is(i, "struct_item") || tree.kind_is(
            i,
            "enum_item",
        ) || tree.kind_is(i, "mod_item"),
        Language::Python => tree.kind_is(i, "function_definition") || tree.kind_is(
            i,
            "class_definition",
        ) || tree.kind_is(i, "module"),
        Language::JavaScript | Language::TypeScript => tree.kind_is(i, "function_declaration")
            || tree.kind_is(i, "method_definition") || tree.kind_is(i, "class_declaration")
            || tree.kind_is(i, "arrow_function") || tree.kind_is(i, "function_expression"),
        Language::CSharp => tree.kind_is(i, "method_declaration") || tree.kind_is(
            i,
            "constructor_declaration",
        ) || tree.kind_is(i, "property_declaration") || tree.kind_is(i, "class_declaration")
            || tree.kind_is(i, "interface_declaration") || tree.kind_is(i, "struct_declaration")
            || tree.kind_is(i, "namespace_declaration"),
        Language::Java => tree.kind_is(i, "method_declaration") || tree.kind_is(
            i,
            "constructor_declaration",
        ) || tree.kind_is(i, "class_declaration") || tree.kind_is(i, "interface_declaration")
            || tree.kind_is(i, "enum_declaration"),
        Language::Haskell => tree.kind_is(i, "function") || tree.kind_is(i, "bind")
            || tree.kind_is(i, "signature") || tree.kind_is(i, "data_type") || tree.kind_is(
            i,
            "newtype",
        ) || tree.kind_is(i, "type_synomym") || tree.kind_is(i, "class") || tree.kind_is(
            i,
            "instance",
        ),
        _ => false,
    }
}

/// The scope kind that a node kind stands for.
pub open spec fn scope_label(kind: Seq<char>) -> Seq<char> {
    if kind == "function_item"@ || kind == "function_definition"@ || kind
        == "function_declaration"@ {
        "function"@
    } else if kind == "method_definition"@ || kind == "method_declaration"@ {
        "method"@
    } else if kind == "class_definition"@ || kind == "class_declaration"@ {
        "class"@
    } else if kind == "impl_item"@ {
        "impl"@
    } else if kind == "trait_item"@ {
        "trait"@
    } else if kind == "struct_item"@ || kind == "struct_declaration"@ {
        "struct"@
    } else if kind == "enum_item"@ || kind == "enum_declaration"@ {
        "enum"@
    } else if kind == "mod_item"@ || kind == "module"@ {
        "module"@
    } else if kind == "arrow_function"@ || kind == "function_expression"@ {
        "function"@
    } else if kind == "constructor_declaration"@ {
        "constructor"@
    } else if kind == "property_declaration"@ {
        "property"@
    } else if kind == "interface_declaration"@ {
        "interface"@
    } else if kind == "namespace_declaration"@ {
        "namespace"@
    } else if kind == "function"@ || kind == "bind"@ {
        "function"@
    } else if kind == "signature"@ {
        "signature"@
    } else if kind == "data_type"@ {
        "data"@
    } else if kind == "newtype"@ {
        "newtype"@
    } else if kind == "type_synomym"@ {
        "type"@
    } else if kind == "class"@ {
        "class"@
    } else if kind == "instance"@ {
        "instance"@
    } else {
        "unknown"@
    }
}

fn scope_label_of(tree: &SyntaxTree, i: usize) -> (r: &'static str)
    requires
        i < tree.len(),
    ensures
        r@ == scope_label(tree.kind(i as int)),
{
    if tree.kind_is(i, "function_item") || tree.kind_is(i, "function_definition")
        || tree.kind_is(i, "function_declaration") {
        "function"
    } else if tree.kind_is(i, "method_definition") || tree.kind_is(i, "method_declaration") {
        "method"
    } else if tree.kind_is(i, "class_definition") || tree.kind_is(i, "class_declaration") {
        "class"
    } else if tree.kind_is(i, "impl_item") {
        "impl"
    } else if tree.kind_is(i, "trait_item") {
        "trait"
    } else if tree.kind_is(i, "struct_item") || tree.kind_is(i, "struct_declaration") {
        "struct"
    } else if tree.kind_is(i, "enum_item") || tree.kind_is(i, "enum_declaration") {
        "enum"
    } else if tree.kind_is(i, "mod_item") || tree.kind_is(i, "module") {
        "module"
    } else if tree.kind_is(i, "arrow_function") || tree.kind_is(i, "function_expression") {
        "function"
    } else if tree.kind_is(i, "constructor_declaration") {
        "constructor"
    } else if tree.kind_is(i, "property_declaration") {
        "property"
    } else if tree.kind_is(i, "interface_declaration") {
        "interface"
    } else if tree.kind_is(i, "namespace_declaration") {
        "namespace"
    } else if tree.kind_is(i, "function") || tree.kind_is(i, "bind") {
        "function"
    } else if tree.kind_is(i, "signature") {
        "signature"
    } else if tree.kind_is(i, "data_type") {
        "data"
    } else if tree.kind_is(i, "newtype") {
        "newtype"
    } else if tree.kind_is(i, "type_synomym") {
        "type"
    } else if tree.kind_is(i, "class") {
        "class"
    } else if tree.kind_is(i, "instance") {
        "instance"
    } else {
        "unknown"
    }
}

/// Text of the first node of `cs` whose kind contains `identifier`.
pub open spec fn first_identifier_text(t: SyntaxTree, cs: Seq<usize>) -> Option<Seq<char>>
    decreases cs.len(),
{
    if cs.len() == 0 {
        None
    } else if contains(t.kind(cs[0] as int), "identifier"@) {
        Some(t.text(cs[0] as int))
    } else {
        first_identifier_text(t, cs.drop_first())
    }
}

/// Name of node `i`: the text of its `name`, `property` or `field` child
/// (in that order of preference), else of its first child whose kind
/// contains `identifier`.
pub open spec fn node_name(t: SyntaxTree, i: int) -> Option<Seq<char>> {
    match t.child_by_field(i, "name"@) {
        Some(n) => Some(t.text(n as int)),
        None => match t.child_by_field(i, "property"@) {
            Some(n) => Some(t.text(n as int)),
            None => match t.child_by_field(i, "field"@) {
                Some(n) => Some(t.text(n as int)),
                None => first_identifier_text(t, t.children(i)),
            },
        },
    }
}

/// Text of the first identifier child in `cs`.
fn first_identifier_child_text(tree: &SyntaxTree, cs: &Vec<usize>) -> (r: Option<String>)
    requires
        tree.wf(),
        forall|j: int| 0 <= j < cs@.len() ==> (#[trigger] cs@[j]) < tree.len(),
    ensures
        match r {
            Some(s) => first_identifier_text(*tree, cs@) == Some(s@),
            None => first_identifier_text(*tree, cs@) is None,
        },
{
    let mut k: usize = 0;
    assert(cs@.skip(0) =~= cs@);
    while k < cs.len()
        invariant
            tree.wf(),
            forall|j: int| 0 <= j < cs@.len() ==> (#[trigger] cs@[j]) < tree.len(),
            k <= cs.len(),
            first_identifier_text(*tree, cs@) == first_identifier_text(*tree, cs@.skip(k as int)),
        decreases cs.len() - k,
    {
        let c = cs[k];
        assert(cs@.skip(k as int)[0] == c);
        let kind = chars_of(tree.nodes[c].kind.as_str());
        if contains_lit(kind.as_slice(), "identifier") {
            return Some(tree.node_text(c));
        }
        assert(cs@.skip(k as int).drop_first() =~= cs@.skip(k + 1));
        k = k + 1;
    }
    None
}

/// The name of node `i` (see `node_name`).
pub fn extract_name(tree: &SyntaxTree, i: usize) -> (r: Option<String>)
    requires
        tree.wf(),
        i < tree.len(),
    ensures
        match r {
            Some(s) => node_name(*tree, i as int) == Some(s@),
            None => node_name(*tree, i as int) is None,
        },
{
    if let Some(n) = tree.child_by_field_name(i, "name") {
        return Some(tree.node_text(n));
    }
    if let Some(n) = tree.child_by_field_name(i, "property") {
        return Some(tree.node_text(n));
    }
    if let Some(n) = tree.child_by_field_name(i, "field") {
        return Some(tree.node_text(n));
    }
    let cs = tree.children_of(i);
    first_identifier_child_text(tree, &cs)
}

/// Kinds whose signature is built from their parameters.
pub open spec fn callable_kind(kind: Seq<char>) -> bool {
    contains(kind, "function"@) || kind == "method_definition"@ || kind == "method_declaration"@
        || kind == "constructor_declaration"@
}

/// Signature of node `i`: for a callable with a `parameters` child, its name
/// and parameters, followed by the return type or preceded by the `type`
/// child where there is one; otherwise its name.
pub open spec fn node_signature(t: SyntaxTree, i: int) -> Option<Seq<char>> {
    if callable_kind(t.kind(i)) && t.child_by_field(i, "parameters"@) is Some {
        let params = t.text(t.child_by_field(i, "parameters"@).unwrap() as int);
        let name = match node_name(t, i) {
            Some(n) => n,
            None => "unknown"@,
        };
        match t.child_by_field(i, "return_type"@) {
            Some(rt) => Some(name + params + " "@ + t.text(rt as int)),
            None => match t.child_by_field(i, "type"@) {
                Some(ty) => Some(t.text(ty as int) + " "@ + name + params),
                None => Some(name + params),
            },
        }
    } else {
        node_name(t, i)
    }
}

/// The signature of node `i` (see `node_signature`).
pub fn extract_signature(tree: &SyntaxTree, i: usize) -> (r: Option<String>)
    requires
        tree.wf(),
        i < tree.len(),
    ensures
        match r {
            Some(s) => node_signature(*tree, i as int) == Some(s@),
            None => node_signature(*tree, i as int) is None,
        },
{
    let kind = chars_of(tree.nodes[i].kind.as_str());
    let callable = contains_lit(kind.as_slice(), "function") || tree.kind_is(i, "method_definition")
        || tree.kind_is(i, "method_declaration") || tree.kind_is(i, "constructor_declaration");
    if callable {
        if let Some(p) = tree.child_by_field_name(i, "parameters") {
            let params = tree.node_text(p);
            let name = match extract_name(tree, i) {
                Some(n) => n,
                None => "unknown".to_string(),
            };
            if let Some(rt) = tree.child_by_field_name(i, "return_type") {
                let mut s = name;
                push_str(&mut s, params.as_str());
                push_str(&mut s, " ");
                push_str(&mut s, tree.node_text(rt).as_str());
                return Some(s);
            }
            if let Some(ty) = tree.child_by_field_name(i, "type") {
                let mut s = tree.node_text(ty);
                push_str(&mut s, " ");
                push_str(&mut s, name.as_str());
                push_str(&mut s, params.as_str());
                return Some(s);
            }
            let mut s = name;
            push_str(&mut s, params.as_str());
            return Some(s);
        }
    }
    extract_name(tree, i)
}

/// Scope information of node `i`: its name, its signature (its name where
/// there is none) and its scope kind; none when it has no name.
pub open spec fn node_scope(t: SyntaxTree, i: int) -> Option<(Seq<char>, Seq<char>, Seq<char>)> {
    match node_name(t, i) {
        None => None,
        Some(n) => Some(
            (
                n,
                match node_signature(t, i) {
                    Some(s) => s,
                    None => n,
                },
                scope_label(t.kind(i)),
            ),
        ),
    }
}

/// Scope information of node `i` (see `node_scope`).
pub fn extract_scope_info(tree: &SyntaxTree, i: usize) -> (r: Option<ScopeInfo>)
    requires
        tree.wf(),
        i < tree.len(),
    ensures
        match r {
            Some(s) => node_scope(*tree, i as int) == Some(scope_view(s)),
            None => node_scope(*tree, i as int) is None,
        },
{
    let name = match extract_name(tree, i) {
        Some(n) => n,
        None => return None,
    };
    let signature = match extract_signature(tree, i) {
        Some(s) => s,
        None => name.clone(),
    };
    let kind = scope_label_of(tree, i).to_string();
    Some(ScopeInfo { name, signature, kind })
}

/// The scopes around node `i`, innermost first: each scope-opening node on
/// the way from `i` up to the root that has a name.
pub open spec fn scope_chain(t: SyntaxTree, i: int, l: Language) -> Seq<
    (Seq<char>, Seq<char>, Seq<char>),
>
    decreases i,
{
    if i < 0 || i >= t.len() {
        seq![]
    } else {
        let here = if context_kind(t.kind(i), l) && node_scope(t, i) is Some {
            seq![node_scope(t, i).unwrap()]
        } else {
            seq![]
        };
        let up = match t.parent(i) {
            Some(p) => if p < i {
                scope_chain(t, p as int, l)
            } else {
                seq![]
            },
            None => seq![],
        };
        here + up
    }
}

/// The scope chain of node `i` (see `scope_chain`).
pub fn collect_scope_chain(tree: &SyntaxTree, i: usize, language: Language) -> (r: Vec<ScopeInfo>)
    requires
        tree.wf(),
        i < tree.len(),
    ensures
        r@.map_values(|s: ScopeInfo| scope_view(s)) == scope_chain(*tree, i as int, language),
{
    let mut scopes: Vec<ScopeInfo> = Vec::new();
    let mut node = i;
    loop
        invariant
            tree.wf(),
            node < tree.len(),
            scope_chain(*tree, i as int, language) == scopes@.map_values(
                |s: ScopeInfo| scope_view(s),
            ) + scope_chain(*tree, node as int, language),
        decreases node,
    {
        let ghost before = scopes@;
        if is_context_node(tree, node, language) {
            if let Some(scope) = extract_scope_info(tree, node) {
                scopes.push(scope);
            }
        }
        proof {
            let f = |s: ScopeInfo| scope_view(s);
            if scopes@.len() > before.len() {
                assert(scopes@.map_values(f) =~= before.map_values(f).push(
                    node_scope(*tree, node as int).unwrap(),
                ));
            } else {
                assert(scopes@ == before);
            }
        }
        match tree.nodes[node].parent {
            Some(p) => {
                assert(node > 0);
                assert(p < node);
                proof {
                    let f = |s: ScopeInfo| scope_view(s);
                    let here = if context_kind(tree.kind(node as int), language) && node_scope(
                        *tree,
                        node as int,
                    ) is Some {
                        seq![node_scope(*tree, node as int).unwrap()]
                    } else {
                        seq![]
                    };
                    assert(scopes@.map_values(f) =~= before.map_values(f) + here);
                    assert(scope_chain(*tree, node as int, language) == here + scope_chain(
                        *tree,
                        p as int,
                        language,
                    ));
                    assert(before.map_values(f) + (here + scope_chain(*tree, p as int, language))
                        =~= scopes@.map_values(f) + scope_chain(*tree, p as int, language));
                }
                node = p;
            },
            None => {
                proof {
                    let f = |s: ScopeInfo| scope_view(s);
                    let here = if context_kind(tree.kind(node as int), language) && node_scope(
                        *tree,
                        node as int,
                    ) is Some {
                        seq![node_scope(*tree, node as int).unwrap()]
                    } else {
                        seq![]
                    };
                    assert(scopes@.map_values(f) =~= before.map_values(f) + here);
                    assert(scope_chain(*tree, node as int, language) =~= here);
                }
                return scopes;
            },
        }
    }
}

/// `abbreviate_kind`: short forms of scope kinds.
pub open spec fn abbreviation(kind: Seq<char>) -> Seq<char> {
    if kind == "function"@ {
        "fn"@
    } else if kind == "method"@ {
        "m"@
    } else if kind == "class"@ {
        "c"@
    } else if kind == "struct"@ {
        "s"@
    } else if kind == "trait"@ {
        "t"@
    } else if kind == "impl"@ {
        "i"@
    } else if kind == "enum"@ {
        "e"@
    } else if kind == "module"@ {
        "mod"@
    } else if kind == "namespace"@ {
        "ns"@
    } else if kind == "interface"@ {
        "iface"@
    } else if kind == "constructor"@ {
        "ctor"@
    } else if kind == "property"@ {
        "prop"@
    } else {
        "u"@
    }
}

/// The short form of a scope kind.
pub fn abbreviate_kind(kind: &str) -> (r: &'static str)
    ensures
        r@ == abbreviation(kind@),
{
    let k = chars_of(kind);
    let k = k.as_slice();
    if crate::text::eq_lit(k, "function") {
        "fn"
    } else if crate::text::eq_lit(k, "method") {
        "m"
    } else if crate::text::eq_lit(k, "class") {
        "c"
    } else if crate::text::eq_lit(k, "struct") {
        "s"
    } else if crate::text::eq_lit(k, "trait") {
        "t"
    } else if crate::text::eq_lit(k, "impl") {
        "i"
    } else if crate::text::eq_lit(k, "enum") {
        "e"
    } else if crate::text::eq_lit(k, "module") {
        "mod"
    } else if crate::text::eq_lit(k, "namespace") {
        "ns"
    } else if crate::text::eq_lit(k, "interface") {
        "iface"
    } else if crate::text::eq_lit(k, "constructor") {
        "ctor"
    } else if crate::text::eq_lit(k, "property") {
        "prop"
    } else {
        "u"
    }
}

/// 1-based line or column to 0-based (0 stays 0).
pub open spec fn zero_based(x: int) -> int {
    if x > 0 {
        x - 1
    } else {
        0
    }
}

/// The symbol at a 1-based line and column: the scope chain of the deepest
/// node there; the innermost scope gives the symbol, its abbreviated kind
/// and signature, and the chain, outermost first, joined by `::`, gives the
/// scope. No symbol when the chain is empty.
pub fn symbol_at(tree: &SyntaxTree, language: Language, line: u32, column: u32) -> (r: Result<
    SymbolAtLine,
    SymbolAtLineError,
>)
    requires
        tree.wf(),
    ensures
        ({
            let node = descend(*tree, 0, zero_based(line as int), zero_based(column as int));
            let chain = scope_chain(*tree, node, language);
            match r {
                Err(_) => chain.len() == 0,
                Ok(s) => chain.len() > 0 && s.sym@ == chain[0].0 && s.sig@ == chain[0].1 && s.kind@
                    == abbreviation(chain[0].2) && s.line == line && s.scope@ == join(
                    chain.reverse().map_values(|c: (Seq<char>, Seq<char>, Seq<char>)| c.0),
                    "::"@,
                ),
            }
        }),
{
    let ts_line: usize = if line > 0 {
        (line - 1) as usize
    } else {
        0
    };
    let ts_column: usize = if column > 0 {
        (column - 1) as usize
    } else {
        0
    };
    let node = find_node_at_position(tree, ts_line, ts_column);
    let chain = collect_scope_chain(tree, node, language);
    let ghost f = |s: ScopeInfo| scope_view(s);
    let ghost spec_chain = scope_chain(*tree, node as int, language);
    if chain.len() == 0 {
        assert(chain@.map_values(f).len() == 0);
        return Err(SymbolAtLineError::NoSymbol);
    }
    assert(chain@.map_values(f)[0] == f(chain@[0]));
    assert forall|j: int| 0 <= j < chain@.len() implies spec_chain[j] == scope_view(
        #[trigger] chain@[j],
    ) by {
        assert(chain@.map_values(f)[j] == f(chain@[j]));
    }
    // Names from the outermost scope inwards.
    let mut names: Vec<String> = Vec::new();
    let mut k: usize = chain.len();
    while k > 0
        invariant
            k <= chain.len(),
            spec_chain.len() == chain@.len(),
            forall|j: int| 0 <= j < chain@.len() ==> spec_chain[j] == scope_view(#[trigger] chain@[j]),
            names@.len() == chain.len() - k,
            forall|j: int|
                0 <= j < names@.len() ==> (#[trigger] names@[j])@ == spec_chain.reverse()[j].0,
        decreases k,
    {
        k = k - 1;
        assert(spec_chain.reverse()[(chain.len() - k - 1) as int] == spec_chain[k as int]);
        let nm = chain[k].name.clone();
        assert(nm@ == chain@[k as int].name@);
        assert(spec_chain[k as int].0 == chain@[k as int].name@);
        let ghost old_names = names@;
        names.push(nm);
        assert(forall|j: int| 0 <= j < old_names.len() ==> names@[j] == old_names[j]);
    }
    let scope = crate::text::join_strings(&names, "::");
    proof {
        let g = |c: (Seq<char>, Seq<char>, Seq<char>)| c.0;
        assert(crate::text::views(names@) =~= spec_chain.reverse().map_values(g));
    }
    let inner = &chain[0];
    Ok(
        SymbolAtLine {
            sym: inner.name.clone(),
            kind: abbreviate_kind(inner.kind.as_str()).to_string(),
            sig: inner.signature.clone(),
            line,
            scope,
        },
    )
}

} // verus!
