//! Which nodes open a scope at a position: per language, the kinds of
//! the table below; each such node with a name is in the scope chain of
//! every node inside it.
use vstd::prelude::*;
use crate::analysis::symbol_at_line::{node_scope, scope_chain};
use crate::parser::Language;
use crate::syntax::SyntaxTree;

verus! {

/// The node kinds that open a scope: in Rust functions, impl blocks,
/// traits, structs, enums and modules; in Python functions, classes and
/// the module; in JavaScript and TypeScript function declarations, method
/// definitions, class declarations, arrow functions and function
/// expressions; in C# methods, constructors, properties, classes,
/// interfaces, structs and namespaces; in Java methods, constructors,
/// classes, interfaces and enums; in Haskell functions, bindings,
/// signatures, data types, newtypes, type synonyms, classes and instances.
pub open spec fn opens_scope(kind: Seq<char>, l: Language) -> bool {
    (l == Language::Rust && (kind == "function_item"@ || kind == "impl_item"@ || kind == "trait_item"@ || kind == "struct_item"@ || kind == "enum_item"@ || kind == "mod_item"@))
        || (l == Language::Python && (kind == "function_definition"@ || kind == "class_definition"@ || kind == "module"@))
        || (l == Language::JavaScript && (kind == "function_declaration"@ || kind == "method_definition"@ || kind == "class_declaration"@ || kind == "arrow_function"@ || kind == "function_expression"@))
        || (l == Language::TypeScript && (kind == "function_declaration"@ || kind == "method_definition"@ || kind == "class_declaration"@ || kind == "arrow_function"@ || kind == "function_expression"@))
        || (l == Language::CSharp && (kind == "method_declaration"@ || kind == "constructor_declaration"@ || kind == "property_declaration"@ || kind == "class_declaration"@ || kind == "interface_declaration"@ || kind == "struct_declaration"@ || kind == "namespace_declaration"@))
        || (l == Language::Java && (kind == "method_declaration"@ || kind == "constructor_declaration"@ || kind == "class_declaration"@ || kind == "interface_declaration"@ || kind == "enum_declaration"@))
        || (l == Language::Haskell && (kind == "function"@ || kind == "bind"@ || kind == "signature"@ || kind == "data_type"@ || kind == "newtype"@ || kind == "type_synomym"@ || kind == "class"@ || kind == "instance"@))
}

/// A node that opens a scope and has a name is the innermost scope of its
/// own chain.
pub proof fn law_scope_node_first(t: SyntaxTree, i: int, l: Language)
    requires
        0 <= i < t.len(),
        opens_scope(t.kind(i), l),
        node_scope(t, i) is Some,
    ensures
        scope_chain(t, i, l).len() > 0,
        scope_chain(t, i, l)[0] == node_scope(t, i).unwrap(),
{
}

/// Every named node that opens a scope and encloses node `i` (the nearest
/// enclosing node of its kind) is in the scope chain of `i`: a position
/// inside a method of `impl S` has the impl block `S` among its scopes.
pub proof fn law_enclosing_scope_in_chain(t: SyntaxTree, i: int, l: Language, kind: Seq<char>, a: usize)
    requires
        t.wf(),
        0 <= i < t.len(),
        opens_scope(kind, l),
        t.ancestor_of_kind(i, kind) == Some(a),
        node_scope(t, a as int) is Some,
    ensures
        scope_chain(t, i, l).contains(node_scope(t, a as int).unwrap()),
    decreases i,
{
    let p = t.parent(i).unwrap();
    assert(p < i);
    let up = scope_chain(t, p as int, l);
    let s = node_scope(t, a as int).unwrap();
    if t.kind(p as int) == kind {
        assert(a == p);
        law_scope_node_first(t, p as int, l);
        assert(up[0] == s);
    } else {
        law_enclosing_scope_in_chain(t, p as int, l, kind, a);
    }
    let j = choose|j: int| 0 <= j < up.len() && up[j] == s;
    let all = scope_chain(t, i, l);
    let h = all.len() - up.len();
    assert(all[h + j] == s);
}

/// A node of any other kind adds no scope: its chain is its parent's.
pub proof fn law_other_nodes_add_no_scope(t: SyntaxTree, i: int, l: Language, p: usize)
    requires
        0 <= i < t.len(),
        !opens_scope(t.kind(i), l),
        t.parent(i) == Some(p),
        p < i,
    ensures
        scope_chain(t, i, l) == scope_chain(t, p as int, l),
{
    assert(scope_chain(t, i, l) =~= scope_chain(t, p as int, l));
}

} // verus!
