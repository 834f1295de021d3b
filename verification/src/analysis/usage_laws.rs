//! How a usage of a symbol is classified, by the node kinds around the
//! identifier: names declared by a definition are definitions, names in an
//! import are imports, callees are calls, names in a type are type
//! references, and what nothing above tells apart is a reference.
use vstd::prelude::*;
use crate::analysis::find_usages::usage_kind;
use crate::syntax::SyntaxTree;

verus! {

/// A name whose parent declares a function, method, struct, class, enum,
/// interface, type alias, binding, constant or static is a definition.
pub proof fn law_declared_names_are_definitions(t: SyntaxTree, i: int, p: usize)
    requires
        t.parent(i) == Some(p),
        t.kind(p as int) == "function_item"@ ||
            t.kind(p as int) == "function_declaration"@ ||
            t.kind(p as int) == "method_definition"@ ||
            t.kind(p as int) == "method_declaration"@ ||
            t.kind(p as int) == "struct_item"@ ||
            t.kind(p as int) == "class_definition"@ ||
            t.kind(p as int) == "class_declaration"@ ||
            t.kind(p as int) == "enum_item"@ ||
            t.kind(p as int) == "interface_declaration"@ ||
            t.kind(p as int) == "type_alias_declaration"@ ||
            t.kind(p as int) == "let_declaration"@ ||
            t.kind(p as int) == "const_item"@ ||
            t.kind(p as int) == "static_item"@ ||
            t.kind(p as int) == "variable_declarator"@ ||
            t.kind(p as int) == "lexical_declaration"@,
    ensures
        usage_kind(t, i) == "definition"@,
{
    reveal_strlit("function_item");
    assert("function_item"@.len() == 13);
    reveal_strlit("function_declaration");
    assert("function_declaration"@.len() == 20);
    reveal_strlit("method_definition");
    assert("method_definition"@.len() == 17);
    reveal_strlit("method_declaration");
    assert("method_declaration"@.len() == 18);
    reveal_strlit("struct_item");
    assert("struct_item"@.len() == 11);
    reveal_strlit("class_definition");
    assert("class_definition"@.len() == 16);
    reveal_strlit("class_declaration");
    assert("class_declaration"@.len() == 17);
    reveal_strlit("enum_item");
    assert("enum_item"@.len() == 9);
    reveal_strlit("interface_declaration");
    assert("interface_declaration"@.len() == 21);
    reveal_strlit("type_alias_declaration");
    assert("type_alias_declaration"@.len() == 22);
    reveal_strlit("let_declaration");
    assert("let_declaration"@.len() == 15);
    reveal_strlit("const_item");
    assert("const_item"@.len() == 10);
    reveal_strlit("static_item");
    assert("static_item"@.len() == 11);
    reveal_strlit("variable_declarator");
    assert("variable_declarator"@.len() == 19);
    reveal_strlit("lexical_declaration");
    assert("lexical_declaration"@.len() == 19);
    let k = t.kind(p as int);
    if k == "function_item"@ {
        assert(usage_kind(t, i) == "definition"@);
    } else if k == "function_declaration"@ {
        assert(usage_kind(t, i) == "definition"@);
    } else if k == "method_definition"@ {
        assert(usage_kind(t, i) == "definition"@);
    } else if k == "method_declaration"@ {
        assert(usage_kind(t, i) == "definition"@);
    } else if k == "struct_item"@ {
        assert(usage_kind(t, i) == "definition"@);
    } else if k == "class_definition"@ {
        assert(usage_kind(t, i) == "definition"@);
    } else if k == "class_declaration"@ {
        assert(usage_kind(t, i) == "definition"@);
    } else if k == "enum_item"@ {
        assert(usage_kind(t, i) == "definition"@);
    } else if k == "interface_declaration"@ {
        assert(usage_kind(t, i) == "definition"@);
    } else if k == "type_alias_declaration"@ {
        assert(usage_kind(t, i) == "definition"@);
    } else if k == "let_declaration"@ {
        assert(usage_kind(t, i) == "definition"@);
    } else if k == "const_item"@ {
        assert(usage_kind(t, i) == "definition"@);
    } else if k == "static_item"@ {
        assert(usage_kind(t, i) == "definition"@);
    } else if k == "variable_declarator"@ {
        assert(usage_kind(t, i) == "definition"@);
    } else if k == "lexical_declaration"@ {
        assert(usage_kind(t, i) == "definition"@);
    }
}

/// A name whose parent is a `use` declaration or an import statement,
/// clause or specifier is an import.
pub proof fn law_imported_names_are_imports(t: SyntaxTree, i: int, p: usize)
    requires
        t.parent(i) == Some(p),
        t.kind(p as int) == "use_declaration"@ ||
            t.kind(p as int) == "import_statement"@ ||
            t.kind(p as int) == "import_clause"@ ||
            t.kind(p as int) == "import_specifier"@,
    ensures
        usage_kind(t, i) == "import"@,
{
    reveal_strlit("use_declaration");
    assert("use_declaration"@.len() == 15);
    reveal_strlit("import_statement");
    assert("import_statement"@.len() == 16);
    reveal_strlit("import_clause");
    assert("import_clause"@.len() == 13);
    reveal_strlit("import_specifier");
    assert("import_specifier"@.len() == 16);
    reveal_strlit("function_item");
    assert("function_item"@.len() == 13);
    reveal_strlit("function_declaration");
    assert("function_declaration"@.len() == 20);
    reveal_strlit("method_definition");
    assert("method_definition"@.len() == 17);
    reveal_strlit("method_declaration");
    assert("method_declaration"@.len() == 18);
    reveal_strlit("struct_item");
    assert("struct_item"@.len() == 11);
    reveal_strlit("class_definition");
    assert("class_definition"@.len() == 16);
    reveal_strlit("class_declaration");
    assert("class_declaration"@.len() == 17);
    reveal_strlit("enum_item");
    assert("enum_item"@.len() == 9);
    reveal_strlit("interface_declaration");
    assert("interface_declaration"@.len() == 21);
    reveal_strlit("type_alias_declaration");
    assert("type_alias_declaration"@.len() == 22);
    reveal_strlit("let_declaration");
    assert("let_declaration"@.len() == 15);
    reveal_strlit("const_item");
    assert("const_item"@.len() == 10);
    reveal_strlit("static_item");
    assert("static_item"@.len() == 11);
    reveal_strlit("variable_declarator");
    assert("variable_declarator"@.len() == 19);
    reveal_strlit("lexical_declaration");
    assert("lexical_declaration"@.len() == 19);
    let k = t.kind(p as int);
    if k == "use_declaration"@ {
        assert("use_declaration"@ != "function_item"@);
        assert("use_declaration"@ != "function_declaration"@);
        assert("use_declaration"@ != "method_definition"@);
        assert("use_declaration"@ != "method_declaration"@);
        assert("use_declaration"@ != "struct_item"@);
        assert("use_declaration"@ != "class_definition"@);
        assert("use_declaration"@ != "class_declaration"@);
        assert("use_declaration"@ != "enum_item"@);
        assert("use_declaration"@ != "interface_declaration"@);
        assert("use_declaration"@ != "type_alias_declaration"@);
        assert("use_declaration"@[0] == 'u' && "let_declaration"@[0] == 'l');
        assert("use_declaration"@ != "let_declaration"@);
        assert("use_declaration"@ != "const_item"@);
        assert("use_declaration"@ != "static_item"@);
        assert("use_declaration"@ != "variable_declarator"@);
        assert("use_declaration"@ != "lexical_declaration"@);
        assert(usage_kind(t, i) == "import"@);
    } else if k == "import_statement"@ {
        assert("import_statement"@ != "function_item"@);
        assert("import_statement"@ != "function_declaration"@);
        assert("import_statement"@ != "method_definition"@);
        assert("import_statement"@ != "method_declaration"@);
        assert("import_statement"@ != "struct_item"@);
        assert("import_statement"@[0] == 'i' && "class_definition"@[0] == 'c');
        assert("import_statement"@ != "class_definition"@);
        assert("import_statement"@ != "class_declaration"@);
        assert("import_statement"@ != "enum_item"@);
        assert("import_statement"@ != "interface_declaration"@);
        assert("import_statement"@ != "type_alias_declaration"@);
        assert("import_statement"@ != "let_declaration"@);
        assert("import_statement"@ != "const_item"@);
        assert("import_statement"@ != "static_item"@);
        assert("import_statement"@ != "variable_declarator"@);
        assert("import_statement"@ != "lexical_declaration"@);
        assert(usage_kind(t, i) == "import"@);
    } else if k == "import_clause"@ {
        assert("import_clause"@[0] == 'i' && "function_item"@[0] == 'f');
        assert("import_clause"@ != "function_item"@);
        assert("import_clause"@ != "function_declaration"@);
        assert("import_clause"@ != "method_definition"@);
        assert("import_clause"@ != "method_declaration"@);
        assert("import_clause"@ != "struct_item"@);
        assert("import_clause"@ != "class_definition"@);
        assert("import_clause"@ != "class_declaration"@);
        assert("import_clause"@ != "enum_item"@);
        assert("import_clause"@ != "interface_declaration"@);
        assert("import_clause"@ != "type_alias_declaration"@);
        assert("import_clause"@ != "let_declaration"@);
        assert("import_clause"@ != "const_item"@);
        assert("import_clause"@ != "static_item"@);
        assert("import_clause"@ != "variable_declarator"@);
        assert("import_clause"@ != "lexical_declaration"@);
        assert(usage_kind(t, i) == "import"@);
    } else if k == "import_specifier"@ {
        assert("import_specifier"@ != "function_item"@);
        assert("import_specifier"@ != "function_declaration"@);
        assert("import_specifier"@ != "method_definition"@);
        assert("import_specifier"@ != "method_declaration"@);
        assert("import_specifier"@ != "struct_item"@);
        assert("import_specifier"@[0] == 'i' && "class_definition"@[0] == 'c');
        assert("import_specifier"@ != "class_definition"@);
        assert("import_specifier"@ != "class_declaration"@);
        assert("import_specifier"@ != "enum_item"@);
        assert("import_specifier"@ != "interface_declaration"@);
        assert("import_specifier"@ != "type_alias_declaration"@);
        assert("import_specifier"@ != "let_declaration"@);
        assert("import_specifier"@ != "const_item"@);
        assert("import_specifier"@ != "static_item"@);
        assert("import_specifier"@ != "variable_declarator"@);
        assert("import_specifier"@ != "lexical_declaration"@);
        assert(usage_kind(t, i) == "import"@);
    }
}

/// A name whose parent is a call expression, a method call expression or a
/// (Python) call is a call.
pub proof fn law_callees_are_calls(t: SyntaxTree, i: int, p: usize)
    requires
        t.parent(i) == Some(p),
        t.kind(p as int) == "call_expression"@ ||
            t.kind(p as int) == "method_call_expression"@ ||
            t.kind(p as int) == "call"@,
    ensures
        usage_kind(t, i) == "call"@,
{
    reveal_strlit("call_expression");
    assert("call_expression"@.len() == 15);
    reveal_strlit("method_call_expression");
    assert("method_call_expression"@.len() == 22);
    reveal_strlit("call");
    assert("call"@.len() == 4);
    reveal_strlit("function_item");
    assert("function_item"@.len() == 13);
    reveal_strlit("function_declaration");
    assert("function_declaration"@.len() == 20);
    reveal_strlit("method_definition");
    assert("method_definition"@.len() == 17);
    reveal_strlit("method_declaration");
    assert("method_declaration"@.len() == 18);
    reveal_strlit("struct_item");
    assert("struct_item"@.len() == 11);
    reveal_strlit("class_definition");
    assert("class_definition"@.len() == 16);
    reveal_strlit("class_declaration");
    assert("class_declaration"@.len() == 17);
    reveal_strlit("enum_item");
    assert("enum_item"@.len() == 9);
    reveal_strlit("interface_declaration");
    assert("interface_declaration"@.len() == 21);
    reveal_strlit("type_alias_declaration");
    assert("type_alias_declaration"@.len() == 22);
    reveal_strlit("let_declaration");
    assert("let_declaration"@.len() == 15);
    reveal_strlit("const_item");
    assert("const_item"@.len() == 10);
    reveal_strlit("static_item");
    assert("static_item"@.len() == 11);
    reveal_strlit("variable_declarator");
    assert("variable_declarator"@.len() == 19);
    reveal_strlit("lexical_declaration");
    assert("lexical_declaration"@.len() == 19);
    reveal_strlit("use_declaration");
    assert("use_declaration"@.len() == 15);
    reveal_strlit("import_statement");
    assert("import_statement"@.len() == 16);
    reveal_strlit("import_clause");
    assert("import_clause"@.len() == 13);
    reveal_strlit("import_specifier");
    assert("import_specifier"@.len() == 16);
    let k = t.kind(p as int);
    if k == "call_expression"@ {
        assert("call_expression"@ != "function_item"@);
        assert("call_expression"@ != "function_declaration"@);
        assert("call_expression"@ != "method_definition"@);
        assert("call_expression"@ != "method_declaration"@);
        assert("call_expression"@ != "struct_item"@);
        assert("call_expression"@ != "class_definition"@);
        assert("call_expression"@ != "class_declaration"@);
        assert("call_expression"@ != "enum_item"@);
        assert("call_expression"@ != "interface_declaration"@);
        assert("call_expression"@ != "type_alias_declaration"@);
        assert("call_expression"@[0] == 'c' && "let_declaration"@[0] == 'l');
        assert("call_expression"@ != "let_declaration"@);
        assert("call_expression"@ != "const_item"@);
        assert("call_expression"@ != "static_item"@);
        assert("call_expression"@ != "variable_declarator"@);
        assert("call_expression"@ != "lexical_declaration"@);
        assert("call_expression"@[0] == 'c' && "use_declaration"@[0] == 'u');
        assert("call_expression"@ != "use_declaration"@);
        assert("call_expression"@ != "import_statement"@);
        assert("call_expression"@ != "import_clause"@);
        assert("call_expression"@ != "import_specifier"@);
        assert(usage_kind(t, i) == "call"@);
    } else if k == "method_call_expression"@ {
        assert("method_call_expression"@ != "function_item"@);
        assert("method_call_expression"@ != "function_declaration"@);
        assert("method_call_expression"@ != "method_definition"@);
        assert("method_call_expression"@ != "method_declaration"@);
        assert("method_call_expression"@ != "struct_item"@);
        assert("method_call_expression"@ != "class_definition"@);
        assert("method_call_expression"@ != "class_declaration"@);
        assert("method_call_expression"@ != "enum_item"@);
        assert("method_call_expression"@ != "interface_declaration"@);
        assert("method_call_expression"@[0] == 'm' && "type_alias_declaration"@[0] == 't');
        assert("method_call_expression"@ != "type_alias_declaration"@);
        assert("method_call_expression"@ != "let_declaration"@);
        assert("method_call_expression"@ != "const_item"@);
        assert("method_call_expression"@ != "static_item"@);
        assert("method_call_expression"@ != "variable_declarator"@);
        assert("method_call_expression"@ != "lexical_declaration"@);
        assert("method_call_expression"@ != "use_declaration"@);
        assert("method_call_expression"@ != "import_statement"@);
        assert("method_call_expression"@ != "import_clause"@);
        assert("method_call_expression"@ != "import_specifier"@);
        assert(usage_kind(t, i) == "call"@);
    } else if k == "call"@ {
        assert("call"@ != "function_item"@);
        assert("call"@ != "function_declaration"@);
        assert("call"@ != "method_definition"@);
        assert("call"@ != "method_declaration"@);
        assert("call"@ != "struct_item"@);
        assert("call"@ != "class_definition"@);
        assert("call"@ != "class_declaration"@);
        assert("call"@ != "enum_item"@);
        assert("call"@ != "interface_declaration"@);
        assert("call"@ != "type_alias_declaration"@);
        assert("call"@ != "let_declaration"@);
        assert("call"@ != "const_item"@);
        assert("call"@ != "static_item"@);
        assert("call"@ != "variable_declarator"@);
        assert("call"@ != "lexical_declaration"@);
        assert("call"@ != "use_declaration"@);
        assert("call"@ != "import_statement"@);
        assert("call"@ != "import_clause"@);
        assert("call"@ != "import_specifier"@);
        assert(usage_kind(t, i) == "call"@);
    }
}

/// A name whose parent is a type annotation, a type identifier, a generic
/// type, type arguments or a type parameter is a type reference.
pub proof fn law_type_names_are_type_references(t: SyntaxTree, i: int, p: usize)
    requires
        t.parent(i) == Some(p),
        t.kind(p as int) == "type_annotation"@ ||
            t.kind(p as int) == "type_identifier"@ ||
            t.kind(p as int) == "generic_type"@ ||
            t.kind(p as int) == "type_arguments"@ ||
            t.kind(p as int) == "type_parameter"@,
    ensures
        usage_kind(t, i) == "type_reference"@,
{
    reveal_strlit("type_annotation");
    assert("type_annotation"@.len() == 15);
    reveal_strlit("type_identifier");
    assert("type_identifier"@.len() == 15);
    reveal_strlit("generic_type");
    assert("generic_type"@.len() == 12);
    reveal_strlit("type_arguments");
    assert("type_arguments"@.len() == 14);
    reveal_strlit("type_parameter");
    assert("type_parameter"@.len() == 14);
    reveal_strlit("function_item");
    assert("function_item"@.len() == 13);
    reveal_strlit("function_declaration");
    assert("function_declaration"@.len() == 20);
    reveal_strlit("method_definition");
    assert("method_definition"@.len() == 17);
    reveal_strlit("method_declaration");
    assert("method_declaration"@.len() == 18);
    reveal_strlit("struct_item");
    assert("struct_item"@.len() == 11);
    reveal_strlit("class_definition");
    assert("class_definition"@.len() == 16);
    reveal_strlit("class_declaration");
    assert("class_declaration"@.len() == 17);
    reveal_strlit("enum_item");
    assert("enum_item"@.len() == 9);
    reveal_strlit("interface_declaration");
    assert("interface_declaration"@.len() == 21);
    reveal_strlit("type_alias_declaration");
    assert("type_alias_declaration"@.len() == 22);
    reveal_strlit("let_declaration");
    assert("let_declaration"@.len() == 15);
    reveal_strlit("const_item");
    assert("const_item"@.len() == 10);
    reveal_strlit("static_item");
    assert("static_item"@.len() == 11);
    reveal_strlit("variable_declarator");
    assert("variable_declarator"@.len() == 19);
    reveal_strlit("lexical_declaration");
    assert("lexical_declaration"@.len() == 19);
    reveal_strlit("use_declaration");
    assert("use_declaration"@.len() == 15);
    reveal_strlit("import_statement");
    assert("import_statement"@.len() == 16);
    reveal_strlit("import_clause");
    assert("import_clause"@.len() == 13);
    reveal_strlit("import_specifier");
    assert("import_specifier"@.len() == 16);
    reveal_strlit("call_expression");
    assert("call_expression"@.len() == 15);
    reveal_strlit("method_call_expression");
    assert("method_call_expression"@.len() == 22);
    reveal_strlit("call");
    assert("call"@.len() == 4);
    let k = t.kind(p as int);
    if k == "type_annotation"@ {
        assert("type_annotation"@ != "function_item"@);
        assert("type_annotation"@ != "function_declaration"@);
        assert("type_annotation"@ != "method_definition"@);
        assert("type_annotation"@ != "method_declaration"@);
        assert("type_annotation"@ != "struct_item"@);
        assert("type_annotation"@ != "class_definition"@);
        assert("type_annotation"@ != "class_declaration"@);
        assert("type_annotation"@ != "enum_item"@);
        assert("type_annotation"@ != "interface_declaration"@);
        assert("type_annotation"@ != "type_alias_declaration"@);
        assert("type_annotation"@[0] == 't' && "let_declaration"@[0] == 'l');
        assert("type_annotation"@ != "let_declaration"@);
        assert("type_annotation"@ != "const_item"@);
        assert("type_annotation"@ != "static_item"@);
        assert("type_annotation"@ != "variable_declarator"@);
        assert("type_annotation"@ != "lexical_declaration"@);
        assert("type_annotation"@[0] == 't' && "use_declaration"@[0] == 'u');
        assert("type_annotation"@ != "use_declaration"@);
        assert("type_annotation"@ != "import_statement"@);
        assert("type_annotation"@ != "import_clause"@);
        assert("type_annotation"@ != "import_specifier"@);
        assert("type_annotation"@[0] == 't' && "call_expression"@[0] == 'c');
        assert("type_annotation"@ != "call_expression"@);
        assert("type_annotation"@ != "method_call_expression"@);
        assert("type_annotation"@ != "call"@);
        assert(usage_kind(t, i) == "type_reference"@);
    } else if k == "type_identifier"@ {
        assert("type_identifier"@ != "function_item"@);
        assert("type_identifier"@ != "function_declaration"@);
        assert("type_identifier"@ != "method_definition"@);
        assert("type_identifier"@ != "method_declaration"@);
        assert("type_identifier"@ != "struct_item"@);
        assert("type_identifier"@ != "class_definition"@);
        assert("type_identifier"@ != "class_declaration"@);
        assert("type_identifier"@ != "enum_item"@);
        assert("type_identifier"@ != "interface_declaration"@);
        assert("type_identifier"@ != "type_alias_declaration"@);
        assert("type_identifier"@[0] == 't' && "let_declaration"@[0] == 'l');
        assert("type_identifier"@ != "let_declaration"@);
        assert("type_identifier"@ != "const_item"@);
        assert("type_identifier"@ != "static_item"@);
        assert("type_identifier"@ != "variable_declarator"@);
        assert("type_identifier"@ != "lexical_declaration"@);
        assert("type_identifier"@[0] == 't' && "use_declaration"@[0] == 'u');
        assert("type_identifier"@ != "use_declaration"@);
        assert("type_identifier"@ != "import_statement"@);
        assert("type_identifier"@ != "import_clause"@);
        assert("type_identifier"@ != "import_specifier"@);
        assert("type_identifier"@[0] == 't' && "call_expression"@[0] == 'c');
        assert("type_identifier"@ != "call_expression"@);
        assert("type_identifier"@ != "method_call_expression"@);
        assert("type_identifier"@ != "call"@);
        assert(usage_kind(t, i) == "type_reference"@);
    } else if k == "generic_type"@ {
        assert("generic_type"@ != "function_item"@);
        assert("generic_type"@ != "function_declaration"@);
        assert("generic_type"@ != "method_definition"@);
        assert("generic_type"@ != "method_declaration"@);
        assert("generic_type"@ != "struct_item"@);
        assert("generic_type"@ != "class_definition"@);
        assert("generic_type"@ != "class_declaration"@);
        assert("generic_type"@ != "enum_item"@);
        assert("generic_type"@ != "interface_declaration"@);
        assert("generic_type"@ != "type_alias_declaration"@);
        assert("generic_type"@ != "let_declaration"@);
        assert("generic_type"@ != "const_item"@);
        assert("generic_type"@ != "static_item"@);
        assert("generic_type"@ != "variable_declarator"@);
        assert("generic_type"@ != "lexical_declaration"@);
        assert("generic_type"@ != "use_declaration"@);
        assert("generic_type"@ != "import_statement"@);
        assert("generic_type"@ != "import_clause"@);
        assert("generic_type"@ != "import_specifier"@);
        assert("generic_type"@ != "call_expression"@);
        assert("generic_type"@ != "method_call_expression"@);
        assert("generic_type"@ != "call"@);
        assert(usage_kind(t, i) == "type_reference"@);
    } else if k == "type_arguments"@ {
        assert("type_arguments"@ != "function_item"@);
        assert("type_arguments"@ != "function_declaration"@);
        assert("type_arguments"@ != "method_definition"@);
        assert("type_arguments"@ != "method_declaration"@);
        assert("type_arguments"@ != "struct_item"@);
        assert("type_arguments"@ != "class_definition"@);
        assert("type_arguments"@ != "class_declaration"@);
        assert("type_arguments"@ != "enum_item"@);
        assert("type_arguments"@ != "interface_declaration"@);
        assert("type_arguments"@ != "type_alias_declaration"@);
        assert("type_arguments"@ != "let_declaration"@);
        assert("type_arguments"@ != "const_item"@);
        assert("type_arguments"@ != "static_item"@);
        assert("type_arguments"@ != "variable_declarator"@);
        assert("type_arguments"@ != "lexical_declaration"@);
        assert("type_arguments"@ != "use_declaration"@);
        assert("type_arguments"@ != "import_statement"@);
        assert("type_arguments"@ != "import_clause"@);
        assert("type_arguments"@ != "import_specifier"@);
        assert("type_arguments"@ != "call_expression"@);
        assert("type_arguments"@ != "method_call_expression"@);
        assert("type_arguments"@ != "call"@);
        assert(usage_kind(t, i) == "type_reference"@);
    } else if k == "type_parameter"@ {
        assert("type_parameter"@ != "function_item"@);
        assert("type_parameter"@ != "function_declaration"@);
        assert("type_parameter"@ != "method_definition"@);
        assert("type_parameter"@ != "method_declaration"@);
        assert("type_parameter"@ != "struct_item"@);
        assert("type_parameter"@ != "class_definition"@);
        assert("type_parameter"@ != "class_declaration"@);
        assert("type_parameter"@ != "enum_item"@);
        assert("type_parameter"@ != "interface_declaration"@);
        assert("type_parameter"@ != "type_alias_declaration"@);
        assert("type_parameter"@ != "let_declaration"@);
        assert("type_parameter"@ != "const_item"@);
        assert("type_parameter"@ != "static_item"@);
        assert("type_parameter"@ != "variable_declarator"@);
        assert("type_parameter"@ != "lexical_declaration"@);
        assert("type_parameter"@ != "use_declaration"@);
        assert("type_parameter"@ != "import_statement"@);
        assert("type_parameter"@ != "import_clause"@);
        assert("type_parameter"@ != "import_specifier"@);
        assert("type_parameter"@ != "call_expression"@);
        assert("type_parameter"@ != "method_call_expression"@);
        assert("type_parameter"@ != "call"@);
        assert(usage_kind(t, i) == "type_reference"@);
    }
}

/// A name that its parent does not classify, inside a binding, a constant
/// or a variable declaration (its grandparent), is a definition.
pub proof fn law_names_in_declared_patterns_are_definitions(t: SyntaxTree, i: int, p: usize, g: usize)
    requires
        t.parent(i) == Some(p),
        t.parent(p as int) == Some(g),
        t.kind(p as int) != "function_item"@,
        t.kind(p as int) != "function_declaration"@,
        t.kind(p as int) != "method_definition"@,
        t.kind(p as int) != "method_declaration"@,
        t.kind(p as int) != "struct_item"@,
        t.kind(p as int) != "class_definition"@,
        t.kind(p as int) != "class_declaration"@,
        t.kind(p as int) != "enum_item"@,
        t.kind(p as int) != "interface_declaration"@,
        t.kind(p as int) != "type_alias_declaration"@,
        t.kind(p as int) != "let_declaration"@,
        t.kind(p as int) != "const_item"@,
        t.kind(p as int) != "static_item"@,
        t.kind(p as int) != "variable_declarator"@,
        t.kind(p as int) != "lexical_declaration"@,
        t.kind(p as int) != "use_declaration"@,
        t.kind(p as int) != "import_statement"@,
        t.kind(p as int) != "import_clause"@,
        t.kind(p as int) != "import_specifier"@,
        t.kind(p as int) != "call_expression"@,
        t.kind(p as int) != "method_call_expression"@,
        t.kind(p as int) != "call"@,
        t.kind(p as int) != "type_annotation"@,
        t.kind(p as int) != "type_identifier"@,
        t.kind(p as int) != "generic_type"@,
        t.kind(p as int) != "type_arguments"@,
        t.kind(p as int) != "type_parameter"@,
        t.kind(g as int) == "let_declaration"@ ||
            t.kind(g as int) == "const_item"@ ||
            t.kind(g as int) == "variable_declaration"@,
    ensures
        usage_kind(t, i) == "definition"@,
{
    reveal_strlit("let_declaration");
    assert("let_declaration"@.len() == 15);
    reveal_strlit("const_item");
    assert("const_item"@.len() == 10);
    reveal_strlit("variable_declaration");
    assert("variable_declaration"@.len() == 20);
    let k = t.kind(g as int);
    if k == "let_declaration"@ {
        assert(usage_kind(t, i) == "definition"@);
    } else if k == "const_item"@ {
        assert(usage_kind(t, i) == "definition"@);
    } else if k == "variable_declaration"@ {
        assert(usage_kind(t, i) == "definition"@);
    }
}

/// A name that its parent does not classify, inside a parameter or a
/// return type (its grandparent), is a type reference.
pub proof fn law_names_in_parameters_are_type_references(t: SyntaxTree, i: int, p: usize, g: usize)
    requires
        t.parent(i) == Some(p),
        t.parent(p as int) == Some(g),
        t.kind(p as int) != "function_item"@,
        t.kind(p as int) != "function_declaration"@,
        t.kind(p as int) != "method_definition"@,
        t.kind(p as int) != "method_declaration"@,
        t.kind(p as int) != "struct_item"@,
        t.kind(p as int) != "class_definition"@,
        t.kind(p as int) != "class_declaration"@,
        t.kind(p as int) != "enum_item"@,
        t.kind(p as int) != "interface_declaration"@,
        t.kind(p as int) != "type_alias_declaration"@,
        t.kind(p as int) != "let_declaration"@,
        t.kind(p as int) != "const_item"@,
        t.kind(p as int) != "static_item"@,
        t.kind(p as int) != "variable_declarator"@,
        t.kind(p as int) != "lexical_declaration"@,
        t.kind(p as int) != "use_declaration"@,
        t.kind(p as int) != "import_statement"@,
        t.kind(p as int) != "import_clause"@,
        t.kind(p as int) != "import_specifier"@,
        t.kind(p as int) != "call_expression"@,
        t.kind(p as int) != "method_call_expression"@,
        t.kind(p as int) != "call"@,
        t.kind(p as int) != "type_annotation"@,
        t.kind(p as int) != "type_identifier"@,
        t.kind(p as int) != "generic_type"@,
        t.kind(p as int) != "type_arguments"@,
        t.kind(p as int) != "type_parameter"@,
        t.kind(g as int) == "parameter"@ ||
            t.kind(g as int) == "formal_parameter"@ ||
            t.kind(g as int) == "return_type"@,
    ensures
        usage_kind(t, i) == "type_reference"@,
{
    reveal_strlit("parameter");
    assert("parameter"@.len() == 9);
    reveal_strlit("formal_parameter");
    assert("formal_parameter"@.len() == 16);
    reveal_strlit("return_type");
    assert("return_type"@.len() == 11);
    reveal_strlit("let_declaration");
    assert("let_declaration"@.len() == 15);
    reveal_strlit("const_item");
    assert("const_item"@.len() == 10);
    reveal_strlit("variable_declaration");
    assert("variable_declaration"@.len() == 20);
    let k = t.kind(g as int);
    if k == "parameter"@ {
        assert("parameter"@ != "let_declaration"@);
        assert("parameter"@ != "const_item"@);
        assert("parameter"@ != "variable_declaration"@);
        assert(usage_kind(t, i) == "type_reference"@);
    } else if k == "formal_parameter"@ {
        assert("formal_parameter"@ != "let_declaration"@);
        assert("formal_parameter"@ != "const_item"@);
        assert("formal_parameter"@ != "variable_declaration"@);
        assert(usage_kind(t, i) == "type_reference"@);
    } else if k == "return_type"@ {
        assert("return_type"@ != "let_declaration"@);
        assert("return_type"@ != "const_item"@);
        assert("return_type"@ != "variable_declaration"@);
        assert(usage_kind(t, i) == "type_reference"@);
    }
}

/// A name that its parent does not classify, inside a call or method call
/// expression (its grandparent), as in a path or field that is called, is
/// a call.
pub proof fn law_names_in_callees_are_calls(t: SyntaxTree, i: int, p: usize, g: usize)
    requires
        t.parent(i) == Some(p),
        t.parent(p as int) == Some(g),
        t.kind(p as int) != "function_item"@,
        t.kind(p as int) != "function_declaration"@,
        t.kind(p as int) != "method_definition"@,
        t.kind(p as int) != "method_declaration"@,
        t.kind(p as int) != "struct_item"@,
        t.kind(p as int) != "class_definition"@,
        t.kind(p as int) != "class_declaration"@,
        t.kind(p as int) != "enum_item"@,
        t.kind(p as int) != "interface_declaration"@,
        t.kind(p as int) != "type_alias_declaration"@,
        t.kind(p as int) != "let_declaration"@,
        t.kind(p as int) != "const_item"@,
        t.kind(p as int) != "static_item"@,
        t.kind(p as int) != "variable_declarator"@,
        t.kind(p as int) != "lexical_declaration"@,
        t.kind(p as int) != "use_declaration"@,
        t.kind(p as int) != "import_statement"@,
        t.kind(p as int) != "import_clause"@,
        t.kind(p as int) != "import_specifier"@,
        t.kind(p as int) != "call_expression"@,
        t.kind(p as int) != "method_call_expression"@,
        t.kind(p as int) != "call"@,
        t.kind(p as int) != "type_annotation"@,
        t.kind(p as int) != "type_identifier"@,
        t.kind(p as int) != "generic_type"@,
        t.kind(p as int) != "type_arguments"@,
        t.kind(p as int) != "type_parameter"@,
        t.kind(g as int) == "call_expression"@ ||
            t.kind(g as int) == "method_call_expression"@,
    ensures
        usage_kind(t, i) == "call"@,
{
    reveal_strlit("call_expression");
    assert("call_expression"@.len() == 15);
    reveal_strlit("method_call_expression");
    assert("method_call_expression"@.len() == 22);
    reveal_strlit("let_declaration");
    assert("let_declaration"@.len() == 15);
    reveal_strlit("const_item");
    assert("const_item"@.len() == 10);
    reveal_strlit("variable_declaration");
    assert("variable_declaration"@.len() == 20);
    reveal_strlit("parameter");
    assert("parameter"@.len() == 9);
    reveal_strlit("formal_parameter");
    assert("formal_parameter"@.len() == 16);
    reveal_strlit("return_type");
    assert("return_type"@.len() == 11);
    let k = t.kind(g as int);
    if k == "call_expression"@ {
        assert("call_expression"@[0] == 'c' && "let_declaration"@[0] == 'l');
        assert("call_expression"@ != "let_declaration"@);
        assert("call_expression"@ != "const_item"@);
        assert("call_expression"@ != "variable_declaration"@);
        assert("call_expression"@ != "parameter"@);
        assert("call_expression"@ != "formal_parameter"@);
        assert("call_expression"@ != "return_type"@);
        assert(usage_kind(t, i) == "call"@);
    } else if k == "method_call_expression"@ {
        assert("method_call_expression"@ != "let_declaration"@);
        assert("method_call_expression"@ != "const_item"@);
        assert("method_call_expression"@ != "variable_declaration"@);
        assert("method_call_expression"@ != "parameter"@);
        assert("method_call_expression"@ != "formal_parameter"@);
        assert("method_call_expression"@ != "return_type"@);
        assert(usage_kind(t, i) == "call"@);
    }
}

/// A name that neither its parent nor its grandparent classifies, inside a
/// binding, a constant or a variable declaration (its great-grandparent),
/// is a definition.
pub proof fn law_names_deep_in_declarations_are_definitions(t: SyntaxTree, i: int, p: usize, g: usize, h: usize)
    requires
        t.parent(i) == Some(p),
        t.parent(p as int) == Some(g),
        t.parent(g as int) == Some(h),
        t.kind(p as int) != "function_item"@,
        t.kind(p as int) != "function_declaration"@,
        t.kind(p as int) != "method_definition"@,
        t.kind(p as int) != "method_declaration"@,
        t.kind(p as int) != "struct_item"@,
        t.kind(p as int) != "class_definition"@,
        t.kind(p as int) != "class_declaration"@,
        t.kind(p as int) != "enum_item"@,
        t.kind(p as int) != "interface_declaration"@,
        t.kind(p as int) != "type_alias_declaration"@,
        t.kind(p as int) != "let_declaration"@,
        t.kind(p as int) != "const_item"@,
        t.kind(p as int) != "static_item"@,
        t.kind(p as int) != "variable_declarator"@,
        t.kind(p as int) != "lexical_declaration"@,
        t.kind(p as int) != "use_declaration"@,
        t.kind(p as int) != "import_statement"@,
        t.kind(p as int) != "import_clause"@,
        t.kind(p as int) != "import_specifier"@,
        t.kind(p as int) != "call_expression"@,
        t.kind(p as int) != "method_call_expression"@,
        t.kind(p as int) != "call"@,
        t.kind(p as int) != "type_annotation"@,
        t.kind(p as int) != "type_identifier"@,
        t.kind(p as int) != "generic_type"@,
        t.kind(p as int) != "type_arguments"@,
        t.kind(p as int) != "type_parameter"@,
        t.kind(g as int) != "let_declaration"@,
        t.kind(g as int) != "const_item"@,
        t.kind(g as int) != "variable_declaration"@,
        t.kind(g as int) != "parameter"@,
        t.kind(g as int) != "formal_parameter"@,
        t.kind(g as int) != "return_type"@,
        t.kind(g as int) != "call_expression"@,
        t.kind(g as int) != "method_call_expression"@,
        t.kind(h as int) == "let_declaration"@ ||
            t.kind(h as int) == "const_item"@ ||
            t.kind(h as int) == "variable_declaration"@,
    ensures
        usage_kind(t, i) == "definition"@,
{
    reveal_strlit("let_declaration");
    assert("let_declaration"@.len() == 15);
    reveal_strlit("const_item");
    assert("const_item"@.len() == 10);
    reveal_strlit("variable_declaration");
    assert("variable_declaration"@.len() == 20);
    reveal_strlit("definition");
    assert("definition"@.len() == 10);
}

/// A name that none of its parent, grandparent and great-grandparent
/// classifies is a reference.
pub proof fn law_other_names_are_references(t: SyntaxTree, i: int, p: usize, g: usize)
    requires
        t.parent(i) == Some(p),
        t.parent(p as int) == Some(g),
        t.kind(p as int) != "function_item"@,
        t.kind(p as int) != "function_declaration"@,
        t.kind(p as int) != "method_definition"@,
        t.kind(p as int) != "method_declaration"@,
        t.kind(p as int) != "struct_item"@,
        t.kind(p as int) != "class_definition"@,
        t.kind(p as int) != "class_declaration"@,
        t.kind(p as int) != "enum_item"@,
        t.kind(p as int) != "interface_declaration"@,
        t.kind(p as int) != "type_alias_declaration"@,
        t.kind(p as int) != "let_declaration"@,
        t.kind(p as int) != "const_item"@,
        t.kind(p as int) != "static_item"@,
        t.kind(p as int) != "variable_declarator"@,
        t.kind(p as int) != "lexical_declaration"@,
        t.kind(p as int) != "use_declaration"@,
        t.kind(p as int) != "import_statement"@,
        t.kind(p as int) != "import_clause"@,
        t.kind(p as int) != "import_specifier"@,
        t.kind(p as int) != "call_expression"@,
        t.kind(p as int) != "method_call_expression"@,
        t.kind(p as int) != "call"@,
        t.kind(p as int) != "type_annotation"@,
        t.kind(p as int) != "type_identifier"@,
        t.kind(p as int) != "generic_type"@,
        t.kind(p as int) != "type_arguments"@,
        t.kind(p as int) != "type_parameter"@,
        t.kind(g as int) != "let_declaration"@,
        t.kind(g as int) != "const_item"@,
        t.kind(g as int) != "variable_declaration"@,
        t.kind(g as int) != "parameter"@,
        t.kind(g as int) != "formal_parameter"@,
        t.kind(g as int) != "return_type"@,
        t.kind(g as int) != "call_expression"@,
        t.kind(g as int) != "method_call_expression"@,
        t.parent(g as int) matches Some(h) ==> (t.kind(h as int) != "let_declaration"@ && t.kind(h as int) != "const_item"@ && t.kind(h as int) != "variable_declaration"@),
    ensures
        usage_kind(t, i) == "reference"@,
{
}

/// A name whose parent has no parent, and that its parent does not
/// classify, is a reference.
pub proof fn law_names_under_the_root_are_references(t: SyntaxTree, i: int, p: usize)
    requires
        t.parent(i) == Some(p),
        t.parent(p as int) is None,
        t.kind(p as int) != "function_item"@,
        t.kind(p as int) != "function_declaration"@,
        t.kind(p as int) != "method_definition"@,
        t.kind(p as int) != "method_declaration"@,
        t.kind(p as int) != "struct_item"@,
        t.kind(p as int) != "class_definition"@,
        t.kind(p as int) != "class_declaration"@,
        t.kind(p as int) != "enum_item"@,
        t.kind(p as int) != "interface_declaration"@,
        t.kind(p as int) != "type_alias_declaration"@,
        t.kind(p as int) != "let_declaration"@,
        t.kind(p as int) != "const_item"@,
        t.kind(p as int) != "static_item"@,
        t.kind(p as int) != "variable_declarator"@,
        t.kind(p as int) != "lexical_declaration"@,
        t.kind(p as int) != "use_declaration"@,
        t.kind(p as int) != "import_statement"@,
        t.kind(p as int) != "import_clause"@,
        t.kind(p as int) != "import_specifier"@,
        t.kind(p as int) != "call_expression"@,
        t.kind(p as int) != "method_call_expression"@,
        t.kind(p as int) != "call"@,
        t.kind(p as int) != "type_annotation"@,
        t.kind(p as int) != "type_identifier"@,
        t.kind(p as int) != "generic_type"@,
        t.kind(p as int) != "type_arguments"@,
        t.kind(p as int) != "type_parameter"@,
    ensures
        usage_kind(t, i) == "reference"@,
{
}

/// An identifier without a parent is a reference.
pub proof fn law_root_names_are_references(t: SyntaxTree, i: int)
    requires
        t.parent(i) is None,
    ensures
        usage_kind(t, i) == "reference"@,
{
}

} // verus!
