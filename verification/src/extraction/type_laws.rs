//! What holds of every type extraction: no type carries a usage count,
//! and which JavaScript and TypeScript declarations are types.
use vstd::prelude::*;
use crate::extraction::collect::{
    add_within_limit, extraction, supported_for_extension, types_of, FileInput, SupportedLanguage,
};
use crate::text::ascii_lower;
use crate::extraction::types::{LimitHit, TypeKind, TypeView};
use crate::syntax::SyntaxTree;

verus! {

/// Every definition has a usage count of 0.
pub open spec fn none_counted(s: Seq<TypeView>) -> bool {
    forall|j: int| 0 <= j < s.len() ==> (#[trigger] s[j]).5 == 0
}

proof fn lemma_push_uncounted(s: Seq<TypeView>, x: TypeView)
    requires
        none_counted(s),
        x.5 == 0,
    ensures
        none_counted(s.push(x)),
{
    assert forall|j: int| 0 <= j < s.push(x).len() implies (#[trigger] s.push(x)[j]).5 == 0 by {
        if j < s.len() {
            assert(s.push(x)[j] == s[j]);
        }
    }
}

proof fn lemma_rust_uncounted(t: SyntaxTree, k: int, file: Seq<char>)
    ensures
        none_counted(crate::extraction::rust_types::rust_definitions(t, k, file)),
    decreases k,
{
    if k > 0 {
        lemma_rust_uncounted(t, k - 1, file);
        let r = crate::extraction::rust_types::rust_definitions(t, k - 1, file);
        match crate::extraction::rust_types::rust_def_kind(t, k - 1) {
            Some(kind) => lemma_push_uncounted(
                r,
                crate::extraction::rust_types::rust_definition(t, k - 1, kind, file),
            ),
            None => {},
        }
    }
}

proof fn lemma_impls_uncounted(t: SyntaxTree, defs: Seq<TypeView>, k: int)
    requires
        none_counted(defs),
    ensures
        none_counted(crate::extraction::rust_types::with_impls(t, defs, k)),
    decreases k,
{
    if k > 0 {
        lemma_impls_uncounted(t, defs, k - 1);
        let d = crate::extraction::rust_types::with_impls(t, defs, k - 1);
        let n = crate::extraction::rust_types::add_impl(t, d, k - 1);
        let name = crate::analysis::shape::field_text_or(t, k - 1, "type"@, ""@);
        crate::extraction::types::lemma_def_index(d, name);
        assert(n.len() == d.len());
        assert forall|j: int| 0 <= j < n.len() implies (#[trigger] n[j]).5 == 0 by {
            assert(d[j].5 == 0);
        }
    }
}

proof fn lemma_python_uncounted(t: SyntaxTree, k: int, file: Seq<char>)
    ensures
        none_counted(crate::extraction::python_types::python_types_upto(t, k, file)),
    decreases k,
{
    if k > 0 {
        lemma_python_uncounted(t, k - 1, file);
        let r = crate::extraction::python_types::python_types_upto(t, k - 1, file);
        lemma_push_uncounted(r, crate::extraction::python_types::python_class(t, k - 1, file));
        match crate::extraction::python_types::special_assignment(t, k - 1) {
            Some((kind, args)) => lemma_push_uncounted(
                r,
                crate::extraction::python_types::python_special(t, k - 1, kind, args as int, file),
            ),
            None => {},
        }
    }
}

proof fn lemma_ts_uncounted(t: SyntaxTree, k: int, typescript: bool, file: Seq<char>)
    ensures
        none_counted(crate::extraction::ts_types::ts_types_upto(t, k, typescript, file)),
    decreases k,
{
    if k > 0 {
        lemma_ts_uncounted(t, k - 1, typescript, file);
        match crate::extraction::ts_types::ts_def_kind(t, k - 1, typescript) {
            Some(kind) => lemma_push_uncounted(
                crate::extraction::ts_types::ts_types_upto(t, k - 1, typescript, file),
                crate::extraction::ts_types::ts_definition(t, k - 1, kind, file),
            ),
            None => {},
        }
    }
}

proof fn lemma_csharp_uncounted(t: SyntaxTree, k: int, file: Seq<char>)
    ensures
        none_counted(crate::extraction::typed_types::csharp_types_upto(t, k, file)),
    decreases k,
{
    if k > 0 {
        lemma_csharp_uncounted(t, k - 1, file);
        match crate::extraction::typed_types::csharp_def_kind(t, k - 1) {
            Some(kind) => lemma_push_uncounted(
                crate::extraction::typed_types::csharp_types_upto(t, k - 1, file),
                crate::extraction::typed_types::csharp_definition(t, k - 1, kind, file),
            ),
            None => {},
        }
    }
}

proof fn lemma_java_uncounted(t: SyntaxTree, k: int, file: Seq<char>)
    ensures
        none_counted(crate::extraction::typed_types::java_types_upto(t, k, file)),
    decreases k,
{
    if k > 0 {
        lemma_java_uncounted(t, k - 1, file);
        match crate::extraction::typed_types::java_def_kind(t, k - 1) {
            Some(kind) => lemma_push_uncounted(
                crate::extraction::typed_types::java_types_upto(t, k - 1, file),
                crate::extraction::typed_types::java_definition(t, k - 1, kind, file),
            ),
            None => {},
        }
    }
}

proof fn lemma_go_uncounted(t: SyntaxTree, k: int, file: Seq<char>)
    ensures
        none_counted(crate::extraction::typed_types::go_types_upto(t, k, file)),
    decreases k,
{
    if k > 0 {
        lemma_go_uncounted(t, k - 1, file);
        match crate::extraction::typed_types::go_def(t, k - 1) {
            Some((kind, ty)) => lemma_push_uncounted(
                crate::extraction::typed_types::go_types_upto(t, k - 1, file),
                crate::extraction::typed_types::go_definition(t, k - 1, kind, ty as int, file),
            ),
            None => {},
        }
    }
}

proof fn lemma_haskell_uncounted(t: SyntaxTree, k: int, file: Seq<char>)
    ensures
        none_counted(crate::extraction::haskell_types::hs_types_upto(t, k, file)),
    decreases k,
{
    if k > 0 {
        lemma_haskell_uncounted(t, k - 1, file);
        match crate::extraction::haskell_types::hs_def_kind(t, k - 1) {
            Some(kind) => lemma_push_uncounted(
                crate::extraction::haskell_types::hs_types_upto(t, k - 1, file),
                crate::extraction::haskell_types::hs_definition(t, k - 1, kind, file),
            ),
            None => {},
        }
    }
}

/// The definitions read from one parsed file carry no usage count.
pub proof fn lemma_types_of_uncounted(
    t: SyntaxTree,
    l: crate::extraction::collect::SupportedLanguage,
    file: Seq<char>,
)
    ensures
        none_counted(types_of(t, l, file)),
{
    lemma_rust_uncounted(t, t.len(), file);
    lemma_impls_uncounted(t, crate::extraction::rust_types::rust_definitions(t, t.len(), file), t.len());
    lemma_python_uncounted(t, t.len(), file);
    lemma_ts_uncounted(t, t.len(), true, file);
    lemma_ts_uncounted(t, t.len(), false, file);
    lemma_csharp_uncounted(t, t.len(), file);
    lemma_java_uncounted(t, t.len(), file);
    lemma_go_uncounted(t, t.len(), file);
    lemma_haskell_uncounted(t, t.len(), file);
}

pub proof fn lemma_add_uncounted(
    kept: Seq<TypeView>,
    total: int,
    hit: Option<LimitHit>,
    new: Seq<TypeView>,
    limit: int,
)
    requires
        none_counted(kept),
        none_counted(new),
    ensures
        none_counted(add_within_limit(kept, total, hit, new, limit).0),
    decreases new.len(),
{
    if new.len() > 0 && kept.len() < limit {
        lemma_push_uncounted(kept, new[0]);
        assert forall|j: int| 0 <= j < new.drop_first().len() implies (#[trigger] new.drop_first()[j]).5 == 0 by {
            assert(new.drop_first()[j] == new[j + 1]);
        }
        lemma_add_uncounted(kept.push(new[0]), total + 1, hit, new.drop_first(), limit);
    }
}

/// No type that an extraction over files keeps carries a usage count.
pub proof fn law_extracted_types_uncounted(
    files: Seq<FileInput>,
    trees: Seq<Option<SyntaxTree>>,
    pattern: Option<Seq<char>>,
    limit: int,
)
    ensures
        none_counted(extraction(files, trees, pattern, limit).0),
    decreases files.len(),
{
    if files.len() > 0 {
        law_extracted_types_uncounted(files.drop_last(), trees.drop_last(), pattern, limit);
        let prev = extraction(files.drop_last(), trees.drop_last(), pattern, limit);
        let f = files.last();
        if prev.2 is None && crate::extraction::collect::selected_by(pattern, f.0) && f.1 is Some
            && crate::extraction::collect::supported_language(f.0) is Some && trees.last() is Some {
            let l = crate::extraction::collect::supported_language(f.0).unwrap();
            lemma_types_of_uncounted(trees.last().unwrap(), l, f.0);
            lemma_add_uncounted(prev.0, prev.1, prev.2, types_of(trees.last().unwrap(), l, f.0), limit);
        }
    }
}

/// A node of kind `kind` whose `name` child is of kind `name_kind`.
pub open spec fn declares(t: SyntaxTree, i: int, kind: Seq<char>, name_kind: Seq<char>) -> bool {
    &&& t.kind(i) == kind
    &&& t.child_by_field(i, "name"@) matches Some(n) && t.kind(n as int) == name_kind
}

/// What a JavaScript or TypeScript node declares. In JavaScript, a class
/// declaration named by an identifier declares a class, and nothing else
/// declares a type. In TypeScript, a class, interface or type alias
/// declaration named by a type identifier declares a class, an interface or
/// a type alias, an enum declaration named by an identifier an enum, and
/// nothing else a type.
pub proof fn law_script_declarations(t: SyntaxTree, i: int)
    ensures
        declares(t, i, "class_declaration"@, "identifier"@) ==> crate::extraction::ts_types::ts_def_kind(
            t,
            i,
            false,
        ) == Some(TypeKind::Class),
        crate::extraction::ts_types::ts_def_kind(t, i, false) is Some ==> declares(
            t,
            i,
            "class_declaration"@,
            "identifier"@,
        ),
        declares(t, i, "class_declaration"@, "type_identifier"@) ==> crate::extraction::ts_types::ts_def_kind(
            t,
            i,
            true,
        ) == Some(TypeKind::Class),
        declares(t, i, "interface_declaration"@, "type_identifier"@)
            ==> crate::extraction::ts_types::ts_def_kind(t, i, true) == Some(TypeKind::Interface),
        declares(t, i, "type_alias_declaration"@, "type_identifier"@)
            ==> crate::extraction::ts_types::ts_def_kind(t, i, true) == Some(TypeKind::TypeAlias),
        declares(t, i, "enum_declaration"@, "identifier"@) ==> crate::extraction::ts_types::ts_def_kind(
            t,
            i,
            true,
        ) == Some(TypeKind::Enum),
        crate::extraction::ts_types::ts_def_kind(t, i, true) is Some ==> declares(
            t,
            i,
            "class_declaration"@,
            "type_identifier"@,
        ) || declares(t, i, "interface_declaration"@, "type_identifier"@) || declares(
            t,
            i,
            "type_alias_declaration"@,
            "type_identifier"@,
        ) || declares(t, i, "enum_declaration"@, "identifier"@),
{
    reveal_strlit("class_declaration");
    assert("class_declaration"@.len() == 17);
    reveal_strlit("interface_declaration");
    assert("interface_declaration"@.len() == 21);
    reveal_strlit("type_alias_declaration");
    assert("type_alias_declaration"@.len() == 22);
    reveal_strlit("enum_declaration");
    assert("enum_declaration"@.len() == 16);
    reveal_strlit("identifier");
    assert("identifier"@.len() == 10);
    reveal_strlit("type_identifier");
    assert("type_identifier"@.len() == 15);
    assert("class_declaration"@ != "interface_declaration"@);
    assert("class_declaration"@ != "type_alias_declaration"@);
    assert("class_declaration"@ != "enum_declaration"@);
    assert("interface_declaration"@ != "class_declaration"@);
    assert("interface_declaration"@ != "type_alias_declaration"@);
    assert("interface_declaration"@ != "enum_declaration"@);
    assert("type_alias_declaration"@ != "class_declaration"@);
    assert("type_alias_declaration"@ != "interface_declaration"@);
    assert("type_alias_declaration"@ != "enum_declaration"@);
    assert("identifier"@ != "type_identifier"@);
}

proof fn lemma_defined_stays(t: SyntaxTree, i: int, k: int, typescript: bool, file: Seq<char>)
    requires
        0 <= i < k,
        crate::extraction::ts_types::ts_def_kind(t, i, typescript) is Some,
    ensures
        crate::extraction::ts_types::ts_types_upto(t, k, typescript, file).contains(
            crate::extraction::ts_types::ts_definition(
                t,
                i,
                crate::extraction::ts_types::ts_def_kind(t, i, typescript).unwrap(),
                file,
            ),
        ),
    decreases k,
{
    let d = crate::extraction::ts_types::ts_definition(
        t,
        i,
        crate::extraction::ts_types::ts_def_kind(t, i, typescript).unwrap(),
        file,
    );
    let prev = crate::extraction::ts_types::ts_types_upto(t, k - 1, typescript, file);
    if i == k - 1 {
        assert(prev.push(d)[prev.len() as int] == d);
    } else {
        lemma_defined_stays(t, i, k - 1, typescript, file);
        let j = choose|j: int| 0 <= j < prev.len() && prev[j] == d;
        match crate::extraction::ts_types::ts_def_kind(t, k - 1, typescript) {
            Some(kind) => {
                let x = crate::extraction::ts_types::ts_definition(t, k - 1, kind, file);
                assert(prev.push(x)[j] == d);
            },
            None => {},
        }
    }
}

/// Every class that a JavaScript file declares with an identifier as its
/// name is among the file's type definitions, as a class with that name,
/// at the line where its declaration starts.
pub proof fn law_js_classes_are_types(t: SyntaxTree, i: int, file: Seq<char>)
    requires
        0 <= i < t.len(),
        declares(t, i, "class_declaration"@, "identifier"@),
    ensures
        exists|j: int|
            0 <= j < crate::extraction::ts_types::ts_types(t, false, file).len() && {
                let d = #[trigger] crate::extraction::ts_types::ts_types(t, false, file)[j];
                &&& d.0 == crate::analysis::shape::field_text_or(t, i, "name"@, ""@)
                &&& d.1 == TypeKind::Class
                &&& d.2 == file
                &&& d.3 == crate::analysis::shape::node_line(t, i)
            },
{
    law_script_declarations(t, i);
    lemma_defined_stays(t, i, t.len(), false, file);
    let all = crate::extraction::ts_types::ts_types(t, false, file);
    let d = crate::extraction::ts_types::ts_definition(t, i, TypeKind::Class, file);
    let j = choose|j: int| 0 <= j < all.len() && all[j] == d;
    assert(all[j] == d);
}


/// The languages whose types are read, by extension in any case: `rs`
/// Rust; `ts`, `tsx` TypeScript; `js`, `jsx`, `mjs`, `cjs` JavaScript;
/// `py` Python; `java` Java; `cs` C#; `go` Go; `hs` Haskell; no other.
pub proof fn law_type_extension_table(ext: Seq<char>)
    ensures
        ascii_lower(ext) == "rs"@ ==> supported_for_extension(ascii_lower(ext)) == Some(SupportedLanguage::Rust),
        ascii_lower(ext) == "ts"@ ==> supported_for_extension(ascii_lower(ext)) == Some(SupportedLanguage::TypeScript),
        ascii_lower(ext) == "tsx"@ ==> supported_for_extension(ascii_lower(ext)) == Some(SupportedLanguage::TypeScript),
        ascii_lower(ext) == "js"@ ==> supported_for_extension(ascii_lower(ext)) == Some(SupportedLanguage::JavaScript),
        ascii_lower(ext) == "jsx"@ ==> supported_for_extension(ascii_lower(ext)) == Some(SupportedLanguage::JavaScript),
        ascii_lower(ext) == "mjs"@ ==> supported_for_extension(ascii_lower(ext)) == Some(SupportedLanguage::JavaScript),
        ascii_lower(ext) == "cjs"@ ==> supported_for_extension(ascii_lower(ext)) == Some(SupportedLanguage::JavaScript),
        ascii_lower(ext) == "py"@ ==> supported_for_extension(ascii_lower(ext)) == Some(SupportedLanguage::Python),
        ascii_lower(ext) == "java"@ ==> supported_for_extension(ascii_lower(ext)) == Some(SupportedLanguage::Java),
        ascii_lower(ext) == "cs"@ ==> supported_for_extension(ascii_lower(ext)) == Some(SupportedLanguage::CSharp),
        ascii_lower(ext) == "go"@ ==> supported_for_extension(ascii_lower(ext)) == Some(SupportedLanguage::Go),
        ascii_lower(ext) == "hs"@ ==> supported_for_extension(ascii_lower(ext)) == Some(SupportedLanguage::Haskell),
        supported_for_extension(ascii_lower(ext)) is Some ==> (ascii_lower(ext) == "rs"@
            || ascii_lower(ext) == "ts"@
            || ascii_lower(ext) == "tsx"@
            || ascii_lower(ext) == "js"@
            || ascii_lower(ext) == "jsx"@
            || ascii_lower(ext) == "mjs"@
            || ascii_lower(ext) == "cjs"@
            || ascii_lower(ext) == "py"@
            || ascii_lower(ext) == "java"@
            || ascii_lower(ext) == "cs"@
            || ascii_lower(ext) == "go"@
            || ascii_lower(ext) == "hs"@),
{
    reveal_strlit("rs");
    assert("rs"@.len() == 2);
    reveal_strlit("ts");
    assert("ts"@.len() == 2);
    reveal_strlit("tsx");
    assert("tsx"@.len() == 3);
    reveal_strlit("js");
    assert("js"@.len() == 2);
    reveal_strlit("jsx");
    assert("jsx"@.len() == 3);
    reveal_strlit("mjs");
    assert("mjs"@.len() == 3);
    reveal_strlit("cjs");
    assert("cjs"@.len() == 3);
    reveal_strlit("py");
    assert("py"@.len() == 2);
    reveal_strlit("java");
    assert("java"@.len() == 4);
    reveal_strlit("cs");
    assert("cs"@.len() == 2);
    reveal_strlit("go");
    assert("go"@.len() == 2);
    reveal_strlit("hs");
    assert("hs"@.len() == 2);
    let low = ascii_lower(ext);
    if low == "rs"@ {
        assert("rs"@[0] == 'r' && "ts"@[0] == 't');
        assert("rs"@ != "ts"@);
        assert("rs"@ != "tsx"@);
        assert("rs"@[0] == 'r' && "js"@[0] == 'j');
        assert("rs"@ != "js"@);
        assert("rs"@ != "jsx"@);
        assert("rs"@ != "mjs"@);
        assert("rs"@ != "cjs"@);
        assert("rs"@[0] == 'r' && "py"@[0] == 'p');
        assert("rs"@ != "py"@);
        assert("rs"@ != "java"@);
        assert("rs"@[0] == 'r' && "cs"@[0] == 'c');
        assert("rs"@ != "cs"@);
        assert("rs"@[0] == 'r' && "go"@[0] == 'g');
        assert("rs"@ != "go"@);
        assert("rs"@[0] == 'r' && "hs"@[0] == 'h');
        assert("rs"@ != "hs"@);
        assert(supported_for_extension(low) == Some(SupportedLanguage::Rust));
    } else if low == "ts"@ {
        assert("ts"@[0] == 't' && "rs"@[0] == 'r');
        assert("ts"@ != "rs"@);
        assert("ts"@ != "tsx"@);
        assert("ts"@[0] == 't' && "js"@[0] == 'j');
        assert("ts"@ != "js"@);
        assert("ts"@ != "jsx"@);
        assert("ts"@ != "mjs"@);
        assert("ts"@ != "cjs"@);
        assert("ts"@[0] == 't' && "py"@[0] == 'p');
        assert("ts"@ != "py"@);
        assert("ts"@ != "java"@);
        assert("ts"@[0] == 't' && "cs"@[0] == 'c');
        assert("ts"@ != "cs"@);
        assert("ts"@[0] == 't' && "go"@[0] == 'g');
        assert("ts"@ != "go"@);
        assert("ts"@[0] == 't' && "hs"@[0] == 'h');
        assert("ts"@ != "hs"@);
        assert(supported_for_extension(low) == Some(SupportedLanguage::TypeScript));
    } else if low == "tsx"@ {
        assert("tsx"@ != "rs"@);
        assert("tsx"@ != "ts"@);
        assert("tsx"@ != "js"@);
        assert("tsx"@[0] == 't' && "jsx"@[0] == 'j');
        assert("tsx"@ != "jsx"@);
        assert("tsx"@[0] == 't' && "mjs"@[0] == 'm');
        assert("tsx"@ != "mjs"@);
        assert("tsx"@[0] == 't' && "cjs"@[0] == 'c');
        assert("tsx"@ != "cjs"@);
        assert("tsx"@ != "py"@);
        assert("tsx"@ != "java"@);
        assert("tsx"@ != "cs"@);
        assert("tsx"@ != "go"@);
        assert("tsx"@ != "hs"@);
        assert(supported_for_extension(low) == Some(SupportedLanguage::TypeScript));
    } else if low == "js"@ {
        assert("js"@[0] == 'j' && "rs"@[0] == 'r');
        assert("js"@ != "rs"@);
        assert("js"@[0] == 'j' && "ts"@[0] == 't');
        assert("js"@ != "ts"@);
        assert("js"@ != "tsx"@);
        assert("js"@ != "jsx"@);
        assert("js"@ != "mjs"@);
        assert("js"@ != "cjs"@);
        assert("js"@[0] == 'j' && "py"@[0] == 'p');
        assert("js"@ != "py"@);
        assert("js"@ != "java"@);
        assert("js"@[0] == 'j' && "cs"@[0] == 'c');
        assert("js"@ != "cs"@);
        assert("js"@[0] == 'j' && "go"@[0] == 'g');
        assert("js"@ != "go"@);
        assert("js"@[0] == 'j' && "hs"@[0] == 'h');
        assert("js"@ != "hs"@);
        assert(supported_for_extension(low) == Some(SupportedLanguage::JavaScript));
    } else if low == "jsx"@ {
        assert("jsx"@ != "rs"@);
        assert("jsx"@ != "ts"@);
        assert("jsx"@[0] == 'j' && "tsx"@[0] == 't');
        assert("jsx"@ != "tsx"@);
        assert("jsx"@ != "js"@);
        assert("jsx"@[0] == 'j' && "mjs"@[0] == 'm');
        assert("jsx"@ != "mjs"@);
        assert("jsx"@[0] == 'j' && "cjs"@[0] == 'c');
        assert("jsx"@ != "cjs"@);
        assert("jsx"@ != "py"@);
        assert("jsx"@ != "java"@);
        assert("jsx"@ != "cs"@);
        assert("jsx"@ != "go"@);
        assert("jsx"@ != "hs"@);
        assert(supported_for_extension(low) == Some(SupportedLanguage::JavaScript));
    } else if low == "mjs"@ {
        assert("mjs"@ != "rs"@);
        assert("mjs"@ != "ts"@);
        assert("mjs"@[0] == 'm' && "tsx"@[0] == 't');
        assert("mjs"@ != "tsx"@);
        assert("mjs"@ != "js"@);
        assert("mjs"@[0] == 'm' && "jsx"@[0] == 'j');
        assert("mjs"@ != "jsx"@);
        assert("mjs"@[0] == 'm' && "cjs"@[0] == 'c');
        assert("mjs"@ != "cjs"@);
        assert("mjs"@ != "py"@);
        assert("mjs"@ != "java"@);
        assert("mjs"@ != "cs"@);
        assert("mjs"@ != "go"@);
        assert("mjs"@ != "hs"@);
        assert(supported_for_extension(low) == Some(SupportedLanguage::JavaScript));
    } else if low == "cjs"@ {
        assert("cjs"@ != "rs"@);
        assert("cjs"@ != "ts"@);
        assert("cjs"@[0] == 'c' && "tsx"@[0] == 't');
        assert("cjs"@ != "tsx"@);
        assert("cjs"@ != "js"@);
        assert("cjs"@[0] == 'c' && "jsx"@[0] == 'j');
        assert("cjs"@ != "jsx"@);
        assert("cjs"@[0] == 'c' && "mjs"@[0] == 'm');
        assert("cjs"@ != "mjs"@);
        assert("cjs"@ != "py"@);
        assert("cjs"@ != "java"@);
        assert("cjs"@ != "cs"@);
        assert("cjs"@ != "go"@);
        assert("cjs"@ != "hs"@);
        assert(supported_for_extension(low) == Some(SupportedLanguage::JavaScript));
    } else if low == "py"@ {
        assert("py"@[0] == 'p' && "rs"@[0] == 'r');
        assert("py"@ != "rs"@);
        assert("py"@[0] == 'p' && "ts"@[0] == 't');
        assert("py"@ != "ts"@);
        assert("py"@ != "tsx"@);
        assert("py"@[0] == 'p' && "js"@[0] == 'j');
        assert("py"@ != "js"@);
        assert("py"@ != "jsx"@);
        assert("py"@ != "mjs"@);
        assert("py"@ != "cjs"@);
        assert("py"@ != "java"@);
        assert("py"@[0] == 'p' && "cs"@[0] == 'c');
        assert("py"@ != "cs"@);
        assert("py"@[0] == 'p' && "go"@[0] == 'g');
        assert("py"@ != "go"@);
        assert("py"@[0] == 'p' && "hs"@[0] == 'h');
        assert("py"@ != "hs"@);
        assert(supported_for_extension(low) == Some(SupportedLanguage::Python));
    } else if low == "java"@ {
        assert("java"@ != "rs"@);
        assert("java"@ != "ts"@);
        assert("java"@ != "tsx"@);
        assert("java"@ != "js"@);
        assert("java"@ != "jsx"@);
        assert("java"@ != "mjs"@);
        assert("java"@ != "cjs"@);
        assert("java"@ != "py"@);
        assert("java"@ != "cs"@);
        assert("java"@ != "go"@);
        assert("java"@ != "hs"@);
        assert(supported_for_extension(low) == Some(SupportedLanguage::Java));
    } else if low == "cs"@ {
        assert("cs"@[0] == 'c' && "rs"@[0] == 'r');
        assert("cs"@ != "rs"@);
        assert("cs"@[0] == 'c' && "ts"@[0] == 't');
        assert("cs"@ != "ts"@);
        assert("cs"@ != "tsx"@);
        assert("cs"@[0] == 'c' && "js"@[0] == 'j');
        assert("cs"@ != "js"@);
        assert("cs"@ != "jsx"@);
        assert("cs"@ != "mjs"@);
        assert("cs"@ != "cjs"@);
        assert("cs"@[0] == 'c' && "py"@[0] == 'p');
        assert("cs"@ != "py"@);
        assert("cs"@ != "java"@);
        assert("cs"@[0] == 'c' && "go"@[0] == 'g');
        assert("cs"@ != "go"@);
        assert("cs"@[0] == 'c' && "hs"@[0] == 'h');
        assert("cs"@ != "hs"@);
        assert(supported_for_extension(low) == Some(SupportedLanguage::CSharp));
    } else if low == "go"@ {
        assert("go"@[0] == 'g' && "rs"@[0] == 'r');
        assert("go"@ != "rs"@);
        assert("go"@[0] == 'g' && "ts"@[0] == 't');
        assert("go"@ != "ts"@);
        assert("go"@ != "tsx"@);
        assert("go"@[0] == 'g' && "js"@[0] == 'j');
        assert("go"@ != "js"@);
        assert("go"@ != "jsx"@);
        assert("go"@ != "mjs"@);
        assert("go"@ != "cjs"@);
        assert("go"@[0] == 'g' && "py"@[0] == 'p');
        assert("go"@ != "py"@);
        assert("go"@ != "java"@);
        assert("go"@[0] == 'g' && "cs"@[0] == 'c');
        assert("go"@ != "cs"@);
        assert("go"@[0] == 'g' && "hs"@[0] == 'h');
        assert("go"@ != "hs"@);
        assert(supported_for_extension(low) == Some(SupportedLanguage::Go));
    } else if low == "hs"@ {
        assert("hs"@[0] == 'h' && "rs"@[0] == 'r');
        assert("hs"@ != "rs"@);
        assert("hs"@[0] == 'h' && "ts"@[0] == 't');
        assert("hs"@ != "ts"@);
        assert("hs"@ != "tsx"@);
        assert("hs"@[0] == 'h' && "js"@[0] == 'j');
        assert("hs"@ != "js"@);
        assert("hs"@ != "jsx"@);
        assert("hs"@ != "mjs"@);
        assert("hs"@ != "cjs"@);
        assert("hs"@[0] == 'h' && "py"@[0] == 'p');
        assert("hs"@ != "py"@);
        assert("hs"@ != "java"@);
        assert("hs"@[0] == 'h' && "cs"@[0] == 'c');
        assert("hs"@ != "cs"@);
        assert("hs"@[0] == 'h' && "go"@[0] == 'g');
        assert("hs"@ != "go"@);
        assert(supported_for_extension(low) == Some(SupportedLanguage::Haskell));
    }
}

} // verus!
