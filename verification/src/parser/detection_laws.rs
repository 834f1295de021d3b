//! Which language an extension is read as: each extension of the table,
//! in any case, and no other.
use vstd::prelude::*;
use crate::parser::{Language, language_for_extension};
use crate::text::ascii_lower;

verus! {

/// An extension is read, whatever its case, as the language of the table:
/// `rs` Rust; `py` Python; `js`, `mjs`, `cjs` JavaScript; `ts`, `tsx`
/// TypeScript; `html`, `htm` HTML; `css` CSS; `swift` Swift; `cs` C#;
/// `java` Java; `go` Go; `hs` Haskell. Any other extension is read as no
/// language.
pub proof fn law_extension_table(ext: Seq<char>)
    ensures
        ascii_lower(ext) == "rs"@ ==> language_for_extension(ascii_lower(ext)) == Some(Language::Rust),
        ascii_lower(ext) == "py"@ ==> language_for_extension(ascii_lower(ext)) == Some(Language::Python),
        ascii_lower(ext) == "js"@ ==> language_for_extension(ascii_lower(ext)) == Some(Language::JavaScript),
        ascii_lower(ext) == "mjs"@ ==> language_for_extension(ascii_lower(ext)) == Some(Language::JavaScript),
        ascii_lower(ext) == "cjs"@ ==> language_for_extension(ascii_lower(ext)) == Some(Language::JavaScript),
        ascii_lower(ext) == "ts"@ ==> language_for_extension(ascii_lower(ext)) == Some(Language::TypeScript),
        ascii_lower(ext) == "tsx"@ ==> language_for_extension(ascii_lower(ext)) == Some(Language::TypeScript),
        ascii_lower(ext) == "html"@ ==> language_for_extension(ascii_lower(ext)) == Some(Language::Html),
        ascii_lower(ext) == "htm"@ ==> language_for_extension(ascii_lower(ext)) == Some(Language::Html),
        ascii_lower(ext) == "css"@ ==> language_for_extension(ascii_lower(ext)) == Some(Language::Css),
        ascii_lower(ext) == "swift"@ ==> language_for_extension(ascii_lower(ext)) == Some(Language::Swift),
        ascii_lower(ext) == "cs"@ ==> language_for_extension(ascii_lower(ext)) == Some(Language::CSharp),
        ascii_lower(ext) == "java"@ ==> language_for_extension(ascii_lower(ext)) == Some(Language::Java),
        ascii_lower(ext) == "go"@ ==> language_for_extension(ascii_lower(ext)) == Some(Language::Go),
        ascii_lower(ext) == "hs"@ ==> language_for_extension(ascii_lower(ext)) == Some(Language::Haskell),
        language_for_extension(ascii_lower(ext)) is Some ==> (ascii_lower(ext) == "rs"@
            || ascii_lower(ext) == "py"@
            || ascii_lower(ext) == "js"@
            || ascii_lower(ext) == "mjs"@
            || ascii_lower(ext) == "cjs"@
            || ascii_lower(ext) == "ts"@
            || ascii_lower(ext) == "tsx"@
            || ascii_lower(ext) == "html"@
            || ascii_lower(ext) == "htm"@
            || ascii_lower(ext) == "css"@
            || ascii_lower(ext) == "swift"@
            || ascii_lower(ext) == "cs"@
            || ascii_lower(ext) == "java"@
            || ascii_lower(ext) == "go"@
            || ascii_lower(ext) == "hs"@),
{
    reveal_strlit("rs");
    assert("rs"@.len() == 2);
    reveal_strlit("py");
    assert("py"@.len() == 2);
    reveal_strlit("js");
    assert("js"@.len() == 2);
    reveal_strlit("mjs");
    assert("mjs"@.len() == 3);
    reveal_strlit("cjs");
    assert("cjs"@.len() == 3);
    reveal_strlit("ts");
    assert("ts"@.len() == 2);
    reveal_strlit("tsx");
    assert("tsx"@.len() == 3);
    reveal_strlit("html");
    assert("html"@.len() == 4);
    reveal_strlit("htm");
    assert("htm"@.len() == 3);
    reveal_strlit("css");
    assert("css"@.len() == 3);
    reveal_strlit("swift");
    assert("swift"@.len() == 5);
    reveal_strlit("cs");
    assert("cs"@.len() == 2);
    reveal_strlit("java");
    assert("java"@.len() == 4);
    reveal_strlit("go");
    assert("go"@.len() == 2);
    reveal_strlit("hs");
    assert("hs"@.len() == 2);
    let low = ascii_lower(ext);
    if low == "rs"@ {
        assert("rs"@[0] == 'r' && "py"@[0] == 'p');
        assert("rs"@ != "py"@);
        assert("rs"@[0] == 'r' && "js"@[0] == 'j');
        assert("rs"@ != "js"@);
        assert("rs"@ != "mjs"@);
        assert("rs"@ != "cjs"@);
        assert("rs"@[0] == 'r' && "ts"@[0] == 't');
        assert("rs"@ != "ts"@);
        assert("rs"@ != "tsx"@);
        assert("rs"@ != "html"@);
        assert("rs"@ != "htm"@);
        assert("rs"@ != "css"@);
        assert("rs"@ != "swift"@);
        assert("rs"@[0] == 'r' && "cs"@[0] == 'c');
        assert("rs"@ != "cs"@);
        assert("rs"@ != "java"@);
        assert("rs"@[0] == 'r' && "go"@[0] == 'g');
        assert("rs"@ != "go"@);
        assert("rs"@[0] == 'r' && "hs"@[0] == 'h');
        assert("rs"@ != "hs"@);
        assert(language_for_extension(low) == Some(Language::Rust));
    } else if low == "py"@ {
        assert("py"@[0] == 'p' && "rs"@[0] == 'r');
        assert("py"@ != "rs"@);
        assert("py"@[0] == 'p' && "js"@[0] == 'j');
        assert("py"@ != "js"@);
        assert("py"@ != "mjs"@);
        assert("py"@ != "cjs"@);
        assert("py"@[0] == 'p' && "ts"@[0] == 't');
        assert("py"@ != "ts"@);
        assert("py"@ != "tsx"@);
        assert("py"@ != "html"@);
        assert("py"@ != "htm"@);
        assert("py"@ != "css"@);
        assert("py"@ != "swift"@);
        assert("py"@[0] == 'p' && "cs"@[0] == 'c');
        assert("py"@ != "cs"@);
        assert("py"@ != "java"@);
        assert("py"@[0] == 'p' && "go"@[0] == 'g');
        assert("py"@ != "go"@);
        assert("py"@[0] == 'p' && "hs"@[0] == 'h');
        assert("py"@ != "hs"@);
        assert(language_for_extension(low) == Some(Language::Python));
    } else if low == "js"@ {
        assert("js"@[0] == 'j' && "rs"@[0] == 'r');
        assert("js"@ != "rs"@);
        assert("js"@[0] == 'j' && "py"@[0] == 'p');
        assert("js"@ != "py"@);
        assert("js"@ != "mjs"@);
        assert("js"@ != "cjs"@);
        assert("js"@[0] == 'j' && "ts"@[0] == 't');
        assert("js"@ != "ts"@);
        assert("js"@ != "tsx"@);
        assert("js"@ != "html"@);
        assert("js"@ != "htm"@);
        assert("js"@ != "css"@);
        assert("js"@ != "swift"@);
        assert("js"@[0] == 'j' && "cs"@[0] == 'c');
        assert("js"@ != "cs"@);
        assert("js"@ != "java"@);
        assert("js"@[0] == 'j' && "go"@[0] == 'g');
        assert("js"@ != "go"@);
        assert("js"@[0] == 'j' && "hs"@[0] == 'h');
        assert("js"@ != "hs"@);
        assert(language_for_extension(low) == Some(Language::JavaScript));
    } else if low == "mjs"@ {
        assert("mjs"@ != "rs"@);
        assert("mjs"@ != "py"@);
        assert("mjs"@ != "js"@);
        assert("mjs"@[0] == 'm' && "cjs"@[0] == 'c');
        assert("mjs"@ != "cjs"@);
        assert("mjs"@ != "ts"@);
        assert("mjs"@[0] == 'm' && "tsx"@[0] == 't');
        assert("mjs"@ != "tsx"@);
        assert("mjs"@ != "html"@);
        assert("mjs"@[0] == 'm' && "htm"@[0] == 'h');
        assert("mjs"@ != "htm"@);
        assert("mjs"@[0] == 'm' && "css"@[0] == 'c');
        assert("mjs"@ != "css"@);
        assert("mjs"@ != "swift"@);
        assert("mjs"@ != "cs"@);
        assert("mjs"@ != "java"@);
        assert("mjs"@ != "go"@);
        assert("mjs"@ != "hs"@);
        assert(language_for_extension(low) == Some(Language::JavaScript));
    } else if low == "cjs"@ {
        assert("cjs"@ != "rs"@);
        assert("cjs"@ != "py"@);
        assert("cjs"@ != "js"@);
        assert("cjs"@[0] == 'c' && "mjs"@[0] == 'm');
        assert("cjs"@ != "mjs"@);
        assert("cjs"@ != "ts"@);
        assert("cjs"@[0] == 'c' && "tsx"@[0] == 't');
        assert("cjs"@ != "tsx"@);
        assert("cjs"@ != "html"@);
        assert("cjs"@[0] == 'c' && "htm"@[0] == 'h');
        assert("cjs"@ != "htm"@);
        assert("cjs"@[1] == 'j' && "css"@[1] == 's');
        assert("cjs"@ != "css"@);
        assert("cjs"@ != "swift"@);
        assert("cjs"@ != "cs"@);
        assert("cjs"@ != "java"@);
        assert("cjs"@ != "go"@);
        assert("cjs"@ != "hs"@);
        assert(language_for_extension(low) == Some(Language::JavaScript));
    } else if low == "ts"@ {
        assert("ts"@[0] == 't' && "rs"@[0] == 'r');
        assert("ts"@ != "rs"@);
        assert("ts"@[0] == 't' && "py"@[0] == 'p');
        assert("ts"@ != "py"@);
        assert("ts"@[0] == 't' && "js"@[0] == 'j');
        assert("ts"@ != "js"@);
        assert("ts"@ != "mjs"@);
        assert("ts"@ != "cjs"@);
        assert("ts"@ != "tsx"@);
        assert("ts"@ != "html"@);
        assert("ts"@ != "htm"@);
        assert("ts"@ != "css"@);
        assert("ts"@ != "swift"@);
        assert("ts"@[0] == 't' && "cs"@[0] == 'c');
        assert("ts"@ != "cs"@);
        assert("ts"@ != "java"@);
        assert("ts"@[0] == 't' && "go"@[0] == 'g');
        assert("ts"@ != "go"@);
        assert("ts"@[0] == 't' && "hs"@[0] == 'h');
        assert("ts"@ != "hs"@);
        assert(language_for_extension(low) == Some(Language::TypeScript));
    } else if low == "tsx"@ {
        assert("tsx"@ != "rs"@);
        assert("tsx"@ != "py"@);
        assert("tsx"@ != "js"@);
        assert("tsx"@[0] == 't' && "mjs"@[0] == 'm');
        assert("tsx"@ != "mjs"@);
        assert("tsx"@[0] == 't' && "cjs"@[0] == 'c');
        assert("tsx"@ != "cjs"@);
        assert("tsx"@ != "ts"@);
        assert("tsx"@ != "html"@);
        assert("tsx"@[0] == 't' && "htm"@[0] == 'h');
        assert("tsx"@ != "htm"@);
        assert("tsx"@[0] == 't' && "css"@[0] == 'c');
        assert("tsx"@ != "css"@);
        assert("tsx"@ != "swift"@);
        assert("tsx"@ != "cs"@);
        assert("tsx"@ != "java"@);
        assert("tsx"@ != "go"@);
        assert("tsx"@ != "hs"@);
        assert(language_for_extension(low) == Some(Language::TypeScript));
    } else if low == "html"@ {
        assert("html"@ != "rs"@);
        assert("html"@ != "py"@);
        assert("html"@ != "js"@);
        assert("html"@ != "mjs"@);
        assert("html"@ != "cjs"@);
        assert("html"@ != "ts"@);
        assert("html"@ != "tsx"@);
        assert("html"@ != "htm"@);
        assert("html"@ != "css"@);
        assert("html"@ != "swift"@);
        assert("html"@ != "cs"@);
        assert("html"@[0] == 'h' && "java"@[0] == 'j');
        assert("html"@ != "java"@);
        assert("html"@ != "go"@);
        assert("html"@ != "hs"@);
        assert(language_for_extension(low) == Some(Language::Html));
    } else if low == "htm"@ {
        assert("htm"@ != "rs"@);
        assert("htm"@ != "py"@);
        assert("htm"@ != "js"@);
        assert("htm"@[0] == 'h' && "mjs"@[0] == 'm');
        assert("htm"@ != "mjs"@);
        assert("htm"@[0] == 'h' && "cjs"@[0] == 'c');
        assert("htm"@ != "cjs"@);
        assert("htm"@ != "ts"@);
        assert("htm"@[0] == 'h' && "tsx"@[0] == 't');
        assert("htm"@ != "tsx"@);
        assert("htm"@ != "html"@);
        assert("htm"@[0] == 'h' && "css"@[0] == 'c');
        assert("htm"@ != "css"@);
        assert("htm"@ != "swift"@);
        assert("htm"@ != "cs"@);
        assert("htm"@ != "java"@);
        assert("htm"@ != "go"@);
        assert("htm"@ != "hs"@);
        assert(language_for_extension(low) == Some(Language::Html));
    } else if low == "css"@ {
        assert("css"@ != "rs"@);
        assert("css"@ != "py"@);
        assert("css"@ != "js"@);
        assert("css"@[0] == 'c' && "mjs"@[0] == 'm');
        assert("css"@ != "mjs"@);
        assert("css"@[1] == 's' && "cjs"@[1] == 'j');
        assert("css"@ != "cjs"@);
        assert("css"@ != "ts"@);
        assert("css"@[0] == 'c' && "tsx"@[0] == 't');
        assert("css"@ != "tsx"@);
        assert("css"@ != "html"@);
        assert("css"@[0] == 'c' && "htm"@[0] == 'h');
        assert("css"@ != "htm"@);
        assert("css"@ != "swift"@);
        assert("css"@ != "cs"@);
        assert("css"@ != "java"@);
        assert("css"@ != "go"@);
        assert("css"@ != "hs"@);
        assert(language_for_extension(low) == Some(Language::Css));
    } else if low == "swift"@ {
        assert("swift"@ != "rs"@);
        assert("swift"@ != "py"@);
        assert("swift"@ != "js"@);
        assert("swift"@ != "mjs"@);
        assert("swift"@ != "cjs"@);
        assert("swift"@ != "ts"@);
        assert("swift"@ != "tsx"@);
        assert("swift"@ != "html"@);
        assert("swift"@ != "htm"@);
        assert("swift"@ != "css"@);
        assert("swift"@ != "cs"@);
        assert("swift"@ != "java"@);
        assert("swift"@ != "go"@);
        assert("swift"@ != "hs"@);
        assert(language_for_extension(low) == Some(Language::Swift));
    } else if low == "cs"@ {
        assert("cs"@[0] == 'c' && "rs"@[0] == 'r');
        assert("cs"@ != "rs"@);
        assert("cs"@[0] == 'c' && "py"@[0] == 'p');
        assert("cs"@ != "py"@);
        assert("cs"@[0] == 'c' && "js"@[0] == 'j');
        assert("cs"@ != "js"@);
        assert("cs"@ != "mjs"@);
        assert("cs"@ != "cjs"@);
        assert("cs"@[0] == 'c' && "ts"@[0] == 't');
        assert("cs"@ != "ts"@);
        assert("cs"@ != "tsx"@);
        assert("cs"@ != "html"@);
        assert("cs"@ != "htm"@);
        assert("cs"@ != "css"@);
        assert("cs"@ != "swift"@);
        assert("cs"@ != "java"@);
        assert("cs"@[0] == 'c' && "go"@[0] == 'g');
        assert("cs"@ != "go"@);
        assert("cs"@[0] == 'c' && "hs"@[0] == 'h');
        assert("cs"@ != "hs"@);
        assert(language_for_extension(low) == Some(Language::CSharp));
    } else if low == "java"@ {
        assert("java"@ != "rs"@);
        assert("java"@ != "py"@);
        assert("java"@ != "js"@);
        assert("java"@ != "mjs"@);
        assert("java"@ != "cjs"@);
        assert("java"@ != "ts"@);
        assert("java"@ != "tsx"@);
        assert("java"@[0] == 'j' && "html"@[0] == 'h');
        assert("java"@ != "html"@);
        assert("java"@ != "htm"@);
        assert("java"@ != "css"@);
        assert("java"@ != "swift"@);
        assert("java"@ != "cs"@);
        assert("java"@ != "go"@);
        assert("java"@ != "hs"@);
        assert(language_for_extension(low) == Some(Language::Java));
    } else if low == "go"@ {
        assert("go"@[0] == 'g' && "rs"@[0] == 'r');
        assert("go"@ != "rs"@);
        assert("go"@[0] == 'g' && "py"@[0] == 'p');
        assert("go"@ != "py"@);
        assert("go"@[0] == 'g' && "js"@[0] == 'j');
        assert("go"@ != "js"@);
        assert("go"@ != "mjs"@);
        assert("go"@ != "cjs"@);
        assert("go"@[0] == 'g' && "ts"@[0] == 't');
        assert("go"@ != "ts"@);
        assert("go"@ != "tsx"@);
        assert("go"@ != "html"@);
        assert("go"@ != "htm"@);
        assert("go"@ != "css"@);
        assert("go"@ != "swift"@);
        assert("go"@[0] == 'g' && "cs"@[0] == 'c');
        assert("go"@ != "cs"@);
        assert("go"@ != "java"@);
        assert("go"@[0] == 'g' && "hs"@[0] == 'h');
        assert("go"@ != "hs"@);
        assert(language_for_extension(low) == Some(Language::Go));
    } else if low == "hs"@ {
        assert("hs"@[0] == 'h' && "rs"@[0] == 'r');
        assert("hs"@ != "rs"@);
        assert("hs"@[0] == 'h' && "py"@[0] == 'p');
        assert("hs"@ != "py"@);
        assert("hs"@[0] == 'h' && "js"@[0] == 'j');
        assert("hs"@ != "js"@);
        assert("hs"@ != "mjs"@);
        assert("hs"@ != "cjs"@);
        assert("hs"@[0] == 'h' && "ts"@[0] == 't');
        assert("hs"@ != "ts"@);
        assert("hs"@ != "tsx"@);
        assert("hs"@ != "html"@);
        assert("hs"@ != "htm"@);
        assert("hs"@ != "css"@);
        assert("hs"@ != "swift"@);
        assert("hs"@[0] == 'h' && "cs"@[0] == 'c');
        assert("hs"@ != "cs"@);
        assert("hs"@ != "java"@);
        assert("hs"@[0] == 'h' && "go"@[0] == 'g');
        assert("hs"@ != "go"@);
        assert(language_for_extension(low) == Some(Language::Haskell));
    }
}

} // verus!
