//! Which files a relative JavaScript or TypeScript import may name: the
//! import with each of the extensions `ts`, `tsx`, `js`, `jsx`, `mjs`,
//! `cjs` in that order, then the index files below it, then the import as
//! written; and an extension is added to a file name that has none.
use vstd::prelude::*;
use crate::analysis::dependencies::{join_path, js_group, with_ext};
use crate::text::{last_index, lemma_last_index_unique};

verus! {

/// The candidates of a relative import `spec` in directory `dir`, in the
/// order they are tried: the import with extension `ts`, `tsx`, `js`,
/// `jsx`, `mjs`, `cjs`; then `index.ts`, `index.tsx`, `index.js`,
/// `index.jsx` below it; then the import itself.
pub proof fn law_js_candidates(dir: Seq<char>, spec: Seq<char>)
    ensures
        ({
            let c = join_path(dir, spec);
            js_group(dir, spec) == seq![
                with_ext(c, "ts"@),
                with_ext(c, "tsx"@),
                with_ext(c, "js"@),
                with_ext(c, "jsx"@),
                with_ext(c, "mjs"@),
                with_ext(c, "cjs"@),
                join_path(c, "index.ts"@),
                join_path(c, "index.tsx"@),
                join_path(c, "index.js"@),
                join_path(c, "index.jsx"@),
                c,
            ]
        }),
{
    let c = join_path(dir, spec);
    assert(js_group(dir, spec) =~= seq![
        with_ext(c, "ts"@),
        with_ext(c, "tsx"@),
        with_ext(c, "js"@),
        with_ext(c, "jsx"@),
        with_ext(c, "mjs"@),
        with_ext(c, "cjs"@),
        join_path(c, "index.ts"@),
        join_path(c, "index.tsx"@),
        join_path(c, "index.js"@),
        join_path(c, "index.jsx"@),
        c,
    ]);
}

/// A path whose last component `name` is not empty and holds no `.` gets
/// the extension after a `.` at its end.
pub proof fn law_extension_appended(dir: Seq<char>, name: Seq<char>, ext: Seq<char>)
    requires
        name.len() > 0,
        forall|j: int| 0 <= j < name.len() ==> name[j] != '/' && name[j] != '.',
    ensures
        with_ext(join_path(dir, name), ext) == join_path(dir, name) + seq!['.'] + ext,
{
    let p = join_path(dir, name);
    let k = p.len() - name.len();
    assert(p.skip(k) =~= name);
    assert forall|j: int| k <= j < p.len() implies p[j] != '/' by {
        assert(p[j] == name[j - k]);
    }
    if k > 0 {
        assert(p[k - 1] == '/');
    }
    lemma_last_index_unique(p, '/', k - 1);
    lemma_last_index_unique(name, '.', -1);
    assert(last_index(name, '.') == -1);
    assert(p.take(k) + name =~= p);
}

/// An import `spec` from `dir` whose path ends in a name without a `.`
/// (`name`, after `base`) has that path with each of the six extensions
/// among its candidates: so `./Button` from `src` has `src/./Button.jsx`.
pub proof fn law_js_candidates_with_extension(
    dir: Seq<char>,
    spec: Seq<char>,
    base: Seq<char>,
    name: Seq<char>,
)
    requires
        join_path(dir, spec) == join_path(base, name),
        name.len() > 0,
        forall|j: int| 0 <= j < name.len() ==> name[j] != '/' && name[j] != '.',
    ensures
        ({
            let c = join_path(dir, spec);
            &&& js_group(dir, spec).contains(c + "."@ + "ts"@)
            &&& js_group(dir, spec).contains(c + "."@ + "tsx"@)
            &&& js_group(dir, spec).contains(c + "."@ + "js"@)
            &&& js_group(dir, spec).contains(c + "."@ + "jsx"@)
            &&& js_group(dir, spec).contains(c + "."@ + "mjs"@)
            &&& js_group(dir, spec).contains(c + "."@ + "cjs"@)
        }),
{
    let c = join_path(dir, spec);
    law_js_candidates(dir, spec);
    reveal_strlit(".");
    assert(seq!['.'] =~= "."@);
    law_extension_appended(base, name, "ts"@);
    law_extension_appended(base, name, "tsx"@);
    law_extension_appended(base, name, "js"@);
    law_extension_appended(base, name, "jsx"@);
    law_extension_appended(base, name, "mjs"@);
    law_extension_appended(base, name, "cjs"@);
    let g = js_group(dir, spec);
    assert(g[0] == c + "."@ + "ts"@);
    assert(g[1] == c + "."@ + "tsx"@);
    assert(g[2] == c + "."@ + "js"@);
    assert(g[3] == c + "."@ + "jsx"@);
    assert(g[4] == c + "."@ + "mjs"@);
    assert(g[5] == c + "."@ + "cjs"@);
}

} // verus!
