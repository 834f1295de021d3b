//! File paths as character sequences, with `/` as the separator.
use vstd::prelude::*;
use crate::text::{chars_of, last_index, lemma_last_index, push_char, rfind_char, slice_range, string_of, string_of_range};

verus! {

/// `Path::file_name`: the last component, ignoring trailing separators and
/// `.` components; none for an empty path, a root, `.` or `..`.
pub open spec fn file_name(s: Seq<char>) -> Option<Seq<char>>
    decreases s.len(),
{
    if s.len() == 0 {
        None
    } else if s.last() == '/' {
        file_name(s.drop_last())
    } else {
        let i = last_index(s, '/');
        let comp = s.skip(i + 1);
        if comp == "."@ {
            if i < 0 {
                None
            } else {
                proof {
                    lemma_last_index(s, '/');
                }
                file_name(s.take(i))
            }
        } else if comp == ".."@ {
            None
        } else {
            Some(comp)
        }
    }
}

/// The extension of a file name: what follows its last `.`, unless that dot
/// is the first character or there is none.
pub open spec fn name_extension(name: Seq<char>) -> Option<Seq<char>> {
    let i = last_index(name, '.');
    if i > 0 {
        Some(name.skip(i + 1))
    } else {
        None
    }
}

/// `Path::extension`.
pub open spec fn path_extension(s: Seq<char>) -> Option<Seq<char>> {
    match file_name(s) {
        None => None,
        Some(n) => name_extension(n),
    }
}

/// The stem of a file name (`Path::file_stem`).
pub open spec fn name_stem(name: Seq<char>) -> Seq<char> {
    let i = last_index(name, '.');
    if i > 0 {
        name.take(i)
    } else {
        name
    }
}

/// `Path::file_stem`.
pub open spec fn path_stem(s: Seq<char>) -> Option<Seq<char>> {
    match file_name(s) {
        None => None,
        Some(n) => Some(name_stem(n)),
    }
}

/// Bounds of the file name of `v` (see `file_name`).
pub fn file_name_bounds(v: &[char]) -> (r: Option<(usize, usize)>)
    ensures
        match r {
            Some((a, b)) => a <= b <= v.len() && file_name(v@) == Some(v@.subrange(a as int, b as int)),
            None => file_name(v@) is None,
        },
{
    let mut end = v.len();
    assert(v@.take(end as int) == v@);
    loop
        invariant
            end <= v.len(),
            file_name(v@) == file_name(v@.take(end as int)),
        decreases end,
    {
        let ghost s = v@.take(end as int);
        if end == 0 {
            return None;
        }
        if v[end - 1] == '/' {
            assert(s.drop_last() =~= v@.take(end - 1));
            end = end - 1;
        } else {
            let start = match rfind_char(v, '/', end) {
                Some(i) => i + 1,
                None => 0,
            };
            proof {
                lemma_last_index(s, '/');
            }
            assert(s.skip(last_index(s, '/') + 1) =~= v@.subrange(start as int, end as int));
            let dot = end - start == 1 && v[start] == '.';
            let dotdot = end - start == 2 && v[start] == '.' && v[start + 1] == '.';
            proof {
                let comp = v@.subrange(start as int, end as int);
                if dot {
                    assert(comp =~= "."@) by {
                        reveal_strlit(".");
                    }
                } else {
                    reveal_strlit(".");
                    assert(comp != "."@) by {
                        if comp.len() == 1 {
                            assert(comp[0] == v@[start as int]);
                        }
                    }
                }
                if dotdot {
                    assert(comp =~= ".."@) by {
                        reveal_strlit("..");
                    }
                } else {
                    reveal_strlit("..");
                    assert(comp != ".."@) by {
                        if comp.len() == 2 {
                            assert(comp[0] == v@[start as int]);
                            assert(comp[1] == v@[start + 1]);
                        }
                    }
                }
            }
            if dot {
                if start == 0 {
                    return None;
                }
                assert(s.take(start - 1) =~= v@.take(start - 1));
                end = start - 1;
            } else if dotdot {
                return None;
            } else {
                return Some((start, end));
            }
        }
    }
}

/// Bounds of `name_extension(v[a..b])` inside `v`.
pub fn name_extension_bounds(v: &[char], a: usize, b: usize) -> (r: Option<(usize, usize)>)
    requires
        a <= b <= v.len(),
    ensures
        match r {
            Some((x, y)) => a <= x <= y == b && name_extension(v@.subrange(a as int, b as int))
                == Some(v@.subrange(x as int, y as int)),
            None => name_extension(v@.subrange(a as int, b as int)) is None,
        },
{
    let name = slice_range(v, a, b);
    let r = rfind_char(name.as_slice(), '.', name.len());
    assert(name@.take(name@.len() as int) == name@);
    match r {
        Some(i) => {
            if i > 0 {
                assert(name@.skip(i + 1) =~= v@.subrange(a + i + 1, b as int));
                Some((a + i + 1, b))
            } else {
                None
            }
        },
        None => None,
    }
}

/// Bounds of `path_extension(v)` inside `v`.
pub fn extension_bounds(v: &[char]) -> (r: Option<(usize, usize)>)
    ensures
        match r {
            Some((x, y)) => x <= y <= v.len() && path_extension(v@) == Some(v@.subrange(x as int, y as int)),
            None => path_extension(v@) is None,
        },
{
    match file_name_bounds(v) {
        None => None,
        Some((a, b)) => name_extension_bounds(v, a, b),
    }
}

/// `Path::file_stem` of a path string.
pub fn file_stem(path: &str) -> (r: Option<String>)
    ensures
        match r {
            Some(s) => path_stem(path@) == Some(s@),
            None => path_stem(path@) is None,
        },
{
    let v = chars_of(path);
    match file_name_bounds(v.as_slice()) {
        None => None,
        Some((a, b)) => {
            let name = slice_range(v.as_slice(), a, b);
            let r = rfind_char(name.as_slice(), '.', name.len());
            assert(name@.take(name@.len() as int) == name@);
            match r {
                Some(i) => {
                    if i > 0 {
                        assert(name@.take(i as int) =~= name@.subrange(0, i as int));
                        Some(string_of_range(name.as_slice(), 0, i))
                    } else {
                        Some(string_of(name.as_slice()))
                    }
                },
                None => Some(string_of(name.as_slice())),
            }
        },
    }
}

/// A path is hidden when its file name starts with `.`.
pub open spec fn is_hidden_path(s: Seq<char>) -> bool {
    match file_name(s) {
        Some(n) => n.len() > 0 && n[0] == '.',
        None => false,
    }
}

/// Whether the file name of `path` starts with a dot.
pub fn is_hidden(path: &str) -> (r: bool)
    ensures
        r == is_hidden_path(path@),
{
    let v = chars_of(path);
    match file_name_bounds(v.as_slice()) {
        None => false,
        Some((a, b)) => a < b && v[a] == '.',
    }
}

/// The path with every `\` replaced by `/`.
pub open spec fn forward_slashes(s: Seq<char>) -> Seq<char> {
    s.map_values(|c: char| if c == '\\' { '/' } else { c })
}

/// A path with forward slashes only.
pub fn normalize_path(path: &str) -> (r: String)
    ensures
        r@ == forward_slashes(path@),
{
    let v = chars_of(path);
    let mut s = String::new();
    let mut i: usize = 0;
    while i < v.len()
        invariant
            i <= v.len(),
            s@ == forward_slashes(v@.take(i as int)),
        decreases v.len() - i,
    {
        let c = if v[i] == '\\' {
            '/'
        } else {
            v[i]
        };
        push_char(&mut s, c);
        assert(forward_slashes(v@.take(i + 1)) =~= forward_slashes(v@.take(i as int)).push(c));
        i = i + 1;
    }
    assert(v@.take(v.len() as int) == v@);
    s
}

} // verus!
