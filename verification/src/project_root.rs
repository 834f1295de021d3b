//! Finding a project's root: from a start path, each directory up to the
//! file system's root is asked whether it holds a `Cargo.toml` file; the
//! first that does is the root. The library decides each step; whoever
//! holds the disk answers.
use vstd::prelude::*;
use crate::analysis::dependencies::{join_path, join_paths};
use crate::extraction::collect::opt_chars;

verus! {

/// `Path::parent` of a path.
pub uninterp spec fn path_parent(p: Seq<char>) -> Option<Seq<char>>;

/// `Path::parent`, as a string (see `path_parent`).
#[verifier::external_body]
fn parent_path(p: &str) -> (r: Option<String>)
    ensures
        opt_chars(r) == path_parent(p@),
{
    std::path::Path::new(p).parent().map(|q| q.to_string_lossy().into_owned())
}

/// What to do next in the search for a project root.
#[derive(Debug, Clone, PartialEq, Eq)]
pub enum RootStep {
    /// This directory is the root.
    Found(String),
    /// Ask the same of this directory, the parent of the one asked about.
    Up(String),
    /// There is no directory left to ask about: no root.
    NotFound,
}

/// The directory the search starts from: `start` itself when it is a
/// directory, else its parent; none when it has no parent.
pub fn root_search_start(start: &str, start_is_dir: bool) -> (r: Option<String>)
    ensures
        start_is_dir ==> opt_chars(r) == Some(start@),
        !start_is_dir ==> opt_chars(r) == path_parent(start@),
{
    if start_is_dir {
        let mut own = String::new();
        crate::text::push_str(&mut own, start);
        Some(own)
    } else {
        parent_path(start)
    }
}

/// The file whose presence marks `dir` as the project root.
pub fn manifest_in(dir: &str) -> (r: String)
    ensures
        r@ == join_path(dir@, "Cargo.toml"@),
{
    join_paths(dir, "Cargo.toml")
}

/// One step of the search, at directory `current`: the root when it holds
/// a `Cargo.toml` file, else on to its parent, and no root when it has
/// none.
pub fn root_search_step(current: &str, has_manifest: bool) -> (r: RootStep)
    ensures
        has_manifest ==> (r matches RootStep::Found(d) && d@ == current@),
        !has_manifest ==> match path_parent(current@) {
            Some(p) => (r matches RootStep::Up(q) && q@ == p),
            None => r is NotFound,
        },
{
    if has_manifest {
        let mut own = String::new();
        crate::text::push_str(&mut own, current);
        RootStep::Found(own)
    } else {
        match parent_path(current) {
            Some(p) => RootStep::Up(p),
            None => RootStep::NotFound,
        }
    }
}

} // verus!
