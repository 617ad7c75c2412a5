//! Pruning of the offline cache after a track is deleted: the folders the
//! deletion emptied are removed one by one going up, never at or above the
//! cache root.
use vstd::prelude::*;

use crate::output::opt_view;
use crate::text::{chars_of, string_of};

verus! {

/// What `Path::parent` yields for a path: the path without its last
/// component, or none for a root or an empty path.
pub uninterp spec fn path_parent_of(p: Seq<char>) -> Option<Seq<char>>;

/// What `Path::starts_with` yields: `base`'s components are a prefix of
/// `p`'s components.
pub uninterp spec fn path_has_prefix(p: Seq<char>, base: Seq<char>) -> bool;

/// What `==` on two `Path`s yields: their components are equal.
pub uninterp spec fn path_same(a: Seq<char>, b: Seq<char>) -> bool;

/// Calls `Path::parent`. Claims only that the result is `path_parent_of(p)`;
/// the component rules are left unsaid.
#[verifier::external_body]
fn path_parent(p: &str) -> (r: Option<String>)
    ensures
        opt_view(r) == path_parent_of(p@),
{
    std::path::Path::new(p).parent().map(|q| q.to_string_lossy().into_owned())
}

/// Calls `Path::starts_with`. Claims only that the result is
/// `path_has_prefix(p, base)`; the component rules are left unsaid.
#[verifier::external_body]
fn path_starts_with(p: &str, base: &str) -> (r: bool)
    ensures
        r == path_has_prefix(p@, base@),
{
    std::path::Path::new(p).starts_with(base)
}

/// Calls `==` on two `Path`s. Claims only that the result is
/// `path_same(a, b)`; the component rules are left unsaid.
#[verifier::external_body]
fn path_eq(a: &str, b: &str) -> (r: bool)
    ensures
        r == path_same(a@, b@),
{
    std::path::Path::new(a) == std::path::Path::new(b)
}

/// The pruning boundary: the given base folder when it is not empty;
/// otherwise none, and the default cache root applies.
pub fn offline_prune_boundary(base_dir: Option<&str>) -> (r: Option<String>)
    ensures
        match base_dir {
            Some(b) => if b@.len() > 0 {
                r matches Some(s) && s@ == b@
            } else {
                r is None
            },
            None => r is None,
        },
{
    match base_dir {
        Some(b) => {
            if b.unicode_len() > 0 {
                Some(string_of(&chars_of(b)))
            } else {
                None
            }
        },
        None => None,
    }
}

/// Whether a folder may be pruned, given whether it is the boundary itself
/// and whether it lies under the boundary: only strictly inside it.
pub open spec fn prune_allowed_spec(is_boundary: bool, under_boundary: bool) -> bool {
    !is_boundary && under_boundary
}

/// Whether `dir` may be pruned under `boundary`, compared as paths.
pub open spec fn may_prune(dir: Seq<char>, boundary: Seq<char>) -> bool {
    prune_allowed_spec(path_same(dir, boundary), path_has_prefix(dir, boundary))
}

/// The upward walk that prunes the folders a deletion emptied. The caller
/// looks at each folder that `next_dir` hands out and reports back with
/// `examined`.
pub struct PruneWalk {
    current: Option<String>,
    boundary: String,
}

impl PruneWalk {
    /// The folder the walk is at, if any.
    pub closed spec fn at(&self) -> Option<Seq<char>> {
        opt_view(self.current)
    }

    /// The boundary the walk never reaches.
    pub closed spec fn limit(&self) -> Seq<char> {
        self.boundary@
    }

    /// The walk after the file at `file_path` was deleted: it starts at
    /// the folder the file sat in.
    pub fn new(file_path: &str, boundary: &str) -> (w: PruneWalk)
        ensures
            w.limit() == boundary@,
            w.at() == path_parent_of(file_path@),
    {
        PruneWalk { current: path_parent(file_path), boundary: string_of(&chars_of(boundary)) }
    }

    /// The folder to look at next: the current one when it lies strictly
    /// inside the boundary; none ends the walk.
    pub fn next_dir(&self) -> (r: Option<String>)
        ensures
            opt_view(r) == match self.at() {
                Some(d) => if may_prune(d, self.limit()) {
                    Some(d)
                } else {
                    None::<Seq<char>>
                },
                None => None,
            },
    {
        match &self.current {
            Some(d) => {
                let at = path_eq(d.as_str(), self.boundary.as_str());
                let under = path_starts_with(d.as_str(), self.boundary.as_str());
                if !at && under {
                    Some(string_of(&chars_of(d.as_str())))
                } else {
                    None
                }
            },
            None => None,
        }
    }

    /// Reports on the folder `next_dir` handed out: the walk moves to its
    /// parent only when the folder could be read, held nothing and was
    /// removed; otherwise it ends.
    pub fn examined(&mut self, readable: bool, has_entries: bool, removed: bool)
        ensures
            final(self).limit() == old(self).limit(),
            final(self).at() == (if readable && !has_entries && removed {
                match old(self).at() {
                    Some(d) => path_parent_of(d),
                    None => None,
                }
            } else {
                None
            }),
    {
        let next = if readable && !has_entries && removed {
            match &self.current {
                Some(d) => path_parent(d.as_str()),
                None => None,
            }
        } else {
            None
        };
        self.current = next;
    }
}

} // verus!
