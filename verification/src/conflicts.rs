//! Merge conflicts: how a conflicting file is classified, which of its
//! versions stands for it in the index, what a resolved list of GPG IDs is
//! written as, and that a conflict is resolved once.

use vstd::prelude::*;

use crate::paths::{file_name, file_name_of, has_extension_of, path_has_extension};
use crate::text::{join_with, joined_with, same_text, views};

verus! {

/// What a conflicting file is.
#[derive(Debug, Clone, Copy, PartialEq, Eq, Structural)]
pub enum ConflictKind {
    Password,
    GpgId,
    PlainText,
    Binary,
}

/// Some version of the file has the extension `ext`.
pub open spec fn any_has_extension(paths: Seq<Seq<char>>, ext: Seq<char>) -> bool {
    exists|i: int| 0 <= i < paths.len() && has_extension_of(#[trigger] paths[i], ext)
}

/// A version is a list of GPG IDs: the file is named `.gpg-id`, or it has
/// the extension `gpg-id`.
pub open spec fn is_gpg_id_path(p: Seq<char>) -> bool {
    file_name_of(p) == ".gpg-id"@ || has_extension_of(p, "gpg-id"@)
}

/// Some version of the file is a list of GPG IDs.
pub open spec fn any_gpg_id_path(paths: Seq<Seq<char>>) -> bool {
    exists|i: int| 0 <= i < paths.len() && is_gpg_id_path(#[trigger] paths[i])
}

/// What a conflicting file is, from the paths of its versions and from
/// what reading them gave: a password where a version has the extension
/// `gpg` and all versions decrypt; else a list of GPG IDs where a version
/// is a `.gpg-id` file (or has the extension `gpg-id`) and all versions
/// list known keys; else plain text where all versions are text; else
/// binary.
pub open spec fn conflict_kind_of(
    paths: Seq<Seq<char>>,
    decrypts: bool,
    lists_keys: bool,
    is_text: bool,
) -> ConflictKind {
    if any_has_extension(paths, "gpg"@) && decrypts {
        ConflictKind::Password
    } else if any_gpg_id_path(paths) && lists_keys {
        ConflictKind::GpgId
    } else if is_text {
        ConflictKind::PlainText
    } else {
        ConflictKind::Binary
    }
}

fn any_with_extension(paths: &Vec<String>, ext: &str) -> (res: bool)
    ensures
        res == any_has_extension(views(paths@), ext@),
{
    let mut i: usize = 0;
    while i < paths.len()
        invariant
            i <= paths@.len(),
            forall|j: int| 0 <= j < i ==> !has_extension_of(#[trigger] views(paths@)[j], ext@),
        decreases paths@.len() - i,
    {
        if path_has_extension(paths[i].as_str(), ext) {
            assert(has_extension_of(views(paths@)[i as int], ext@));
            return true;
        }
        i = i + 1;
    }
    false
}

/// Whether the version at `p` is a list of GPG IDs.
pub fn gpg_id_path(p: &str) -> (res: bool)
    ensures
        res == is_gpg_id_path(p@),
{
    let name = file_name(p);
    same_text(name.as_str(), ".gpg-id") || path_has_extension(p, "gpg-id")
}

fn any_gpg_id(paths: &Vec<String>) -> (res: bool)
    ensures
        res == any_gpg_id_path(views(paths@)),
{
    let mut i: usize = 0;
    while i < paths.len()
        invariant
            i <= paths@.len(),
            forall|j: int| 0 <= j < i ==> !is_gpg_id_path(#[trigger] views(paths@)[j]),
        decreases paths@.len() - i,
    {
        if gpg_id_path(paths[i].as_str()) {
            assert(is_gpg_id_path(views(paths@)[i as int]));
            return true;
        }
        i = i + 1;
    }
    false
}

/// Whether some version of the file is a password (by the extension
/// `gpg`) or a list of GPG IDs (a `.gpg-id` file); reading them as such
/// is only tried where it is.
pub fn conflict_candidates(paths: &Vec<String>) -> (res: (bool, bool))
    ensures
        res.0 == any_has_extension(views(paths@), "gpg"@),
        res.1 == any_gpg_id_path(views(paths@)),
{
    (any_with_extension(paths, "gpg"), any_gpg_id(paths))
}

/// What a conflicting file is.
pub fn conflict_kind(paths: &Vec<String>, decrypts: bool, lists_keys: bool, is_text: bool) -> (res:
    ConflictKind)
    ensures
        res == conflict_kind_of(views(paths@), decrypts, lists_keys, is_text),
{
    let (password, gpg_id) = conflict_candidates(paths);
    if password && decrypts {
        ConflictKind::Password
    } else if gpg_id && lists_keys {
        ConflictKind::GpgId
    } else if is_text {
        ConflictKind::PlainText
    } else {
        ConflictKind::Binary
    }
}

/// A conflict on a `.gpg-id` file of the store whose versions list known
/// keys is a conflict of GPG IDs, whatever else reading the versions gave.
pub proof fn law_gpg_id_file_conflict(paths: Seq<Seq<char>>, decrypts: bool, is_text: bool, k: int)
    requires
        0 <= k < paths.len(),
        file_name_of(paths[k]) == ".gpg-id"@,
        !any_has_extension(paths, "gpg"@),
    ensures
        conflict_kind_of(paths, decrypts, true, is_text) == ConflictKind::GpgId,
{
    assert(is_gpg_id_path(paths[k]));
}

/// The version that stands for a conflict in the index: ours, else the
/// common ancestor, else theirs.
pub open spec fn first_present_of<T>(our: Option<T>, ancestor: Option<T>, their: Option<T>) -> Option<T> {
    if our is Some {
        our
    } else if ancestor is Some {
        ancestor
    } else {
        their
    }
}

/// The version that stands for a conflict in the index.
pub fn first_present<T>(our: Option<T>, ancestor: Option<T>, their: Option<T>) -> (res: Option<T>)
    ensures
        res == first_present_of(our, ancestor, their),
{
    if our.is_some() {
        our
    } else if ancestor.is_some() {
        ancestor
    } else {
        their
    }
}

/// The content of a resolved `.gpg-id` file: the IDs separated by line
/// endings.
pub fn resolved_gpg_id_content(ids: &Vec<String>) -> (res: String)
    ensures
        res@ == joined_with(views(ids@), "\n"@),
{
    join_with(ids, "\n")
}

/// The message of the refusal to resolve a conflict twice.
pub open spec fn already_resolved_message() -> Seq<char> {
    "Merge conflict already resolved"@
}

/// Whether a conflict has been resolved.
#[derive(Debug, Clone, Copy, PartialEq, Eq, Structural)]
pub struct ConflictState {
    resolved: bool,
}

impl ConflictState {
    /// The conflict has been resolved.
    pub closed spec fn resolved_now(self) -> bool {
        self.resolved
    }

    /// A conflict not yet resolved.
    pub fn new() -> (res: Self)
        ensures
            !res.resolved_now(),
    {
        ConflictState { resolved: false }
    }

    /// Whether the conflict has been resolved.
    pub fn is_resolved(&self) -> (res: bool)
        ensures
            res == self.resolved_now(),
    {
        self.resolved
    }

    /// Whether the conflict may be resolved now: a resolved conflict is
    /// refused with its message.
    pub fn check_resolvable(&self) -> (res: Result<(), &'static str>)
        ensures
            match res {
                Ok(()) => !self.resolved_now(),
                Err(m) => self.resolved_now() && m@ == already_resolved_message(),
            },
    {
        if self.resolved {
            Err("Merge conflict already resolved")
        } else {
            Ok(())
        }
    }

    /// Records that the resolution was written to the index.
    pub fn mark_resolved(&mut self)
        ensures
            final(self).resolved_now(),
    {
        self.resolved = true;
    }
}

} // verus!
