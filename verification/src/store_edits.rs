//! The decisions and texts of the edits of the store's entries: renaming
//! and removing entries, setting the GPG IDs of a directory, and checking
//! the outcome of an encryption.

use vstd::prelude::*;

use crate::error::StoreError;
use crate::pass_node::EntryKind;
use crate::paths::{
    entry_name, entry_name_of, extension_of, file_name, file_name_of, has_extension_of, joined_path,
    last_dot, last_slash, lemma_last_dot_append, lemma_last_slash_append, parent_of, stem, stem_of,
    trim_trailing_slashes, with_extension, with_extension_of, with_file_name, with_file_name_of,
    without_extension_of, without_trailing_slashes_of,
};
use crate::text::{
    is_plain_line, join_with, joined_with, lemma_text_lines_terminated, same_text,
    terminate_lines, terminated, text_lines, views,
};

verus! {

/// The path an entry gets when it is renamed to `new_name`: its last
/// component is replaced, and a password keeps the extension `gpg`.
/// Separators at the end of the path or of the name end no component.
pub open spec fn renamed_path_of(old_path: Seq<char>, new_name: Seq<char>, kind: EntryKind) -> Seq<
    char,
> {
    let p = with_file_name_of(
        without_trailing_slashes_of(old_path),
        without_trailing_slashes_of(new_name),
    );
    if kind == EntryKind::Password {
        with_extension_of(p, "gpg"@)
    } else {
        p
    }
}

/// A name made of `new_name` after a run of whole components: the
/// path's last component is `new_name`.
proof fn lemma_file_name_after(pre: Seq<char>, new_name: Seq<char>)
    requires
        pre.len() == 0 || pre[pre.len() - 1] == '/',
        forall|j: int| 0 <= j < new_name.len() ==> new_name[j] != '/',
    ensures
        last_slash(pre + new_name) == pre.len() - 1,
        file_name_of(pre + new_name) == new_name,
        (pre + new_name).subrange(0, pre.len() as int) == pre,
{
    lemma_last_slash_append(pre, new_name);
    if pre.len() > 0 {
        assert(last_slash(pre) == pre.len() - 1);
    }
    assert((pre + new_name).subrange(pre.len() as int, (pre + new_name).len() as int) =~= new_name);
    assert((pre + new_name).subrange(0, pre.len() as int) =~= pre);
}

/// A password renamed to `new_name`, a name without separators, keeps the
/// extension `gpg`, and is named by `new_name` without its extension.
#[verifier::spinoff_prover]
#[verifier::rlimit(40)]
pub proof fn law_renamed_password_keeps_extension(old_path: Seq<char>, new_name: Seq<char>)
    requires
        new_name.len() > 0,
        forall|j: int| 0 <= j < new_name.len() ==> new_name[j] != '/',
    ensures
        has_extension_of(renamed_path_of(old_path, new_name, EntryKind::Password), "gpg"@),
        stem_of(file_name_of(renamed_path_of(old_path, new_name, EntryKind::Password)))
            == stem_of(new_name),
{
    reveal_strlit("gpg");
    let old = without_trailing_slashes_of(old_path);
    assert(without_trailing_slashes_of(new_name) == new_name);
    let base = match parent_of(old) {
        Some(d) => d,
        None => old,
    };
    let p = with_file_name_of(old, new_name);
    assert(p == joined_path(base, new_name));
    let pre = if base.len() == 0 || base[base.len() - 1] == '/' {
        base
    } else {
        base + seq!['/']
    };
    assert(p =~= pre + new_name);
    lemma_file_name_after(pre, new_name);
    let d = last_dot(new_name);
    crate::paths::lemma_last_char_index(new_name, '.', d);
    let st = stem_of(new_name);
    assert(st.len() > 0);
    assert(forall|j: int| 0 <= j < st.len() ==> st[j] == new_name[j]);
    assert(without_extension_of(p) =~= pre + st);
    let tail = st + seq!['.'] + "gpg"@;
    let q = with_extension_of(p, "gpg"@);
    assert(q =~= pre + tail);
    assert(forall|j: int| 0 <= j < tail.len() ==> tail[j] != '/') by {
        assert forall|j: int| 0 <= j < tail.len() implies tail[j] != '/' by {
            if j < st.len() {
                assert(tail[j] == new_name[j]);
            }
        }
    }
    lemma_file_name_after(pre, tail);
    assert(file_name_of(q) == tail);
    lemma_last_dot_append(st + seq!['.'], "gpg"@);
    assert(st + seq!['.'] + "gpg"@ =~= (st + seq!['.']) + "gpg"@);
    assert(last_dot(st + seq!['.']) == st.len());
    assert(last_dot(tail) == st.len());
    assert(tail.subrange(st.len() as int + 1, tail.len() as int) =~= "gpg"@);
    assert(tail.subrange(0, st.len() as int) =~= st);
    assert(extension_of(tail) == Some("gpg"@));
}

/// The GPG IDs written to a `.gpg-id` file are read back as they were
/// written, where each ID is a plain line.
pub proof fn law_gpg_ids_read_back(ids: Seq<Seq<char>>)
    requires
        forall|i: int| 0 <= i < ids.len() ==> is_plain_line(#[trigger] ids[i]),
    ensures
        text_lines(terminated(ids)) == ids,
{
    lemma_text_lines_terminated(ids);
}

/// Renaming an entry that is not a password only replaces its last
/// component: no extension is added or changed.
pub proof fn law_rename_of_non_password(old_path: Seq<char>, new_name: Seq<char>, kind: EntryKind)
    requires
        kind != EntryKind::Password,
    ensures
        renamed_path_of(old_path, new_name, kind) == with_file_name_of(
            without_trailing_slashes_of(old_path),
            without_trailing_slashes_of(new_name),
        ),
{
}

/// The commit message of a rename, naming both entries as the store
/// shows them; `None` where one of the paths does not lie in the store.
pub open spec fn rename_message_of(old_path: Seq<char>, new_path: Seq<char>, root: Seq<char>) -> Option<
    Seq<char>,
> {
    match (entry_name_of(old_path, root), entry_name_of(new_path, root)) {
        (Some(a), Some(b)) => Some("Rename '"@ + a + "' to '"@ + b + "'."@),
        _ => None,
    }
}

/// What a rename does: the new path and name of the entry, and the commit
/// message where the store uses git.
#[derive(Debug)]
pub struct RenamePlan {
    pub new_path: String,
    pub new_name: String,
    pub message: Option<String>,
}

/// The plan of renaming the entry at `old_path`, of kind `kind`, to
/// `new_name`; the store's root itself cannot be renamed.
pub fn plan_rename(old_path: &str, root: &str, new_name: &str, kind: EntryKind) -> (res: Result<
    RenamePlan,
    StoreError,
>)
    ensures
        match res {
            Ok(plan) => old_path@ != root@ && plan.new_path@ == renamed_path_of(
                old_path@,
                new_name@,
                kind,
            ) && plan.new_name@ == stem_of(file_name_of(plan.new_path@)) && match plan.message {
                Some(m) => rename_message_of(old_path@, plan.new_path@, root@) == Some(m@),
                None => rename_message_of(old_path@, plan.new_path@, root@) is None,
            },
            Err(e) => old_path@ == root@ && (match e {
                StoreError::Io(ctx, msg) => ctx@ == "Attempted to rename store's root directory"@
                    && msg@ == "Cannot rename store's root directory"@,
                _ => false,
            }),
        },
{
    if same_text(old_path, root) {
        return Err(
            StoreError::Io(
                String::from_str("Attempted to rename store's root directory"),
                String::from_str("Cannot rename store's root directory"),
            ),
        );
    }
    let old_trimmed = trim_trailing_slashes(old_path);
    let name_trimmed = trim_trailing_slashes(new_name);
    let renamed = with_file_name(old_trimmed.as_str(), name_trimmed.as_str());
    let new_path = match kind {
        EntryKind::Password => with_extension(renamed.as_str(), "gpg"),
        _ => renamed,
    };
    let file = file_name(new_path.as_str());
    let name = stem(file.as_str());
    let message = match (entry_name(old_path, root), entry_name(new_path.as_str(), root)) {
        (Some(a), Some(b)) => {
            let mut m = String::new();
            m.append("Rename '");
            m.append(a.as_str());
            m.append("' to '");
            m.append(b.as_str());
            m.append("'.");
            Some(m)
        },
        _ => None,
    };
    Ok(RenamePlan { new_path, new_name: name, message })
}

/// The commit message of the removal of the entry at `path`; `None` where
/// the path does not lie in the store.
pub open spec fn removal_message_of(path: Seq<char>, root: Seq<char>) -> Option<Seq<char>> {
    match entry_name_of(path, root) {
        Some(n) => Some("Remove '"@ + n + "' from store."@),
        None => None,
    }
}

/// The commit message of the removal of the entry at `path`.
pub fn removal_message(path: &str, root: &str) -> (res: Option<String>)
    ensures
        match res {
            Some(m) => removal_message_of(path@, root@) == Some(m@),
            None => removal_message_of(path@, root@) is None,
        },
{
    match entry_name(path, root) {
        Some(n) => {
            let mut m = String::new();
            m.append("Remove '");
            m.append(n.as_str());
            m.append("' from store.");
            Some(m)
        },
        None => None,
    }
}

/// The content of a `.gpg-id` file: each ID on a line of its own.
pub fn gpg_id_content(ids: &Vec<String>) -> (res: String)
    ensures
        res@ == terminated(views(ids@)),
{
    terminate_lines(ids)
}

/// The IDs as listed in commit messages: separated by `", "`.
pub fn listed_ids(ids: &Vec<String>) -> (res: String)
    ensures
        res@ == joined_with(views(ids@), ", "@),
{
    join_with(ids, ", ")
}

/// The commit message of setting the GPG IDs of the directory named
/// `name` (empty for the store's root).
pub open spec fn gpg_ids_set_message_of(name: Seq<char>, ids: Seq<Seq<char>>) -> Seq<char> {
    if name.len() == 0 {
        "Main GPG IDs for store set to "@ + joined_with(ids, ", "@) + "."@
    } else {
        "GPG IDs for '"@ + name + "' set to "@ + joined_with(ids, ", "@) + "."@
    }
}

/// The commit message of removing the GPG IDs of the directory named
/// `name` (empty for the store's root).
pub open spec fn gpg_ids_removed_message_of(name: Seq<char>) -> Seq<char> {
    if name.len() == 0 {
        "GPG IDs for store removed."@
    } else {
        "GPG IDs for '"@ + name + "' removed."@
    }
}

/// The commit message of reencrypting the password named `name` for new
/// GPG IDs.
pub open spec fn reencrypt_message_of(name: Seq<char>, ids: Seq<Seq<char>>) -> Seq<char> {
    "Reencrypt '"@ + name + "' as gpg-ids changed to "@ + joined_with(ids, ", "@) + "."@
}

/// The commit message of setting the GPG IDs of the directory named
/// `name`.
pub fn gpg_ids_set_message(name: &str, ids: &Vec<String>) -> (res: String)
    ensures
        res@ == gpg_ids_set_message_of(name@, views(ids@)),
{
    let listed = listed_ids(ids);
    let mut m = String::new();
    if name.unicode_len() == 0 {
        m.append("Main GPG IDs for store set to ");
    } else {
        m.append("GPG IDs for '");
        m.append(name);
        m.append("' set to ");
    }
    m.append(listed.as_str());
    m.append(".");
    m
}

/// The commit message of removing the GPG IDs of the directory named
/// `name`.
pub fn gpg_ids_removed_message(name: &str) -> (res: String)
    ensures
        res@ == gpg_ids_removed_message_of(name@),
{
    if name.unicode_len() == 0 {
        String::from_str("GPG IDs for store removed.")
    } else {
        let mut m = String::new();
        m.append("GPG IDs for '");
        m.append(name);
        m.append("' removed.");
        m
    }
}

/// The commit message of reencrypting the password named `name`.
pub fn reencrypt_message(name: &str, ids: &Vec<String>) -> (res: String)
    ensures
        res@ == reencrypt_message_of(name@, views(ids@)),
{
    let listed = listed_ids(ids);
    let mut m = String::new();
    m.append("Reencrypt '");
    m.append(name);
    m.append("' as gpg-ids changed to ");
    m.append(listed.as_str());
    m.append(".");
    m
}

/// What happens to the `.gpg-id` file of a directory when its IDs are set.
#[derive(Debug, Clone, Copy, PartialEq, Eq, Structural)]
pub enum GpgIdUpdate {
    /// The file is written with the new IDs.
    Write,
    /// The file is removed: the directory takes the IDs of its parents.
    Remove,
    /// There is no file and none is needed.
    Keep,
}

/// The refusal to leave the store without GPG IDs.
pub open spec fn no_ids_left_message() -> Seq<char> {
    "Cannot clear gpg-ids as this would leave the store without any gpg-ids"@
}

/// What happens to the `.gpg-id` file of a directory when its IDs are set
/// to a list that is empty or not (`clearing`), given whether the file
/// exists and, where the directory's parent lies in the store, how many
/// IDs the parent has. Clearing the IDs is refused where that would leave
/// the directory without IDs.
pub open spec fn gpg_id_update_of(clearing: bool, file_exists: bool, parent_ids: Option<usize>) -> Option<
    GpgIdUpdate,
> {
    if !clearing {
        Some(GpgIdUpdate::Write)
    } else if !file_exists {
        Some(GpgIdUpdate::Keep)
    } else {
        match parent_ids {
            Some(n) => if n > 0 {
                Some(GpgIdUpdate::Remove)
            } else {
                None
            },
            None => None,
        }
    }
}

/// What happens to the `.gpg-id` file of a directory when its IDs are
/// set, or the refusal to leave the store without IDs.
pub fn gpg_id_update(clearing: bool, file_exists: bool, parent_ids: Option<usize>) -> (res: Result<
    GpgIdUpdate,
    StoreError,
>)
    ensures
        match res {
            Ok(u) => gpg_id_update_of(clearing, file_exists, parent_ids) == Some(u),
            Err(e) => gpg_id_update_of(clearing, file_exists, parent_ids) is None && (match e {
                StoreError::NoGpgId(m) => m@ == no_ids_left_message(),
                _ => false,
            }),
        },
{
    if !clearing {
        Ok(GpgIdUpdate::Write)
    } else if !file_exists {
        Ok(GpgIdUpdate::Keep)
    } else {
        match parent_ids {
            Some(n) => if n > 0 {
                Ok(GpgIdUpdate::Remove)
            } else {
                Err(
                    StoreError::NoGpgId(
                        String::from_str(
                            "Cannot clear gpg-ids as this would leave the store without any gpg-ids",
                        ),
                    ),
                )
            },
            None => Err(
                StoreError::NoGpgId(
                    String::from_str(
                        "Cannot clear gpg-ids as this would leave the store without any gpg-ids",
                    ),
                ),
            ),
        }
    }
}

/// The outcome of an encryption for the password at `path`: refused where
/// a recipient was invalid, or where nothing was encrypted.
pub open spec fn encryption_refusal_of(path: Seq<char>, invalid_recipients: usize, encrypted_len: usize) -> Option<
    Seq<char>,
> {
    if invalid_recipients > 0 {
        Some("Could not encrypt for all gpg-id's"@)
    } else if encrypted_len == 0 {
        Some("Could not encrypt "@ + path)
    } else {
        None
    }
}

/// Checks the outcome of an encryption: the number of invalid recipients
/// and the length of the encrypted text.
pub fn check_encryption(path: &str, invalid_recipients: usize, encrypted_len: usize) -> (res: Result<
    (),
    StoreError,
>)
    ensures
        match res {
            Ok(()) => encryption_refusal_of(path@, invalid_recipients, encrypted_len) is None,
            Err(e) => match encryption_refusal_of(path@, invalid_recipients, encrypted_len) {
                Some(m) => e matches StoreError::Gpg(op, _) && op@ == m,
                None => false,
            },
        },
{
    if invalid_recipients > 0 {
        return Err(
            StoreError::Gpg(
                String::from_str("Could not encrypt for all gpg-id's"),
                String::from_str("Bad public key"),
            ),
        );
    }
    if encrypted_len == 0 {
        let mut m = String::new();
        m.append("Could not encrypt ");
        m.append(path);
        return Err(StoreError::Gpg(m, String::from_str("Not encrypted")));
    }
    Ok(())
}

} // verus!
