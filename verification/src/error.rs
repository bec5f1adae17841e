//! Errors of the password store.

use vstd::prelude::*;

verus! {

/// What can go wrong in the password store. Failures of the file system,
/// of GPG and of git are carried with the text of the failure, so that the
/// library's own decisions can be stated over plain values.
#[derive(Debug)]
pub enum StoreError {
    /// An entry could not be opened or modified; the entry and the failure.
    Io(String, String),
    /// The store's path is not a directory.
    NoDirectory(String),
    /// An environment variable is not set; its name and the failure.
    EnvVar(String, String),
    /// No home directory was found for the user.
    NoHome(String, Box<StoreError>),
    /// The path does not lie inside the store.
    NotInStore(String),
    /// A GPG operation failed; the operation and the failure.
    Gpg(String, String),
    /// No GPG IDs were found for the path and its parent directories.
    NoGpgId(String),
    /// A generated passphrase was selected by an index that does not exist.
    PassphraseIndex(usize),
    /// Generating passphrases failed.
    PassphraseGeneration(String),
    /// A passphrase could not be written; the path and the failure.
    PassphrasePersist(String, String),
    /// A git operation failed; the operation and the failure.
    GitError(String, String),
    /// The content of a password could not be parsed.
    Parse(String, String),
    /// The line at the position is not a comment.
    PasswordLineNotAComment(usize),
    /// The line at the position is not an entry.
    PasswordLineNotAnEntry(usize),
}

} // verus!
