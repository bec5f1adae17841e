//! Logic of a `pass` compatible password store: the model of the store's
//! entries and paths, the format of decrypted passwords and the edits on
//! them, listing, sorting and searching entries, git status, merges and
//! merge conflicts, GPG ID bookkeeping, and passphrase analysis and
//! generation.

pub mod conflicted_password;
pub mod conflicts;
pub mod decrypted_password;
pub mod error;
pub mod git_status;
pub mod inserter;
pub mod listing;
pub mod options;
pub mod parsed;
pub mod pass_node;
pub mod passphrase;
pub mod paths;
pub mod search;
pub mod sorting;
pub mod store_edits;
pub mod text;

pub use conflicted_password::{ConflictedDecryptedPassword, DiffOp, PasswordChange, PasswordLine};
pub use decrypted_password::{
    DecryptedPassword, DecryptedPasswordBatchEdit, PendingEdit, Position, SavePlan,
};
pub use error::StoreError;
pub use git_status::{BranchStatus, GitRemote, GitStatus, GitStatusEntry, GitStatuses};
pub use inserter::{DirectoryInserter, PasswordInserter};
pub use options::{Location, SigningKey, Traversal, TraversalOrder, Umask};
pub use pass_node::{EntryKind, PassNode};
pub use passphrase::{AnalyzedPassphrase, GeneratedPassphrases, PassphraseGenerator};
pub use search::MatchedEntries;
pub use sorting::Sorting;
