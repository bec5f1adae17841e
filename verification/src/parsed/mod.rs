//! Passwords read in their structured form: a passphrase, then comments and
//! `key: value` entries.

pub mod batch;
pub mod conflicted_password;
pub mod decrypted_password;
pub mod format;
pub mod inserter;

pub use batch::DecryptedPasswordBatchEdit;
pub use conflicted_password::ConflictedDecryptedPassword;
pub use decrypted_password::DecryptedPassword;
pub use format::{LineText, PasswordLine};
pub use inserter::PasswordInserter;
