//! A version of a password taking part in a merge conflict, read in its
//! structured form.

use vstd::prelude::*;

use crate::error::StoreError;
use crate::parsed::decrypted_password::opt_view;
use crate::parsed::format::{line_views, parse_content, parse_content_of, LineText, PasswordLine};
use crate::text::{join_lines, joined, views};

verus! {

/// A conflicting version of a password in structured form: its passphrase
/// and the comments and entries after it.
#[derive(Debug)]
pub struct ConflictedDecryptedPassword {
    passphrase: Option<String>,
    lines: Vec<PasswordLine>,
}

impl ConflictedDecryptedPassword {
    /// The passphrase.
    pub closed spec fn passphrase_text(&self) -> Option<Seq<char>> {
        opt_view(self.passphrase)
    }

    /// The lines after the passphrase.
    pub closed spec fn line_texts(&self) -> Seq<LineText> {
        line_views(self.lines@)
    }

    /// The version given by plain lines: the lines are joined and read as
    /// a password's content.
    pub fn from_lines(lines: Vec<String>) -> (res: Result<Self, StoreError>)
        ensures
            match res {
                Ok(p) => (p.passphrase_text(), p.line_texts()) == parse_content_of(
                    joined(views(lines@)),
                ),
                Err(_) => false,
            },
    {
        let content = join_lines(&lines);
        let (passphrase, parsed) = parse_content(content.as_str());
        Ok(ConflictedDecryptedPassword { passphrase, lines: parsed })
    }

    /// The passphrase.
    pub fn passphrase(&self) -> (res: Option<&str>)
        ensures
            match res {
                Some(p) => self.passphrase_text() == Some(p@),
                None => self.passphrase_text() is None,
            },
    {
        match &self.passphrase {
            Some(p) => Some(p.as_str()),
            None => None,
        }
    }

    /// The lines after the passphrase, in order.
    pub fn lines(&self) -> (res: &Vec<PasswordLine>)
        ensures
            line_views(res@) == self.line_texts(),
    {
        &self.lines
    }
}

} // verus!
