//! A builder for new passwords in their structured form.

use vstd::prelude::*;

use crate::passphrase::{analysis_of, analyze_optional, AnalyzedPassphrase};
use crate::parsed::decrypted_password::{opt_view, DecryptedPassword};
use crate::parsed::format::{copy_password_lines, line_views, LineText, PasswordLine};
use crate::paths::{joined_path, join_path};

verus! {

/// The summary of a commit that adds a structured password.
pub open spec fn add_summary_of(name: Seq<char>) -> Seq<char> {
    "Add password for "@ + name + " using libpass."@
}

/// The summary of a commit that adds a structured password.
pub fn add_summary(name: &str) -> (res: String)
    ensures
        res@ == add_summary_of(name@),
{
    let mut m = String::from_str("Add password for ");
    m.append(name);
    m.append(" using libpass.");
    m
}

/// A new structured password, to be added below the directory `parent`.
pub struct PasswordInserter<P> {
    parent: P,
    path: String,
    name: String,
    passphrase: Option<String>,
    lines: Vec<PasswordLine>,
}

impl<P> PasswordInserter<P> {
    /// The directory below which the password is added.
    pub closed spec fn parent_of(&self) -> P {
        self.parent
    }

    /// The path of the new password's file.
    pub closed spec fn path_text(&self) -> Seq<char> {
        self.path@
    }

    /// The name of the new password.
    pub closed spec fn name_text(&self) -> Seq<char> {
        self.name@
    }

    /// The passphrase of the new password.
    pub closed spec fn passphrase_text(&self) -> Option<Seq<char>> {
        opt_view(self.passphrase)
    }

    /// The lines of the new password.
    pub closed spec fn line_texts(&self) -> Seq<LineText> {
        line_views(self.lines@)
    }

    /// A new, empty password named `name` in the directory `dir_path`; its
    /// file is `name` in that directory.
    pub fn for_directory(parent: P, dir_path: &str, name: String) -> (res: Self)
        ensures
            res.parent_of() == parent,
            res.path_text() == joined_path(dir_path@, name@),
            res.name_text() == name@,
            res.passphrase_text() is None,
            res.line_texts() == Seq::<LineText>::empty(),
    {
        let path = join_path(dir_path, name.as_str());
        let res = PasswordInserter { parent, path, name, passphrase: None, lines: Vec::new() };
        assert(res.line_texts() =~= Seq::<LineText>::empty());
        res
    }

    /// Sets the passphrase.
    pub fn passphrase(&mut self, passphrase: String) -> (res: &mut Self)
        ensures
            res.passphrase_text() == Some(passphrase@),
            res.line_texts() == old(self).line_texts(),
            res.parent_of() == old(self).parent_of(),
            res.path_text() == old(self).path_text(),
            res.name_text() == old(self).name_text(),
            *final(self) == *final(res),
    {
        self.passphrase = Some(passphrase);
        self
    }

    /// Replaces all lines.
    pub fn lines(&mut self, lines: Vec<PasswordLine>) -> (res: &mut Self)
        ensures
            res.passphrase_text() == old(self).passphrase_text(),
            res.line_texts() == line_views(lines@),
            res.parent_of() == old(self).parent_of(),
            res.path_text() == old(self).path_text(),
            res.name_text() == old(self).name_text(),
            *final(self) == *final(res),
    {
        self.lines = lines;
        self
    }

    /// Appends a comment.
    pub fn comment(&mut self, comment: String) -> (res: &mut Self)
        ensures
            res.passphrase_text() == old(self).passphrase_text(),
            res.line_texts() == old(self).line_texts().push(LineText::Comment(comment@)),
            res.parent_of() == old(self).parent_of(),
            res.path_text() == old(self).path_text(),
            res.name_text() == old(self).name_text(),
            *final(self) == *final(res),
    {
        let line = PasswordLine::Comment(comment);
        proof {
            assert(line_views(self.lines@.push(line)) =~= line_views(self.lines@).push(line@));
        }
        self.lines.push(line);
        self
    }

    /// Appends an entry.
    pub fn entry(&mut self, key: String, value: String) -> (res: &mut Self)
        ensures
            res.passphrase_text() == old(self).passphrase_text(),
            res.line_texts() == old(self).line_texts().push(LineText::Entry(key@, value@)),
            res.parent_of() == old(self).parent_of(),
            res.path_text() == old(self).path_text(),
            res.name_text() == old(self).name_text(),
            *final(self) == *final(res),
    {
        let line = PasswordLine::Entry(key, value);
        proof {
            assert(line_views(self.lines@.push(line)) =~= line_views(self.lines@).push(line@));
        }
        self.lines.push(line);
        self
    }

    /// The passphrase of the new password.
    pub fn current_passphrase(&self) -> (res: Option<&str>)
        ensures
            match res {
                Some(p) => self.passphrase_text() == Some(p@),
                None => self.passphrase_text() is None,
            },
    {
        match &self.passphrase {
            Some(p) => Some(p.as_str()),
            None => None,
        }
    }

    /// The analysis of the passphrase, where there is one.
    pub fn analyze_passphrase(&self) -> (res: Option<AnalyzedPassphrase>)
        ensures
            match res {
                Some(a) => self.passphrase_text() is Some && a.counts() == analysis_of(
                    self.passphrase_text().unwrap(),
                ),
                None => self.passphrase_text() is None,
            },
    {
        analyze_optional(self.current_passphrase())
    }

    /// The directory below which the password is added.
    pub fn parent(&self) -> (res: &P)
        ensures
            *res == self.parent_of(),
    {
        &self.parent
    }

    /// The path of the new password's file.
    pub fn path(&self) -> (res: &str)
        ensures
            res@ == self.path_text(),
    {
        self.path.as_str()
    }

    /// The name of the new password.
    pub fn name(&self) -> (res: &str)
        ensures
            res@ == self.name_text(),
    {
        self.name.as_str()
    }

    /// The password to be written: passphrase and lines of the builder at
    /// the builder's path, with no changes recorded.
    pub fn to_password(&self) -> (res: DecryptedPassword)
        ensures
            res.passphrase_text() == self.passphrase_text(),
            res.line_texts() == self.line_texts(),
            res.change_texts() == Seq::<Seq<char>>::empty(),
            res.path_text() == self.path_text(),
    {
        let p = match &self.passphrase {
            Some(p) => Some(p.clone()),
            None => None,
        };
        let changes: Vec<String> = Vec::new();
        assert(crate::text::views(changes@) =~= Seq::<Seq<char>>::empty());
        DecryptedPassword::from_parts(p, copy_password_lines(&self.lines), self.path.clone(), changes)
    }
}

} // verus!
