//! Builders for new passwords and directories of the store.

use vstd::prelude::*;

use crate::passphrase::{analysis_of, analyze_optional, AnalyzedPassphrase};
use crate::decrypted_password::{copy_lines, replace_in, replaced, DecryptedPassword};
use crate::paths::{joined_path, join_path};
use crate::text::views;

verus! {

/// The path of a new password named `name` in the directory at `dir`.
pub open spec fn password_path_of(dir: Seq<char>, name: Seq<char>) -> Seq<char> {
    joined_path(dir, name + ".gpg"@)
}

/// The path of a new password named `name` in the directory at `dir`: the
/// name with the extension `gpg`, in that directory.
pub fn password_path(dir: &str, name: &str) -> (res: String)
    ensures
        res@ == password_path_of(dir@, name@),
{
    let mut file = name.to_owned();
    file.append(".gpg");
    join_path(dir, file.as_str())
}

/// A new password, to be added below the directory `parent` of the store.
pub struct PasswordInserter<P> {
    parent: P,
    path: String,
    name: String,
    lines: Vec<String>,
    changes: Vec<String>,
}

impl<P> PasswordInserter<P> {
    /// The directory below which the password is added.
    pub closed spec fn parent_of(&self) -> P {
        self.parent
    }

    /// The path of the new password's file.
    pub closed spec fn path_text(&self) -> Seq<char> {
        self.path@
    }

    /// The name of the new password.
    pub closed spec fn name_text(&self) -> Seq<char> {
        self.name@
    }

    /// The lines of the new password.
    pub closed spec fn line_texts(&self) -> Seq<Seq<char>> {
        views(self.lines@)
    }

    /// The changes recorded for the new password.
    pub closed spec fn change_texts(&self) -> Seq<Seq<char>> {
        views(self.changes@)
    }

    /// A new, empty password named `name` at `path` below `parent`.
    pub fn new(parent: P, path: String, name: String) -> (res: Self)
        ensures
            res.parent_of() == parent,
            res.path_text() == path@,
            res.name_text() == name@,
            res.line_texts() == Seq::<Seq<char>>::empty(),
            res.change_texts() == Seq::<Seq<char>>::empty(),
    {
        let res = PasswordInserter { parent, path, name, lines: Vec::new(), changes: Vec::new() };
        assert(res.line_texts() =~= Seq::<Seq<char>>::empty());
        assert(res.change_texts() =~= Seq::<Seq<char>>::empty());
        res
    }

    /// A new, empty password named `name` in the directory `dir_path`.
    pub fn for_directory(parent: P, dir_path: &str, name: String) -> (res: Self)
        ensures
            res.parent_of() == parent,
            res.path_text() == password_path_of(dir_path@, name@),
            res.name_text() == name@,
            res.line_texts() == Seq::<Seq<char>>::empty(),
            res.change_texts() == Seq::<Seq<char>>::empty(),
    {
        let path = password_path(dir_path, name.as_str());
        Self::new(parent, path, name)
    }

    fn record(&mut self, change: String)
        ensures
            final(self).change_texts() == old(self).change_texts().push(change@),
            final(self).line_texts() == old(self).line_texts(),
            final(self).parent_of() == old(self).parent_of(),
            final(self).path_text() == old(self).path_text(),
            final(self).name_text() == old(self).name_text(),
    {
        proof {
            assert(views(self.changes@.push(change)) =~= views(self.changes@).push(change@));
        }
        self.changes.push(change);
    }

    /// Sets the passphrase: the first line, appended when there are no
    /// lines; records the change.
    pub fn passphrase(&mut self, passphrase: String) -> (res: &mut Self)
        ensures
            res.line_texts() == replaced(old(self).line_texts(), 0, passphrase@),
            res.change_texts() == old(self).change_texts().push(
                "Add given passphrase to password"@,
            ),
            res.parent_of() == old(self).parent_of(),
            res.path_text() == old(self).path_text(),
            res.name_text() == old(self).name_text(),
            *final(self) == *final(res),
    {
        let _ = replace_in(&mut self.lines, 0, passphrase);
        self.record(String::from_str("Add given passphrase to password"));
        self
    }

    /// Sets a generated passphrase and records the change.
    pub fn generated_passphrase(&mut self, passphrase: String) -> (res: &mut Self)
        ensures
            res.line_texts() == replaced(old(self).line_texts(), 0, passphrase@),
            res.change_texts() == old(self).change_texts().push(
                "Add generated passphrase to password"@,
            ),
            res.parent_of() == old(self).parent_of(),
            res.path_text() == old(self).path_text(),
            res.name_text() == old(self).name_text(),
            *final(self) == *final(res),
    {
        let _ = replace_in(&mut self.lines, 0, passphrase);
        self.record(String::from_str("Add generated passphrase to password"));
        self
    }

    /// Appends a line.
    pub fn line(&mut self, line: String) -> (res: &mut Self)
        ensures
            res.line_texts() == old(self).line_texts().push(line@),
            res.change_texts() == old(self).change_texts(),
            res.parent_of() == old(self).parent_of(),
            res.path_text() == old(self).path_text(),
            res.name_text() == old(self).name_text(),
            *final(self) == *final(res),
    {
        proof {
            assert(views(self.lines@.push(line)) =~= views(self.lines@).push(line@));
        }
        self.lines.push(line);
        self
    }

    /// Replaces all lines.
    pub fn lines(&mut self, lines: Vec<String>) -> (res: &mut Self)
        ensures
            res.line_texts() == views(lines@),
            res.change_texts() == old(self).change_texts(),
            res.parent_of() == old(self).parent_of(),
            res.path_text() == old(self).path_text(),
            res.name_text() == old(self).name_text(),
            *final(self) == *final(res),
    {
        self.lines = lines;
        self
    }

    /// The passphrase: the first line, where there is one.
    pub fn current_passphrase(&self) -> (res: Option<&str>)
        ensures
            match res {
                Some(p) => self.line_texts().len() > 0 && p@ == self.line_texts()[0],
                None => self.line_texts().len() == 0,
            },
    {
        if self.lines.len() > 0 {
            Some(self.lines[0].as_str())
        } else {
            None
        }
    }

    /// The analysis of the passphrase, where there is one.
    pub fn analyze_passphrase(&self) -> (res: Option<AnalyzedPassphrase>)
        ensures
            match res {
                Some(a) => self.line_texts().len() > 0 && a.counts() == analysis_of(
                    self.line_texts()[0],
                ),
                None => self.line_texts().len() == 0,
            },
    {
        analyze_optional(self.current_passphrase())
    }

    /// The directory below which the password is added.
    pub fn parent(&self) -> (res: &P)
        ensures
            *res == self.parent_of(),
    {
        &self.parent
    }

    /// The path of the new password's file.
    pub fn path(&self) -> (res: &str)
        ensures
            res@ == self.path_text(),
    {
        self.path.as_str()
    }

    /// The name of the new password.
    pub fn name(&self) -> (res: &str)
        ensures
            res@ == self.name_text(),
    {
        self.name.as_str()
    }

    /// The password to be written: the lines and changes of the builder, at
    /// `path`.
    pub fn to_password(&self, path: String) -> (res: DecryptedPassword)
        ensures
            res.line_texts() == self.line_texts(),
            res.change_texts() == self.change_texts(),
            res.path_text() == path@,
    {
        DecryptedPassword::from_parts(copy_lines(&self.lines), path, copy_lines(&self.changes))
    }
}

/// A new directory, to be added below the directory `parent` of the store.
pub struct DirectoryInserter<P> {
    parent: P,
    path: String,
    name: String,
}

impl<P> DirectoryInserter<P> {
    /// The directory below which the directory is added.
    pub closed spec fn parent_of(&self) -> P {
        self.parent
    }

    /// The path of the new directory.
    pub closed spec fn path_text(&self) -> Seq<char> {
        self.path@
    }

    /// The name of the new directory.
    pub closed spec fn name_text(&self) -> Seq<char> {
        self.name@
    }

    /// A new directory named `name` in the directory `dir_path`.
    pub fn for_directory(parent: P, dir_path: &str, name: String) -> (res: Self)
        ensures
            res.parent_of() == parent,
            res.path_text() == joined_path(dir_path@, name@),
            res.name_text() == name@,
    {
        let path = join_path(dir_path, name.as_str());
        DirectoryInserter { parent, path, name }
    }

    /// The directory below which the directory is added.
    pub fn parent(&self) -> (res: &P)
        ensures
            *res == self.parent_of(),
    {
        &self.parent
    }

    /// The path of the new directory.
    pub fn path(&self) -> (res: &str)
        ensures
            res@ == self.path_text(),
    {
        self.path.as_str()
    }

    /// The name of the new directory.
    pub fn name(&self) -> (res: &str)
        ensures
            res@ == self.name_text(),
    {
        self.name.as_str()
    }
}

} // verus!
