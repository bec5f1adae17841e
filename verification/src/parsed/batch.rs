//! Edits of a structured password collected to be made at once.

use vstd::prelude::*;

use crate::decrypted_password::{PendingEdit, Position};
use crate::parsed::decrypted_password::{
    add_message, add_message_of, is_entry, opt_view, remove_message, remove_message_of,
    replace_message, replace_message_of, replaced_line, DecryptedPassword, PasswordState,
};
use crate::parsed::format::{copy_password_lines, line_views, LineText, PasswordLine};
use crate::text::views;

verus! {

/// Edits collected to be made to a structured password at once.
pub struct DecryptedPasswordBatchEdit {
    passphrase: Option<String>,
    lines: Vec<PasswordLine>,
    changes: Vec<String>,
}

impl DecryptedPasswordBatchEdit {
    /// The passphrase as it will be.
    pub closed spec fn passphrase_text(&self) -> Option<Seq<char>> {
        opt_view(self.passphrase)
    }

    /// The lines as they will be.
    pub closed spec fn line_texts(&self) -> Seq<LineText> {
        line_views(self.lines@)
    }

    /// The changes as they will be recorded.
    pub closed spec fn change_texts(&self) -> Seq<Seq<char>> {
        views(self.changes@)
    }

    /// A batch starting from the given passphrase, lines and changes.
    pub fn new(passphrase: Option<String>, lines: Vec<PasswordLine>, changes: Vec<String>) -> (res:
        Self)
        ensures
            res.passphrase_text() == opt_view(passphrase),
            res.line_texts() == line_views(lines@),
            res.change_texts() == views(changes@),
    {
        DecryptedPasswordBatchEdit { passphrase, lines, changes }
    }

    fn record(self, change: String) -> (res: Self)
        ensures
            res.passphrase_text() == self.passphrase_text(),
            res.line_texts() == self.line_texts(),
            res.change_texts() == self.change_texts().push(change@),
    {
        let mut me = self;
        proof {
            assert(views(me.changes@.push(change)) =~= views(me.changes@).push(change@));
        }
        me.changes.push(change);
        me
    }

    /// Sets the passphrase and records the change.
    pub fn passphrase(self, passphrase: String) -> (res: Self)
        ensures
            res.passphrase_text() == Some(passphrase@),
            res.line_texts() == self.line_texts(),
            res.change_texts() == self.change_texts().push("Set given passphrase for password"@),
    {
        let mut me = self.record(String::from_str("Set given passphrase for password"));
        me.passphrase = Some(passphrase);
        me
    }

    /// Replaces all lines.
    pub fn lines(self, lines: Vec<PasswordLine>) -> (res: Self)
        ensures
            res.passphrase_text() == self.passphrase_text(),
            res.line_texts() == line_views(lines@),
            res.change_texts() == self.change_texts(),
    {
        DecryptedPasswordBatchEdit { passphrase: self.passphrase, lines, changes: self.changes }
    }

    /// Inserts `line` at `position` and records the change.
    pub fn insert_line(self, position: Position, line: PasswordLine) -> (res: Self)
        requires
            position <= self.line_texts().len(),
        ensures
            res.passphrase_text() == self.passphrase_text(),
            res.line_texts() == self.line_texts().insert(position as int, line@),
            res.change_texts() == self.change_texts().push(add_message_of(line@)),
    {
        let message = add_message(&line);
        let mut me = self.record(message);
        let ghost before = me.lines@;
        me.lines.insert(position, line);
        assert(line_views(me.lines@) =~= line_views(before).insert(position as int, line@));
        me
    }

    /// Replaces the line at `position`, or appends `line` when there is no
    /// line there, and records the change.
    pub fn replace_line(self, position: Position, line: PasswordLine) -> (res: Self)
        ensures
            res.passphrase_text() == self.passphrase_text(),
            res.line_texts() == replaced_line(self.line_texts(), position as int, line@),
            res.change_texts() == self.change_texts().push(replace_message_of(line@)),
    {
        let message = replace_message(&line);
        let mut me = self.record(message);
        let ghost before = me.lines@;
        if position < me.lines.len() {
            me.lines.set(position, line);
            assert(line_views(me.lines@) =~= line_views(before).update(position as int, line@));
        } else {
            me.lines.push(line);
            assert(line_views(me.lines@) =~= line_views(before).push(line@));
        }
        me
    }

    /// Removes the line at `position` and records the change.
    pub fn remove_line(self, position: Position) -> (res: Self)
        requires
            position < self.line_texts().len(),
        ensures
            res.passphrase_text() == self.passphrase_text(),
            res.line_texts() == self.line_texts().remove(position as int),
            res.change_texts() == self.change_texts().push(
                remove_message_of(self.line_texts()[position as int]),
            ),
    {
        let mut me = self;
        let ghost before = me.lines@;
        let removed = me.lines.remove(position);
        assert(line_views(me.lines@) =~= line_views(before).remove(position as int));
        let message = remove_message(&removed);
        me.record(message)
    }

    /// Appends `line` and records the change.
    pub fn append_line(self, line: PasswordLine) -> (res: Self)
        ensures
            res.passphrase_text() == self.passphrase_text(),
            res.line_texts() == self.line_texts().push(line@),
            res.change_texts() == self.change_texts().push(add_message_of(line@)),
    {
        let n = self.lines.len();
        let r = self.insert_line(n, line);
        assert(self.line_texts().insert(n as int, line@) =~= self.line_texts().push(line@));
        r
    }

    /// Inserts `line` before the first line and records the change.
    pub fn prepend_line(self, line: PasswordLine) -> (res: Self)
        ensures
            res.passphrase_text() == self.passphrase_text(),
            res.line_texts() == self.line_texts().insert(0, line@),
            res.change_texts() == self.change_texts().push(add_message_of(line@)),
    {
        self.insert_line(0, line)
    }

    /// Inserts a comment at `position`.
    pub fn insert_comment(self, position: Position, comment: String) -> (res: Self)
        requires
            position <= self.line_texts().len(),
        ensures
            res.passphrase_text() == self.passphrase_text(),
            res.line_texts() == self.line_texts().insert(
                position as int,
                LineText::Comment(comment@),
            ),
            res.change_texts() == self.change_texts().push("Add comment to password"@),
    {
        self.insert_line(position, PasswordLine::Comment(comment))
    }

    /// Replaces the line at `position` by a comment; the line there must not
    /// be an entry.
    pub fn replace_comment(self, position: Position, comment: String) -> (res: Self)
        requires
            !(position < self.line_texts().len() && is_entry(self.line_texts()[position as int])),
        ensures
            res.passphrase_text() == self.passphrase_text(),
            res.line_texts() == replaced_line(
                self.line_texts(),
                position as int,
                LineText::Comment(comment@),
            ),
            res.change_texts() == self.change_texts().push("Replace comment in password"@),
    {
        self.replace_line(position, PasswordLine::Comment(comment))
    }

    /// Removes the comment at `position`; the line there must not be an
    /// entry.
    pub fn remove_comment(self, position: Position) -> (res: Self)
        requires
            position < self.line_texts().len(),
            !is_entry(self.line_texts()[position as int]),
        ensures
            res.passphrase_text() == self.passphrase_text(),
            res.line_texts() == self.line_texts().remove(position as int),
            res.change_texts() == self.change_texts().push("Remove comment from password"@),
    {
        self.remove_line(position)
    }

    /// Appends a comment.
    pub fn append_comment(self, comment: String) -> (res: Self)
        ensures
            res.passphrase_text() == self.passphrase_text(),
            res.line_texts() == self.line_texts().push(LineText::Comment(comment@)),
            res.change_texts() == self.change_texts().push("Add comment to password"@),
    {
        self.append_line(PasswordLine::Comment(comment))
    }

    /// Inserts a comment before the first line.
    pub fn prepend_comment(self, comment: String) -> (res: Self)
        ensures
            res.passphrase_text() == self.passphrase_text(),
            res.line_texts() == self.line_texts().insert(0, LineText::Comment(comment@)),
            res.change_texts() == self.change_texts().push("Add comment to password"@),
    {
        self.prepend_line(PasswordLine::Comment(comment))
    }

    /// Inserts an entry at `position`.
    pub fn insert_entry(self, position: Position, key: String, value: String) -> (res: Self)
        requires
            position <= self.line_texts().len(),
        ensures
            res.passphrase_text() == self.passphrase_text(),
            res.line_texts() == self.line_texts().insert(
                position as int,
                LineText::Entry(key@, value@),
            ),
            res.change_texts() == self.change_texts().push("Add "@ + key@ + " entry to password"@),
    {
        self.insert_line(position, PasswordLine::Entry(key, value))
    }

    /// Replaces the line at `position` by an entry; the line there must not
    /// be a comment.
    pub fn replace_entry(self, position: Position, key: String, value: String) -> (res: Self)
        requires
            !(position < self.line_texts().len() && !is_entry(self.line_texts()[position as int])),
        ensures
            res.passphrase_text() == self.passphrase_text(),
            res.line_texts() == replaced_line(
                self.line_texts(),
                position as int,
                LineText::Entry(key@, value@),
            ),
            res.change_texts() == self.change_texts().push(
                "Replace "@ + key@ + " entry in password"@,
            ),
    {
        self.replace_line(position, PasswordLine::Entry(key, value))
    }

    /// Removes the entry at `position`; the line there must not be a
    /// comment.
    pub fn remove_entry(self, position: Position) -> (res: Self)
        requires
            position < self.line_texts().len(),
            is_entry(self.line_texts()[position as int]),
        ensures
            res.passphrase_text() == self.passphrase_text(),
            res.line_texts() == self.line_texts().remove(position as int),
            res.change_texts() == self.change_texts().push(
                remove_message_of(self.line_texts()[position as int]),
            ),
    {
        self.remove_line(position)
    }

    /// Appends an entry.
    pub fn append_entry(self, key: String, value: String) -> (res: Self)
        ensures
            res.passphrase_text() == self.passphrase_text(),
            res.line_texts() == self.line_texts().push(LineText::Entry(key@, value@)),
            res.change_texts() == self.change_texts().push("Add "@ + key@ + " entry to password"@),
    {
        self.append_line(PasswordLine::Entry(key, value))
    }

    /// Inserts an entry before the first line.
    pub fn prepend_entry(self, key: String, value: String) -> (res: Self)
        ensures
            res.passphrase_text() == self.passphrase_text(),
            res.line_texts() == self.line_texts().insert(0, LineText::Entry(key@, value@)),
            res.change_texts() == self.change_texts().push("Add "@ + key@ + " entry to password"@),
    {
        self.prepend_line(PasswordLine::Entry(key, value))
    }

    /// Makes the collected edits on `password`: its changes, passphrase and
    /// lines become those of the batch. The password still has to be
    /// written, and the edit settled with `DecryptedPassword::finish`.
    pub fn edit(self, password: &mut DecryptedPassword) -> (res: PendingEdit<PasswordState, ()>)
        ensures
            final(password).passphrase_text() == self.passphrase_text(),
            final(password).line_texts() == self.line_texts(),
            final(password).change_texts() == self.change_texts(),
            final(password).path_text() == old(password).path_text(),
            opt_view(res.previous.0) == old(password).passphrase_text(),
            line_views(res.previous.1@) == old(password).line_texts(),
    {
        password.replace_all(self.passphrase, self.lines, self.changes)
    }
}

} // verus!
