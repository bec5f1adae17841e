//! A decrypted password as plain lines: the first line is the passphrase,
//! the others are free text. Edits are made in memory and then written;
//! an edit whose writing fails is undone.

use vstd::prelude::*;

use crate::error::StoreError;
use crate::passphrase::{analysis_of, analyze_optional, AnalyzedPassphrase};
use crate::text::{joined, joined_with, lines_of, terminate_lines, terminated, text_lines, views};
use crate::text::join_with;

verus! {

/// Position of a line in a password.
pub type Position = usize;

/// An edit made in memory that still has to be written: what stood before
/// the edit, and what the edit hands back once it is written.
pub struct PendingEdit<S, T> {
    pub previous: S,
    pub outcome: T,
}

/// What writing a password needs: where, what, and the commit message for
/// the store's git repository.
pub struct SavePlan {
    pub path: String,
    pub content: String,
    pub message: String,
}

/// The commit message of a password change: the summary (or the default
/// summary naming the password), followed by the list of changes when
/// there are any.
pub open spec fn commit_message_of(
    summary: Option<Seq<char>>,
    name: Seq<char>,
    changes: Seq<Seq<char>>,
) -> Seq<char> {
    let base = match summary {
        Some(s) => s,
        None => "Edit password for '"@ + name + "' using libpass."@,
    };
    if changes.len() == 0 {
        base
    } else {
        base + "\n\n"@ + joined_with(changes, "\n"@) + "\n"@
    }
}

/// The summary of a commit that adds a password.
pub open spec fn add_summary_of(name: Seq<char>) -> Seq<char> {
    "Add password for '"@ + name + "' using libpass."@
}

/// The commit message of a password change.
pub fn commit_message(summary: Option<String>, name: &str, changes: &Vec<String>) -> (res: String)
    ensures
        res@ == commit_message_of(
            match summary {
                Some(s) => Some(s@),
                None => None,
            },
            name@,
            views(changes@),
        ),
{
    let mut message = match summary {
        Some(s) => s,
        None => {
            let mut m = String::new();
            m.append("Edit password for '");
            m.append(name);
            m.append("' using libpass.");
            m
        },
    };
    if changes.len() > 0 {
        let joined = join_with(changes, "\n");
        message.append("\n\n");
        message.append(joined.as_str());
        message.append("\n");
    }
    message
}

/// The summary of a commit that adds a password.
pub fn add_summary(name: &str) -> (res: String)
    ensures
        res@ == add_summary_of(name@),
{
    let mut m = String::new();
    m.append("Add password for '");
    m.append(name);
    m.append("' using libpass.");
    m
}

/// The lines after replacing the one at `position`, or appending when
/// there is no line there.
pub open spec fn replaced(lines: Seq<Seq<char>>, position: int, line: Seq<char>) -> Seq<
    Seq<char>,
> {
    if position < lines.len() {
        lines.update(position, line)
    } else {
        lines.push(line)
    }
}

/// Replaces the line at `position` (or appends `line` when there is no line
/// there) and returns the line that was replaced.
pub fn replace_in(lines: &mut Vec<String>, position: Position, line: String) -> (res: Option<String>)
    ensures
        views(final(lines)@) == replaced(views(old(lines)@), position as int, line@),
        match res {
            Some(l) => position < old(lines)@.len() && l@ == old(lines)@[position as int]@,
            None => position >= old(lines)@.len(),
        },
{
    if position < lines.len() {
        let l = lines[position].clone();
        proof {
            assert(views(old(lines)@).update(position as int, line@) =~= views(
                old(lines)@.update(position as int, line),
            ));
        }
        lines.set(position, line);
        Some(l)
    } else {
        proof {
            assert(views(old(lines)@).push(line@) =~= views(old(lines)@.push(line)));
        }
        lines.push(line);
        None
    }
}

/// Inserts `line` at `position`.
pub fn insert_in(lines: &mut Vec<String>, position: Position, line: String)
    requires
        position <= old(lines)@.len(),
    ensures
        views(final(lines)@) == views(old(lines)@).insert(position as int, line@),
{
    lines.insert(position, line);
    assert(views(final(lines)@) =~= views(old(lines)@).insert(position as int, line@));
}

/// Removes the line at `position` and returns it.
pub fn remove_in(lines: &mut Vec<String>, position: Position) -> (res: String)
    requires
        position < old(lines)@.len(),
    ensures
        views(final(lines)@) == views(old(lines)@).remove(position as int),
        res@ == old(lines)@[position as int]@,
{
    let r = lines.remove(position);
    assert(views(final(lines)@) =~= views(old(lines)@).remove(position as int));
    r
}

/// Copies the lines.
pub fn copy_lines(lines: &Vec<String>) -> (res: Vec<String>)
    ensures
        views(res@) == views(lines@),
{
    let mut res: Vec<String> = Vec::new();
    let mut i: usize = 0;
    while i < lines.len()
        invariant
            i <= lines@.len(),
            views(res@) == views(lines@).subrange(0, i as int),
        decreases lines@.len() - i,
    {
        let l = lines[i].clone();
        proof {
            assert(views(res@.push(l)) =~= views(res@).push(l@));
            assert(views(lines@).subrange(0, i + 1) =~= views(lines@).subrange(0, i as int).push(
                lines@[i as int]@,
            ));
        }
        res.push(l);
        i = i + 1;
    }
    assert(views(lines@).subrange(0, lines@.len() as int) =~= views(lines@));
    res
}

/// The lines as text slices.
pub fn line_slices(lines: &Vec<String>) -> (res: Vec<&str>)
    ensures
        res@.map_values(|s: &str| s@) == views(lines@),
{
    let mut res: Vec<&str> = Vec::new();
    let mut i: usize = 0;
    while i < lines.len()
        invariant
            i <= lines@.len(),
            res@.map_values(|s: &str| s@) == views(lines@).subrange(0, i as int),
        decreases lines@.len() - i,
    {
        let l = lines[i].as_str();
        proof {
            assert(res@.push(l).map_values(|s: &str| s@) =~= res@.map_values(|s: &str| s@).push(
                l@,
            ));
            assert(views(lines@).subrange(0, i + 1) =~= views(lines@).subrange(0, i as int).push(
                lines@[i as int]@,
            ));
        }
        res.push(l);
        i = i + 1;
    }
    assert(views(lines@).subrange(0, lines@.len() as int) =~= views(lines@));
    res
}

/// A decrypted password: its lines, its path, and the changes made since it
/// was last written.
#[derive(Debug)]
pub struct DecryptedPassword {
    lines: Vec<String>,
    path: String,
    changes: Vec<String>,
}

impl DecryptedPassword {
    /// The lines of the password.
    pub closed spec fn line_texts(&self) -> Seq<Seq<char>> {
        views(self.lines@)
    }

    /// The path of the password's file.
    pub closed spec fn path_text(&self) -> Seq<char> {
        self.path@
    }

    /// The changes made since the password was last written.
    pub closed spec fn change_texts(&self) -> Seq<Seq<char>> {
        views(self.changes@)
    }

    /// The password held by a decrypted file: its lines as `str::lines`
    /// reads them.
    pub fn from_content(content: &str, path: String) -> (res: Self)
        ensures
            res.line_texts() == text_lines(content@),
            res.path_text() == path@,
            res.change_texts() == Seq::<Seq<char>>::empty(),
    {
        let lines = lines_of(content);
        let res = DecryptedPassword { lines, path, changes: Vec::new() };
        assert(res.change_texts() =~= Seq::<Seq<char>>::empty());
        res
    }

    /// A new password with the given lines and changes.
    pub fn from_parts(lines: Vec<String>, path: String, changes: Vec<String>) -> (res: Self)
        ensures
            res.line_texts() == views(lines@),
            res.path_text() == path@,
            res.change_texts() == views(changes@),
    {
        DecryptedPassword { lines, path, changes }
    }

    /// The text written to the password's file: every line followed by a
    /// line ending.
    pub fn content(&self) -> (res: String)
        ensures
            res@ == terminated(self.line_texts()),
    {
        terminate_lines(&self.lines)
    }

    /// The path of the password's file.
    pub fn path(&self) -> (res: &str)
        ensures
            res@ == self.path_text(),
    {
        self.path.as_str()
    }

    /// The changes made since the password was last written.
    pub fn changes(&self) -> (res: Vec<&str>)
        ensures
            res@.map_values(|s: &str| s@) == self.change_texts(),
    {
        line_slices(&self.changes)
    }

    /// Hands out the changes made since the password was last written and
    /// forgets them, together with what writing the password needs. The
    /// commit message is `summary`, or the default one naming the password
    /// `name`, followed by the changes.
    pub fn take_save_plan(&mut self, summary: Option<String>, name: &str) -> (res: SavePlan)
        ensures
            final(self).line_texts() == old(self).line_texts(),
            final(self).path_text() == old(self).path_text(),
            final(self).change_texts() == Seq::<Seq<char>>::empty(),
            res.path@ == old(self).path_text(),
            res.content@ == terminated(old(self).line_texts()),
            res.message@ == commit_message_of(
                match summary {
                    Some(s) => Some(s@),
                    None => None,
                },
                name@,
                old(self).change_texts(),
            ),
    {
        let mut changes: Vec<String> = Vec::new();
        std::mem::swap(&mut self.changes, &mut changes);
        let message = commit_message(summary, name, &changes);
        let content = terminate_lines(&self.lines);
        let path = self.path.clone();
        assert(self.change_texts() =~= Seq::<Seq<char>>::empty());
        SavePlan { path, content, message }
    }

    /// Settles an edit once the password was written: when writing failed
    /// the lines are put back as they were before the edit, and the failure
    /// is returned; else the edit's outcome is.
    pub fn finish<T, E>(&mut self, edit: PendingEdit<Vec<String>, T>, saved: Result<(), E>) -> (res:
        Result<T, E>)
        ensures
            final(self).path_text() == old(self).path_text(),
            final(self).change_texts() == old(self).change_texts(),
            match saved {
                Ok(()) => final(self).line_texts() == old(self).line_texts() && res == Ok::<
                    T,
                    E,
                >(edit.outcome),
                Err(e) => final(self).line_texts() == views(edit.previous@) && res == Err::<
                    T,
                    E,
                >(e),
            },
    {
        match saved {
            Ok(()) => Ok(edit.outcome),
            Err(e) => {
                self.lines = edit.previous;
                Err(e)
            },
        }
    }

    /// The passphrase: the first line, where there is one.
    pub fn passphrase(&self) -> (res: Option<&str>)
        ensures
            match res {
                Some(p) => self.line_texts().len() > 0 && p@ == self.line_texts()[0],
                None => self.line_texts().len() == 0,
            },
    {
        if self.lines.len() > 0 {
            Some(self.lines[0].as_str())
        } else {
            None
        }
    }

    /// The lines of the password.
    pub fn lines(&self) -> (res: Vec<&str>)
        ensures
            res@.map_values(|s: &str| s@) == self.line_texts(),
    {
        line_slices(&self.lines)
    }

    /// The password in structured form, with its changes and path.
    pub fn parsed(self) -> (res: Result<crate::parsed::DecryptedPassword, StoreError>)
        ensures
            match res {
                Ok(p) => (p.passphrase_text(), p.line_texts())
                    == crate::parsed::format::parse_content_of(joined(self.line_texts()))
                    && p.change_texts() == self.change_texts() && p.path_text()
                    == self.path_text(),
                Err(_) => false,
            },
    {
        crate::parsed::DecryptedPassword::from_lines(self.lines, self.changes, self.path)
    }

    /// Replaces the line at `position`, or appends `line` when there is no
    /// line there; the outcome is the replaced line.
    pub fn replace_line(&mut self, position: Position, line: String) -> (res: PendingEdit<
        Vec<String>,
        Option<String>,
    >)
        ensures
            final(self).line_texts() == replaced(old(self).line_texts(), position as int, line@),
            final(self).path_text() == old(self).path_text(),
            final(self).change_texts() == old(self).change_texts(),
            views(res.previous@) == old(self).line_texts(),
            match res.outcome {
                Some(l) => position < old(self).line_texts().len() && l@ == old(
                    self,
                ).line_texts()[position as int],
                None => position >= old(self).line_texts().len(),
            },
    {
        let previous = copy_lines(&self.lines);
        let outcome = replace_in(&mut self.lines, position, line);
        PendingEdit { previous, outcome }
    }

    /// Sets the passphrase, the first line, and records the change.
    pub fn set_passphrase(&mut self, passphrase: String) -> (res: PendingEdit<Vec<String>, ()>)
        ensures
            final(self).line_texts() == replaced(old(self).line_texts(), 0, passphrase@),
            final(self).path_text() == old(self).path_text(),
            final(self).change_texts() == old(self).change_texts().push(
                "Set given passphrase for password"@,
            ),
            views(res.previous@) == old(self).line_texts(),
    {
        let change = String::from_str("Set given passphrase for password");
        proof {
            assert(views(self.changes@.push(change)) =~= views(self.changes@).push(change@));
        }
        self.changes.push(change);
        let previous = copy_lines(&self.lines);
        let _ = replace_in(&mut self.lines, 0, passphrase);
        PendingEdit { previous, outcome: () }
    }

    /// Sets a generated passphrase as the first line and records the
    /// change.
    pub fn set_generated_passphrase(&mut self, passphrase: String) -> (res: PendingEdit<
        Vec<String>,
        (),
    >)
        ensures
            final(self).line_texts() == replaced(old(self).line_texts(), 0, passphrase@),
            final(self).path_text() == old(self).path_text(),
            final(self).change_texts() == old(self).change_texts().push(
                "Set generated passphrase for password"@,
            ),
            views(res.previous@) == old(self).line_texts(),
    {
        let change = String::from_str("Set generated passphrase for password");
        proof {
            assert(views(self.changes@.push(change)) =~= views(self.changes@).push(change@));
        }
        self.changes.push(change);
        let previous = copy_lines(&self.lines);
        let _ = replace_in(&mut self.lines, 0, passphrase);
        PendingEdit { previous, outcome: () }
    }

    /// The analysis of the passphrase, where there is one.
    pub fn analyze_passphrase(&self) -> (res: Option<AnalyzedPassphrase>)
        ensures
            match res {
                Some(a) => self.line_texts().len() > 0 && a.counts() == analysis_of(
                    self.line_texts()[0],
                ),
                None => self.line_texts().len() == 0,
            },
    {
        analyze_optional(self.passphrase())
    }

    /// Replaces all lines.
    pub fn set_lines(&mut self, lines: Vec<String>) -> (res: PendingEdit<Vec<String>, ()>)
        ensures
            final(self).line_texts() == views(lines@),
            final(self).path_text() == old(self).path_text(),
            final(self).change_texts() == old(self).change_texts(),
            views(res.previous@) == old(self).line_texts(),
    {
        let mut previous = lines;
        std::mem::swap(&mut self.lines, &mut previous);
        PendingEdit { previous, outcome: () }
    }

    /// Inserts `line` at `position`.
    pub fn insert_line(&mut self, position: Position, line: String) -> (res: PendingEdit<
        Vec<String>,
        (),
    >)
        requires
            position <= old(self).line_texts().len(),
        ensures
            final(self).line_texts() == old(self).line_texts().insert(position as int, line@),
            final(self).path_text() == old(self).path_text(),
            final(self).change_texts() == old(self).change_texts(),
            views(res.previous@) == old(self).line_texts(),
    {
        let previous = copy_lines(&self.lines);
        insert_in(&mut self.lines, position, line);
        PendingEdit { previous, outcome: () }
    }

    /// Removes the line at `position`; the outcome is the removed line.
    pub fn remove_line(&mut self, position: Position) -> (res: PendingEdit<Vec<String>, String>)
        requires
            position < old(self).line_texts().len(),
        ensures
            final(self).line_texts() == old(self).line_texts().remove(position as int),
            final(self).path_text() == old(self).path_text(),
            final(self).change_texts() == old(self).change_texts(),
            views(res.previous@) == old(self).line_texts(),
            res.outcome@ == old(self).line_texts()[position as int],
    {
        let previous = copy_lines(&self.lines);
        let outcome = remove_in(&mut self.lines, position);
        PendingEdit { previous, outcome }
    }

    /// Inserts `line` right after the passphrase.
    pub fn prepend_line(&mut self, line: String) -> (res: PendingEdit<Vec<String>, ()>)
        requires
            old(self).line_texts().len() >= 1,
        ensures
            final(self).line_texts() == old(self).line_texts().insert(1, line@),
            final(self).path_text() == old(self).path_text(),
            final(self).change_texts() == old(self).change_texts(),
            views(res.previous@) == old(self).line_texts(),
    {
        self.insert_line(1, line)
    }

    /// Appends `line` after the last line.
    pub fn append_line(&mut self, line: String) -> (res: PendingEdit<Vec<String>, ()>)
        ensures
            final(self).line_texts() == old(self).line_texts().push(line@),
            final(self).path_text() == old(self).path_text(),
            final(self).change_texts() == old(self).change_texts(),
            views(res.previous@) == old(self).line_texts(),
    {
        let n = self.lines.len();
        let r = self.insert_line(n, line);
        assert(old(self).line_texts().insert(n as int, line@) =~= old(self).line_texts().push(
            line@,
        ));
        r
    }

    /// A batch of edits starting from the password's lines and changes.
    pub fn batch_edit(&self) -> (res: DecryptedPasswordBatchEdit)
        ensures
            res.line_texts() == self.line_texts(),
            res.change_texts() == self.change_texts(),
    {
        DecryptedPasswordBatchEdit {
            lines: copy_lines(&self.lines),
            changes: copy_lines(&self.changes),
        }
    }
}

/// Edits collected to be made to a password at once.
pub struct DecryptedPasswordBatchEdit {
    lines: Vec<String>,
    changes: Vec<String>,
}

impl DecryptedPasswordBatchEdit {
    /// The lines as they will be.
    pub closed spec fn line_texts(&self) -> Seq<Seq<char>> {
        views(self.lines@)
    }

    /// The changes as they will be recorded.
    pub closed spec fn change_texts(&self) -> Seq<Seq<char>> {
        views(self.changes@)
    }

    /// Sets the passphrase (the first line, appended when there are no
    /// lines) and records the change.
    pub fn passphrase(self, passphrase: String) -> (res: Self)
        ensures
            res.line_texts() == replaced(self.line_texts(), 0, passphrase@),
            res.change_texts() == self.change_texts().push("Set given passphrase for password"@),
    {
        let mut me = self;
        let change = String::from_str("Set given passphrase for password");
        proof {
            assert(views(me.changes@.push(change)) =~= views(me.changes@).push(change@));
        }
        me.changes.push(change);
        let _ = replace_in(&mut me.lines, 0, passphrase);
        me
    }

    /// Replaces all lines.
    pub fn lines(self, lines: Vec<String>) -> (res: Self)
        ensures
            res.line_texts() == views(lines@),
            res.change_texts() == self.change_texts(),
    {
        DecryptedPasswordBatchEdit { lines, changes: self.changes }
    }

    /// Inserts `line` at `position`.
    pub fn insert_line(self, position: Position, line: String) -> (res: Self)
        requires
            position <= self.line_texts().len(),
        ensures
            res.line_texts() == self.line_texts().insert(position as int, line@),
            res.change_texts() == self.change_texts(),
    {
        let mut me = self;
        insert_in(&mut me.lines, position, line);
        me
    }

    /// Replaces the line at `position`, or appends `line` when there is no
    /// line there.
    pub fn replace_line(self, position: Position, line: String) -> (res: Self)
        ensures
            res.line_texts() == replaced(self.line_texts(), position as int, line@),
            res.change_texts() == self.change_texts(),
    {
        let mut me = self;
        let _ = replace_in(&mut me.lines, position, line);
        me
    }

    /// Removes the line at `position`.
    pub fn remove_line(self, position: Position) -> (res: Self)
        requires
            position < self.line_texts().len(),
        ensures
            res.line_texts() == self.line_texts().remove(position as int),
            res.change_texts() == self.change_texts(),
    {
        let mut me = self;
        let _ = remove_in(&mut me.lines, position);
        me
    }

    /// Appends `line`.
    pub fn append_line(self, line: String) -> (res: Self)
        ensures
            res.line_texts() == self.line_texts().push(line@),
            res.change_texts() == self.change_texts(),
    {
        let mut me = self;
        proof {
            assert(views(me.lines@.push(line)) =~= views(me.lines@).push(line@));
        }
        me.lines.push(line);
        me
    }

    /// Inserts `line` before the first line.
    pub fn prepend_line(self, line: String) -> (res: Self)
        ensures
            res.line_texts() == self.line_texts().insert(0, line@),
            res.change_texts() == self.change_texts(),
    {
        let mut me = self;
        insert_in(&mut me.lines, 0, line);
        me
    }

    /// Makes the collected edits on `password`: its changes and lines become
    /// those of the batch. The password still has to be written, and the
    /// edit settled with `DecryptedPassword::finish`.
    pub fn edit(self, password: &mut DecryptedPassword) -> (res: PendingEdit<Vec<String>, ()>)
        ensures
            final(password).line_texts() == self.line_texts(),
            final(password).change_texts() == self.change_texts(),
            final(password).path_text() == old(password).path_text(),
            views(res.previous@) == old(password).line_texts(),
    {
        password.changes = self.changes;
        password.set_lines(self.lines)
    }
}

/// A password that is written and read back has the same lines, as long as
/// no line holds a line ending of its own.
pub proof fn law_written_password_reads_back(password: DecryptedPassword)
    requires
        forall|i: int|
            0 <= i < password.line_texts().len() ==> crate::text::is_plain_line(
                #[trigger] password.line_texts()[i],
            ),
    ensures
        text_lines(terminated(password.line_texts())) == password.line_texts(),
{
    crate::text::lemma_text_lines_terminated(password.line_texts());
}

/// Inserting a line and removing it again gives the lines back.
pub proof fn law_insert_then_remove(lines: Seq<Seq<char>>, position: int, line: Seq<char>)
    requires
        0 <= position <= lines.len(),
    ensures
        lines.insert(position, line).remove(position) == lines,
{
    assert(lines.insert(position, line).remove(position) =~= lines);
}

} // verus!
