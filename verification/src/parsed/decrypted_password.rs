//! A decrypted password in its structured form. Edits are made in memory,
//! recorded as changes, and then written; an edit whose writing fails is
//! undone.

use vstd::prelude::*;

use crate::decrypted_password::{commit_message, commit_message_of, PendingEdit, Position, SavePlan};
use crate::error::StoreError;
use crate::passphrase::{analysis_of, analyze_optional, AnalyzedPassphrase};
use crate::parsed::format::{
    copy_line, copy_password_lines, line_views, parse_content, parse_content_of, render_content,
    render_content_of, LineText, PasswordLine,
};
use crate::text::{join_lines, joined, views};

verus! {

/// What stood before an edit of a structured password.
pub type PasswordState = (Option<String>, Vec<PasswordLine>);

/// The text of an optional text.
pub open spec fn opt_view(o: Option<String>) -> Option<Seq<char>> {
    match o {
        Some(s) => Some(s@),
        None => None,
    }
}

/// The change recorded when a line is added.
pub open spec fn add_message_of(t: LineText) -> Seq<char> {
    match t {
        LineText::Comment(_) => "Add comment to password"@,
        LineText::Entry(k, _) => "Add "@ + k + " entry to password"@,
    }
}

/// The change recorded when a line is replaced.
pub open spec fn replace_message_of(t: LineText) -> Seq<char> {
    match t {
        LineText::Comment(_) => "Replace comment in password"@,
        LineText::Entry(k, _) => "Replace "@ + k + " entry in password"@,
    }
}

/// The change recorded when a line is removed.
pub open spec fn remove_message_of(t: LineText) -> Seq<char> {
    match t {
        LineText::Comment(_) => "Remove comment from password"@,
        LineText::Entry(k, _) => "Remove "@ + k + " entry from password"@,
    }
}

/// The change recorded when a line is added.
pub fn add_message(line: &PasswordLine) -> (res: String)
    ensures
        res@ == add_message_of(line@),
{
    match line {
        PasswordLine::Comment(_) => String::from_str("Add comment to password"),
        PasswordLine::Entry(k, _) => {
            let mut m = String::from_str("Add ");
            m.append(k.as_str());
            m.append(" entry to password");
            m
        },
    }
}

/// The change recorded when a line is replaced.
pub fn replace_message(line: &PasswordLine) -> (res: String)
    ensures
        res@ == replace_message_of(line@),
{
    match line {
        PasswordLine::Comment(_) => String::from_str("Replace comment in password"),
        PasswordLine::Entry(k, _) => {
            let mut m = String::from_str("Replace ");
            m.append(k.as_str());
            m.append(" entry in password");
            m
        },
    }
}

/// The change recorded when a line is removed.
pub fn remove_message(line: &PasswordLine) -> (res: String)
    ensures
        res@ == remove_message_of(line@),
{
    match line {
        PasswordLine::Comment(_) => String::from_str("Remove comment from password"),
        PasswordLine::Entry(k, _) => {
            let mut m = String::from_str("Remove ");
            m.append(k.as_str());
            m.append(" entry from password");
            m
        },
    }
}

/// The lines after replacing the one at `position`, or appending when
/// there is no line there.
pub open spec fn replaced_line(lines: Seq<LineText>, position: int, line: LineText) -> Seq<
    LineText,
> {
    if position < lines.len() {
        lines.update(position, line)
    } else {
        lines.push(line)
    }
}

/// The comments of the lines up to `n`, with their positions, in order.
pub open spec fn comments_upto(ls: Seq<LineText>, n: int) -> Seq<(int, Seq<char>)>
    decreases n,
{
    if n <= 0 {
        Seq::empty()
    } else {
        let before = comments_upto(ls, n - 1);
        match ls[n - 1] {
            LineText::Comment(c) => before.push((n - 1, c)),
            LineText::Entry(_, _) => before,
        }
    }
}

/// The entries of the lines up to `n`, with their positions, in order.
pub open spec fn entries_upto(ls: Seq<LineText>, n: int) -> Seq<(int, (Seq<char>, Seq<char>))>
    decreases n,
{
    if n <= 0 {
        Seq::empty()
    } else {
        let before = entries_upto(ls, n - 1);
        match ls[n - 1] {
            LineText::Entry(k, v) => before.push((n - 1, (k, v))),
            LineText::Comment(_) => before,
        }
    }
}

/// The line is an entry with the key `key`.
pub open spec fn has_key(t: LineText, key: Seq<char>) -> bool {
    match t {
        LineText::Entry(k, _) => k == key,
        LineText::Comment(_) => false,
    }
}

/// The line is an entry.
pub open spec fn is_entry(t: LineText) -> bool {
    t is Entry
}

/// A decrypted password in its structured form.
pub struct DecryptedPassword {
    passphrase: Option<String>,
    lines: Vec<PasswordLine>,
    changes: Vec<String>,
    path: String,
}

impl DecryptedPassword {
    /// The passphrase.
    pub closed spec fn passphrase_text(&self) -> Option<Seq<char>> {
        opt_view(self.passphrase)
    }

    /// The lines after the passphrase.
    pub closed spec fn line_texts(&self) -> Seq<LineText> {
        line_views(self.lines@)
    }

    /// The changes made since the password was last written.
    pub closed spec fn change_texts(&self) -> Seq<Seq<char>> {
        views(self.changes@)
    }

    /// The path of the password's file.
    pub closed spec fn path_text(&self) -> Seq<char> {
        self.path@
    }

    /// The password given by plain lines: the lines are joined and read as
    /// a password's content.
    pub fn from_lines(lines: Vec<String>, changes: Vec<String>, path: String) -> (res: Result<
        Self,
        StoreError,
    >)
        ensures
            match res {
                Ok(p) => (p.passphrase_text(), p.line_texts()) == parse_content_of(
                    joined(views(lines@)),
                ) && p.change_texts() == views(changes@) && p.path_text() == path@,
                Err(_) => false,
            },
    {
        let content = join_lines(&lines);
        let (passphrase, parsed) = parse_content(content.as_str());
        Ok(DecryptedPassword { passphrase, lines: parsed, changes, path })
    }

    /// A new password with the given passphrase, lines and changes.
    pub fn from_parts(
        passphrase: Option<String>,
        lines: Vec<PasswordLine>,
        path: String,
        changes: Vec<String>,
    ) -> (res: Self)
        ensures
            res.passphrase_text() == opt_view(passphrase),
            res.line_texts() == line_views(lines@),
            res.change_texts() == views(changes@),
            res.path_text() == path@,
    {
        DecryptedPassword { passphrase, lines, changes, path }
    }

    /// The content written to the password's file.
    pub fn content(&self) -> (res: String)
        ensures
            res@ == render_content_of(self.passphrase_text(), self.line_texts()),
    {
        render_content(&self.passphrase, &self.lines)
    }

    /// The path of the password's file.
    pub fn path(&self) -> (res: &str)
        ensures
            res@ == self.path_text(),
    {
        self.path.as_str()
    }

    /// Hands out the changes made since the password was last written and
    /// forgets them, together with what writing the password needs.
    pub fn take_save_plan(&mut self, summary: Option<String>, name: &str) -> (res: SavePlan)
        ensures
            final(self).passphrase_text() == old(self).passphrase_text(),
            final(self).line_texts() == old(self).line_texts(),
            final(self).path_text() == old(self).path_text(),
            final(self).change_texts() == Seq::<Seq<char>>::empty(),
            res.path@ == old(self).path_text(),
            res.content@ == render_content_of(old(self).passphrase_text(), old(self).line_texts()),
            res.message@ == commit_message_of(opt_view(summary), name@, old(self).change_texts()),
    {
        let mut changes: Vec<String> = Vec::new();
        std::mem::swap(&mut self.changes, &mut changes);
        let message = commit_message(summary, name, &changes);
        let content = render_content(&self.passphrase, &self.lines);
        let path = self.path.clone();
        assert(self.change_texts() =~= Seq::<Seq<char>>::empty());
        SavePlan { path, content, message }
    }

    /// Settles an edit once the password was written: when writing failed
    /// the passphrase and lines are put back as they were before the edit.
    pub fn finish<T, E>(&mut self, edit: PendingEdit<PasswordState, T>, saved: Result<(), E>) -> (res:
        Result<T, E>)
        ensures
            final(self).path_text() == old(self).path_text(),
            final(self).change_texts() == old(self).change_texts(),
            match saved {
                Ok(()) => final(self).passphrase_text() == old(self).passphrase_text()
                    && final(self).line_texts() == old(self).line_texts() && res == Ok::<T, E>(
                    edit.outcome,
                ),
                Err(e) => final(self).passphrase_text() == opt_view(edit.previous.0)
                    && final(self).line_texts() == line_views(edit.previous.1@) && res == Err::<
                    T,
                    E,
                >(e),
            },
    {
        match saved {
            Ok(()) => Ok(edit.outcome),
            Err(e) => {
                let (p, l) = edit.previous;
                self.passphrase = p;
                self.lines = l;
                Err(e)
            },
        }
    }

    fn state(&self) -> (res: PasswordState)
        ensures
            opt_view(res.0) == self.passphrase_text(),
            line_views(res.1@) == self.line_texts(),
    {
        let p = match &self.passphrase {
            Some(p) => Some(p.clone()),
            None => None,
        };
        (p, copy_password_lines(&self.lines))
    }

    fn record(&mut self, change: String)
        ensures
            final(self).change_texts() == old(self).change_texts().push(change@),
            final(self).passphrase_text() == old(self).passphrase_text(),
            final(self).line_texts() == old(self).line_texts(),
            final(self).path_text() == old(self).path_text(),
    {
        proof {
            assert(views(self.changes@.push(change)) =~= views(self.changes@).push(change@));
        }
        self.changes.push(change);
    }

    /// Replaces passphrase, lines and changes at once.
    pub(crate) fn replace_all(
        &mut self,
        passphrase: Option<String>,
        lines: Vec<PasswordLine>,
        changes: Vec<String>,
    ) -> (res: PendingEdit<PasswordState, ()>)
        ensures
            final(self).passphrase_text() == opt_view(passphrase),
            final(self).line_texts() == line_views(lines@),
            final(self).change_texts() == views(changes@),
            final(self).path_text() == old(self).path_text(),
            opt_view(res.previous.0) == old(self).passphrase_text(),
            line_views(res.previous.1@) == old(self).line_texts(),
    {
        let previous = self.state();
        self.passphrase = passphrase;
        self.lines = lines;
        self.changes = changes;
        PendingEdit { previous, outcome: () }
    }

    /// A batch of edits starting from the password's passphrase, lines and
    /// changes.
    pub fn batch_edit(&self) -> (res: crate::parsed::batch::DecryptedPasswordBatchEdit)
        ensures
            res.passphrase_text() == self.passphrase_text(),
            res.line_texts() == self.line_texts(),
            res.change_texts() == self.change_texts(),
    {
        let (p, l) = self.state();
        crate::parsed::batch::DecryptedPasswordBatchEdit::new(p, l, crate::decrypted_password::copy_lines(&self.changes))
    }

    /// The passphrase.
    pub fn passphrase(&self) -> (res: Option<&str>)
        ensures
            match res {
                Some(p) => self.passphrase_text() == Some(p@),
                None => self.passphrase_text() is None,
            },
    {
        match &self.passphrase {
            Some(p) => Some(p.as_str()),
            None => None,
        }
    }

    /// Sets the passphrase and records the change.
    pub fn set_passphrase(&mut self, passphrase: String) -> (res: PendingEdit<PasswordState, ()>)
        ensures
            final(self).passphrase_text() == Some(passphrase@),
            final(self).line_texts() == old(self).line_texts(),
            final(self).change_texts() == old(self).change_texts().push(
                "Set given passphrase for password"@,
            ),
            final(self).path_text() == old(self).path_text(),
            opt_view(res.previous.0) == old(self).passphrase_text(),
            line_views(res.previous.1@) == old(self).line_texts(),
    {
        self.record(String::from_str("Set given passphrase for password"));
        let previous = self.state();
        self.passphrase = Some(passphrase);
        PendingEdit { previous, outcome: () }
    }

    /// Sets a generated passphrase and records the change.
    pub fn set_generated_passphrase(&mut self, passphrase: String) -> (res: PendingEdit<
        PasswordState,
        (),
    >)
        ensures
            final(self).passphrase_text() == Some(passphrase@),
            final(self).line_texts() == old(self).line_texts(),
            final(self).change_texts() == old(self).change_texts().push(
                "Set generated passphrase for password"@,
            ),
            final(self).path_text() == old(self).path_text(),
            opt_view(res.previous.0) == old(self).passphrase_text(),
            line_views(res.previous.1@) == old(self).line_texts(),
    {
        self.record(String::from_str("Set generated passphrase for password"));
        let previous = self.state();
        self.passphrase = Some(passphrase);
        PendingEdit { previous, outcome: () }
    }

    /// The analysis of the passphrase, where there is one.
    pub fn analyze_passphrase(&self) -> (res: Option<AnalyzedPassphrase>)
        ensures
            match res {
                Some(a) => self.passphrase_text() is Some && a.counts() == analysis_of(
                    self.passphrase_text().unwrap(),
                ),
                None => self.passphrase_text() is None,
            },
    {
        analyze_optional(self.passphrase())
    }

    /// The lines after the passphrase with their positions.
    pub fn lines(&self) -> (res: Vec<(Position, &PasswordLine)>)
        ensures
            res@.len() == self.line_texts().len(),
            forall|i: int|
                0 <= i < res@.len() ==> (#[trigger] res@[i]).0 == i && res@[i].1@
                    == self.line_texts()[i],
    {
        let mut res: Vec<(Position, &PasswordLine)> = Vec::new();
        let mut i: usize = 0;
        while i < self.lines.len()
            invariant
                i <= self.lines@.len(),
                res@.len() == i,
                forall|j: int|
                    0 <= j < i ==> (#[trigger] res@[j]).0 == j && res@[j].1@ == self.lines@[j]@,
            decreases self.lines@.len() - i,
        {
            res.push((i, &self.lines[i]));
            i = i + 1;
        }
        res
    }

    /// The comments with their positions, in order.
    pub fn comments(&self) -> (res: Vec<(Position, &str)>)
        ensures
            res@.map_values(|c: (Position, &str)| (c.0 as int, c.1@)) == comments_upto(
                self.line_texts(),
                self.line_texts().len() as int,
            ),
    {
        let mut res: Vec<(Position, &str)> = Vec::new();
        let mut i: usize = 0;
        while i < self.lines.len()
            invariant
                i <= self.lines@.len(),
                res@.map_values(|c: (Position, &str)| (c.0 as int, c.1@)) == comments_upto(
                    line_views(self.lines@),
                    i as int,
                ),
            decreases self.lines@.len() - i,
        {
            match &self.lines[i] {
                PasswordLine::Comment(c) => {
                    let item = (i, c.as_str());
                    proof {
                        assert(res@.push(item).map_values(
                            |c: (Position, &str)| (c.0 as int, c.1@),
                        ) =~= res@.map_values(|c: (Position, &str)| (c.0 as int, c.1@)).push(
                            (i as int, c@),
                        ));
                    }
                    res.push(item);
                },
                PasswordLine::Entry(..) => {},
            }
            i = i + 1;
        }
        res
    }

    /// The entries with their positions, in order.
    pub fn all_entries(&self) -> (res: Vec<(Position, (&str, &str))>)
        ensures
            res@.map_values(|e: (Position, (&str, &str))| (e.0 as int, (e.1.0@, e.1.1@)))
                == entries_upto(self.line_texts(), self.line_texts().len() as int),
    {
        let mut res: Vec<(Position, (&str, &str))> = Vec::new();
        let mut i: usize = 0;
        while i < self.lines.len()
            invariant
                i <= self.lines@.len(),
                res@.map_values(|e: (Position, (&str, &str))| (e.0 as int, (e.1.0@, e.1.1@)))
                    == entries_upto(line_views(self.lines@), i as int),
            decreases self.lines@.len() - i,
        {
            match &self.lines[i] {
                PasswordLine::Entry(k, v) => {
                    let item = (i, (k.as_str(), v.as_str()));
                    proof {
                        assert(res@.push(item).map_values(
                            |e: (Position, (&str, &str))| (e.0 as int, (e.1.0@, e.1.1@)),
                        ) =~= res@.map_values(
                            |e: (Position, (&str, &str))| (e.0 as int, (e.1.0@, e.1.1@)),
                        ).push((i as int, (k@, v@))));
                    }
                    res.push(item);
                },
                PasswordLine::Comment(..) => {},
            }
            i = i + 1;
        }
        res
    }

    /// The first entry with the key `key`: its position and value.
    pub fn entry(&self, key: &str) -> (res: Option<(Position, &str)>)
        ensures
            match res {
                Some((i, v)) => i < self.line_texts().len() && self.line_texts()[i as int]
                    == LineText::Entry(key@, v@) && forall|j: int|
                    0 <= j < i ==> !has_key(#[trigger] self.line_texts()[j], key@),
                None => forall|j: int|
                    0 <= j < self.line_texts().len() ==> !has_key(
                        #[trigger] self.line_texts()[j],
                        key@,
                    ),
            },
    {
        let mut i: usize = 0;
        let wanted = key.to_owned();
        while i < self.lines.len()
            invariant
                i <= self.lines@.len(),
                wanted@ == key@,
                forall|j: int| 0 <= j < i ==> !has_key(#[trigger] line_views(self.lines@)[j], key@),
            decreases self.lines@.len() - i,
        {
            match &self.lines[i] {
                PasswordLine::Entry(k, v) => {
                    if *k == wanted {
                        return Some((i, v.as_str()));
                    }
                },
                PasswordLine::Comment(..) => {},
            }
            i = i + 1;
        }
        None
    }

    /// Inserts `line` at `position` and records the change.
    pub fn insert_line(&mut self, position: Position, line: PasswordLine) -> (res: PendingEdit<
        PasswordState,
        (),
    >)
        requires
            position <= old(self).line_texts().len(),
        ensures
            final(self).line_texts() == old(self).line_texts().insert(position as int, line@),
            final(self).passphrase_text() == old(self).passphrase_text(),
            final(self).change_texts() == old(self).change_texts().push(add_message_of(line@)),
            final(self).path_text() == old(self).path_text(),
            opt_view(res.previous.0) == old(self).passphrase_text(),
            line_views(res.previous.1@) == old(self).line_texts(),
    {
        let message = add_message(&line);
        self.record(message);
        let previous = self.state();
        let ghost before = self.lines@;
        self.lines.insert(position, line);
        assert(line_views(self.lines@) =~= line_views(before).insert(position as int, line@));
        PendingEdit { previous, outcome: () }
    }

    /// Replaces the line at `position`, or appends `line` when there is no
    /// line there, and records the change.
    pub fn replace_line(&mut self, position: Position, line: PasswordLine) -> (res: PendingEdit<
        PasswordState,
        (),
    >)
        ensures
            final(self).line_texts() == replaced_line(
                old(self).line_texts(),
                position as int,
                line@,
            ),
            final(self).passphrase_text() == old(self).passphrase_text(),
            final(self).change_texts() == old(self).change_texts().push(
                replace_message_of(line@),
            ),
            final(self).path_text() == old(self).path_text(),
            opt_view(res.previous.0) == old(self).passphrase_text(),
            line_views(res.previous.1@) == old(self).line_texts(),
    {
        let message = replace_message(&line);
        self.record(message);
        let previous = self.state();
        let ghost before = self.lines@;
        if position < self.lines.len() {
            self.lines.set(position, line);
            assert(line_views(self.lines@) =~= line_views(before).update(position as int, line@));
        } else {
            self.lines.push(line);
            assert(line_views(self.lines@) =~= line_views(before).push(line@));
        }
        PendingEdit { previous, outcome: () }
    }

    /// Removes the line at `position` and records the change.
    pub fn remove_line(&mut self, position: Position) -> (res: PendingEdit<PasswordState, ()>)
        requires
            position < old(self).line_texts().len(),
        ensures
            final(self).line_texts() == old(self).line_texts().remove(position as int),
            final(self).passphrase_text() == old(self).passphrase_text(),
            final(self).change_texts() == old(self).change_texts().push(
                remove_message_of(old(self).line_texts()[position as int]),
            ),
            final(self).path_text() == old(self).path_text(),
            opt_view(res.previous.0) == old(self).passphrase_text(),
            line_views(res.previous.1@) == old(self).line_texts(),
    {
        let previous = self.state();
        let ghost before = self.lines@;
        let removed = self.lines.remove(position);
        assert(line_views(self.lines@) =~= line_views(before).remove(position as int));
        let message = remove_message(&removed);
        self.record(message);
        PendingEdit { previous, outcome: () }
    }

    /// Appends `line` and records the change.
    pub fn append_line(&mut self, line: PasswordLine) -> (res: PendingEdit<PasswordState, ()>)
        ensures
            final(self).line_texts() == old(self).line_texts().push(line@),
            final(self).passphrase_text() == old(self).passphrase_text(),
            final(self).change_texts() == old(self).change_texts().push(add_message_of(line@)),
            final(self).path_text() == old(self).path_text(),
            opt_view(res.previous.0) == old(self).passphrase_text(),
            line_views(res.previous.1@) == old(self).line_texts(),
    {
        let n = self.lines.len();
        let r = self.insert_line(n, line);
        assert(old(self).line_texts().insert(n as int, line@) =~= old(self).line_texts().push(
            line@,
        ));
        r
    }

    /// Inserts `line` before the first line and records the change.
    pub fn prepend_line(&mut self, line: PasswordLine) -> (res: PendingEdit<PasswordState, ()>)
        ensures
            final(self).line_texts() == old(self).line_texts().insert(0, line@),
            final(self).passphrase_text() == old(self).passphrase_text(),
            final(self).change_texts() == old(self).change_texts().push(add_message_of(line@)),
            final(self).path_text() == old(self).path_text(),
            opt_view(res.previous.0) == old(self).passphrase_text(),
            line_views(res.previous.1@) == old(self).line_texts(),
    {
        self.insert_line(0, line)
    }

    /// Replaces all lines; no change is recorded.
    pub fn set_lines(&mut self, lines: Vec<PasswordLine>) -> (res: PendingEdit<PasswordState, ()>)
        ensures
            final(self).line_texts() == line_views(lines@),
            final(self).passphrase_text() == old(self).passphrase_text(),
            final(self).change_texts() == old(self).change_texts(),
            final(self).path_text() == old(self).path_text(),
            opt_view(res.previous.0) == old(self).passphrase_text(),
            line_views(res.previous.1@) == old(self).line_texts(),
    {
        let previous = self.state();
        self.lines = lines;
        PendingEdit { previous, outcome: () }
    }

    /// Inserts a comment at `position`.
    pub fn insert_comment(&mut self, position: Position, comment: String) -> (res: PendingEdit<
        PasswordState,
        (),
    >)
        requires
            position <= old(self).line_texts().len(),
        ensures
            final(self).line_texts() == old(self).line_texts().insert(
                position as int,
                LineText::Comment(comment@),
            ),
            final(self).passphrase_text() == old(self).passphrase_text(),
            final(self).change_texts() == old(self).change_texts().push(
                "Add comment to password"@,
            ),
            final(self).path_text() == old(self).path_text(),
            line_views(res.previous.1@) == old(self).line_texts(),
    {
        self.insert_line(position, PasswordLine::Comment(comment))
    }

    /// Replaces the line at `position` by a comment, unless it is an entry.
    pub fn replace_comment(&mut self, position: Position, comment: String) -> (res: Result<
        PendingEdit<PasswordState, ()>,
        StoreError,
    >)
        ensures
            final(self).path_text() == old(self).path_text(),
            match res {
                Ok(edit) => !(position < old(self).line_texts().len() && is_entry(
                    old(self).line_texts()[position as int],
                )) && final(self).line_texts() == replaced_line(
                    old(self).line_texts(),
                    position as int,
                    LineText::Comment(comment@),
                ) && final(self).passphrase_text() == old(self).passphrase_text()
                    && final(self).change_texts() == old(self).change_texts().push(
                    "Replace comment in password"@,
                ) && line_views(edit.previous.1@) == old(self).line_texts(),
                Err(e) => position < old(self).line_texts().len() && is_entry(
                    old(self).line_texts()[position as int],
                ) && *final(self) == *old(self) && e == StoreError::PasswordLineNotAComment(
                    position,
                ),
            },
    {
        if position < self.lines.len() {
            if let PasswordLine::Entry(..) = &self.lines[position] {
                return Err(StoreError::PasswordLineNotAComment(position));
            }
        }
        Ok(self.replace_line(position, PasswordLine::Comment(comment)))
    }

    /// Removes the comment at `position`, unless the line there is an entry.
    pub fn remove_comment(&mut self, position: Position) -> (res: Result<
        PendingEdit<PasswordState, ()>,
        StoreError,
    >)
        requires
            position < old(self).line_texts().len(),
        ensures
            final(self).path_text() == old(self).path_text(),
            match res {
                Ok(edit) => !is_entry(old(self).line_texts()[position as int]) && final(self).line_texts() == old(self).line_texts().remove(position as int) && final(self).passphrase_text() == old(self).passphrase_text() && final(self).change_texts()
                    == old(self).change_texts().push("Remove comment from password"@)
                    && line_views(edit.previous.1@) == old(self).line_texts(),
                Err(e) => is_entry(old(self).line_texts()[position as int]) && *final(self) == *old(self) && e == StoreError::PasswordLineNotAComment(position),
            },
    {
        if let PasswordLine::Entry(..) = &self.lines[position] {
            return Err(StoreError::PasswordLineNotAComment(position));
        }
        Ok(self.remove_line(position))
    }

    /// Inserts a comment before the first line.
    pub fn prepend_comment(&mut self, comment: String) -> (res: PendingEdit<PasswordState, ()>)
        ensures
            final(self).line_texts() == old(self).line_texts().insert(
                0,
                LineText::Comment(comment@),
            ),
            final(self).passphrase_text() == old(self).passphrase_text(),
            final(self).change_texts() == old(self).change_texts().push(
                "Add comment to password"@,
            ),
            line_views(res.previous.1@) == old(self).line_texts(),
    {
        self.prepend_line(PasswordLine::Comment(comment))
    }

    /// Appends a comment.
    pub fn append_comment(&mut self, comment: String) -> (res: PendingEdit<PasswordState, ()>)
        ensures
            final(self).line_texts() == old(self).line_texts().push(LineText::Comment(comment@)),
            final(self).passphrase_text() == old(self).passphrase_text(),
            final(self).change_texts() == old(self).change_texts().push(
                "Add comment to password"@,
            ),
            line_views(res.previous.1@) == old(self).line_texts(),
    {
        self.append_line(PasswordLine::Comment(comment))
    }

    /// Inserts an entry at `position`.
    pub fn insert_entry(&mut self, position: Position, key: String, value: String) -> (res:
        PendingEdit<PasswordState, ()>)
        requires
            position <= old(self).line_texts().len(),
        ensures
            final(self).line_texts() == old(self).line_texts().insert(
                position as int,
                LineText::Entry(key@, value@),
            ),
            final(self).passphrase_text() == old(self).passphrase_text(),
            final(self).change_texts() == old(self).change_texts().push(
                "Add "@ + key@ + " entry to password"@,
            ),
            line_views(res.previous.1@) == old(self).line_texts(),
    {
        self.insert_line(position, PasswordLine::Entry(key, value))
    }

    /// Replaces the line at `position` by an entry, unless it is a comment.
    pub fn replace_entry(&mut self, position: Position, key: String, value: String) -> (res:
        Result<PendingEdit<PasswordState, ()>, StoreError>)
        ensures
            final(self).path_text() == old(self).path_text(),
            match res {
                Ok(edit) => !(position < old(self).line_texts().len() && !is_entry(
                    old(self).line_texts()[position as int],
                )) && final(self).line_texts() == replaced_line(
                    old(self).line_texts(),
                    position as int,
                    LineText::Entry(key@, value@),
                ) && final(self).passphrase_text() == old(self).passphrase_text()
                    && final(self).change_texts() == old(self).change_texts().push(
                    "Replace "@ + key@ + " entry in password"@,
                ) && line_views(edit.previous.1@) == old(self).line_texts(),
                Err(e) => position < old(self).line_texts().len() && !is_entry(
                    old(self).line_texts()[position as int],
                ) && *final(self) == *old(self) && e == StoreError::PasswordLineNotAnEntry(
                    position,
                ),
            },
    {
        if position < self.lines.len() {
            if let PasswordLine::Comment(..) = &self.lines[position] {
                return Err(StoreError::PasswordLineNotAnEntry(position));
            }
        }
        Ok(self.replace_line(position, PasswordLine::Entry(key, value)))
    }

    /// Removes the entry at `position`, unless the line there is a comment.
    pub fn remove_entry(&mut self, position: Position) -> (res: Result<
        PendingEdit<PasswordState, ()>,
        StoreError,
    >)
        requires
            position < old(self).line_texts().len(),
        ensures
            final(self).path_text() == old(self).path_text(),
            match res {
                Ok(edit) => is_entry(old(self).line_texts()[position as int]) && final(self).line_texts() == old(self).line_texts().remove(position as int) && final(self).passphrase_text() == old(self).passphrase_text() && final(self).change_texts()
                    == old(self).change_texts().push(
                    remove_message_of(old(self).line_texts()[position as int]),
                ) && line_views(edit.previous.1@) == old(self).line_texts(),
                Err(e) => !is_entry(old(self).line_texts()[position as int]) && *final(self)
                    == *old(self) && e == StoreError::PasswordLineNotAnEntry(position),
            },
    {
        if let PasswordLine::Comment(..) = &self.lines[position] {
            return Err(StoreError::PasswordLineNotAnEntry(position));
        }
        Ok(self.remove_line(position))
    }

    /// Inserts an entry before the first line.
    pub fn prepend_entry(&mut self, key: String, value: String) -> (res: PendingEdit<
        PasswordState,
        (),
    >)
        ensures
            final(self).line_texts() == old(self).line_texts().insert(
                0,
                LineText::Entry(key@, value@),
            ),
            final(self).passphrase_text() == old(self).passphrase_text(),
            final(self).change_texts() == old(self).change_texts().push(
                "Add "@ + key@ + " entry to password"@,
            ),
            line_views(res.previous.1@) == old(self).line_texts(),
    {
        self.prepend_line(PasswordLine::Entry(key, value))
    }

    /// Appends an entry.
    pub fn append_entry(&mut self, key: String, value: String) -> (res: PendingEdit<
        PasswordState,
        (),
    >)
        ensures
            final(self).line_texts() == old(self).line_texts().push(LineText::Entry(key@, value@)),
            final(self).passphrase_text() == old(self).passphrase_text(),
            final(self).change_texts() == old(self).change_texts().push(
                "Add "@ + key@ + " entry to password"@,
            ),
            line_views(res.previous.1@) == old(self).line_texts(),
    {
        self.append_line(PasswordLine::Entry(key, value))
    }
}

} // verus!
