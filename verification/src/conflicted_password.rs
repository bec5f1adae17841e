//! A password version taking part in a merge conflict, and the line by
//! line comparison of two such versions.

use vstd::prelude::*;

use crate::decrypted_password::{
    copy_lines, insert_in, line_slices, remove_in, replace_in, replaced, Position,
};
use crate::error::StoreError;
use crate::passphrase::{analysis_of, analyze_optional, AnalyzedPassphrase};
use crate::parsed::format::{line_views, LineText, PasswordLine as ParsedLine};
use crate::parsed::decrypted_password::opt_view;
use crate::text::{join_lines, joined, lines_of, terminate_lines, terminated, text_lines, views};

verus! {

/// One segment of a comparison of two line sequences, by start positions
/// and lengths in the old (`my`) and new (`other`) lines.
#[derive(Debug, Clone, Copy, PartialEq, Eq, Structural)]
pub enum DiffOp {
    Equal { old_index: usize, new_index: usize, len: usize },
    Delete { old_index: usize, old_len: usize, new_index: usize },
    Insert { old_index: usize, new_index: usize, new_len: usize },
    Replace { old_index: usize, old_len: usize, new_index: usize, new_len: usize },
}

/// The segments that `similar::capture_diff_slices` computes with the
/// Myers algorithm for two sequences of lines.
pub uninterp spec fn myers_diff_of(old: Seq<Seq<char>>, new: Seq<Seq<char>>) -> Seq<DiffOp>;

/// Compares two sequences of lines with the Myers algorithm.
///
/// Calls `similar::capture_diff_slices` with `Algorithm::Myers`. Its result
/// is named `myers_diff_of`, a function of the two sequences alone; besides,
/// as the documentation of `similar::DiffHook` says of the segments it
/// reports, each segment lies within both sequences, and an equal segment
/// is a section equal in both. That the segments follow each other without
/// gap through both sequences is not claimed here.
#[verifier::external_body]
fn capture_line_diff(old: &Vec<&str>, new: &Vec<&str>) -> (res: Vec<DiffOp>)
    ensures
        res@ == myers_diff_of(old@.map_values(|s: &str| s@), new@.map_values(|s: &str| s@)),
        ops_in_bounds(res@, old@.len() as int, new@.len() as int),
        equal_segments_match(
            res@,
            old@.map_values(|s: &str| s@),
            new@.map_values(|s: &str| s@),
        ),
{
    similar::capture_diff_slices(similar::Algorithm::Myers, old, new).into_iter().map(|op| match op {
        similar::DiffOp::Equal { old_index, new_index, len } => DiffOp::Equal { old_index, new_index, len },
        similar::DiffOp::Delete { old_index, old_len, new_index } => DiffOp::Delete { old_index, old_len, new_index },
        similar::DiffOp::Insert { old_index, new_index, new_len } => DiffOp::Insert { old_index, new_index, new_len },
        similar::DiffOp::Replace { old_index, old_len, new_index, new_len } =>
            DiffOp::Replace { old_index, old_len, new_index, new_len },
    }).collect()
}

/// A line of a comparison: its text and its positions in both versions.
#[derive(Debug)]
pub struct PasswordLine<'a> {
    pub content: &'a str,
    pub my_linum: usize,
    pub other_linum: usize,
}

/// A segment of a comparison of two password versions.
#[derive(Debug)]
pub enum PasswordChange<'a> {
    Equal(Vec<PasswordLine<'a>>),
    Delete(Vec<PasswordLine<'a>>),
    Insert(Vec<PasswordLine<'a>>),
    Replace { my_lines: Vec<PasswordLine<'a>>, other_lines: Vec<PasswordLine<'a>> },
}

/// A line of a comparison as text and two positions.
pub open spec fn diff_line_view(l: PasswordLine) -> (Seq<char>, int, int) {
    (l.content@, l.my_linum as int, l.other_linum as int)
}

/// The lines of a comparison as texts and positions.
pub open spec fn diff_lines_view(ls: Seq<PasswordLine>) -> Seq<(Seq<char>, int, int)> {
    ls.map_values(|l: PasswordLine| diff_line_view(l))
}

/// `len` lines of `src` from `start`, each with the position `fixed` in the
/// other version, or, where `moving`, the positions running along from
/// `fixed` in both versions.
pub open spec fn segment_of(
    src: Seq<Seq<char>>,
    start: int,
    len: int,
    fixed: int,
    from_my: bool,
    moving: bool,
) -> Seq<(Seq<char>, int, int)> {
    Seq::new(
        len as nat,
        |i: int|
            if from_my {
                (src[start + i], start + i, if moving {
                    fixed + i
                } else {
                    fixed
                })
            } else {
                (src[start + i], fixed, start + i)
            },
    )
}

/// The segment of a comparison that an operation stands for.
pub open spec fn change_of(my: Seq<Seq<char>>, other: Seq<Seq<char>>, op: DiffOp) -> (
    int,
    Seq<(Seq<char>, int, int)>,
    Seq<(Seq<char>, int, int)>,
) {
    match op {
        DiffOp::Equal { old_index, new_index, len } => (
            0,
            segment_of(my, old_index as int, len as int, new_index as int, true, true),
            Seq::empty(),
        ),
        DiffOp::Delete { old_index, old_len, new_index } => (
            1,
            segment_of(my, old_index as int, old_len as int, new_index as int, true, false),
            Seq::empty(),
        ),
        DiffOp::Insert { old_index, new_index, new_len } => (
            2,
            segment_of(other, new_index as int, new_len as int, old_index as int, false, false),
            Seq::empty(),
        ),
        DiffOp::Replace { old_index, old_len, new_index, new_len } => (
            3,
            segment_of(my, old_index as int, old_len as int, new_index as int, true, false),
            segment_of(other, new_index as int, new_len as int, old_index as int, false, false),
        ),
    }
}

/// A segment of a comparison as its kind and its lines.
pub open spec fn change_view(c: PasswordChange) -> (
    int,
    Seq<(Seq<char>, int, int)>,
    Seq<(Seq<char>, int, int)>,
) {
    match c {
        PasswordChange::Equal(ls) => (0, diff_lines_view(ls@), Seq::empty()),
        PasswordChange::Delete(ls) => (1, diff_lines_view(ls@), Seq::empty()),
        PasswordChange::Insert(ls) => (2, diff_lines_view(ls@), Seq::empty()),
        PasswordChange::Replace { my_lines, other_lines } => (
            3,
            diff_lines_view(my_lines@),
            diff_lines_view(other_lines@),
        ),
    }
}

/// The operation lies within both line sequences.
pub open spec fn op_in_bounds(op: DiffOp, my_len: int, other_len: int) -> bool {
    match op {
        DiffOp::Equal { old_index, new_index, len } => old_index + len <= my_len && new_index
            + len <= other_len,
        DiffOp::Delete { old_index, old_len, new_index } => old_index + old_len <= my_len,
        DiffOp::Insert { old_index, new_index, new_len } => new_index + new_len <= other_len,
        DiffOp::Replace { old_index, old_len, new_index, new_len } => old_index + old_len
            <= my_len && new_index + new_len <= other_len,
    }
}

/// All operations lie within both line sequences.
pub open spec fn ops_in_bounds(ops: Seq<DiffOp>, my_len: int, other_len: int) -> bool {
    forall|k: int| 0 <= k < ops.len() ==> op_in_bounds(#[trigger] ops[k], my_len, other_len)
}

/// An equal segment covers the same lines in both sequences.
pub open spec fn equal_segment_matches(op: DiffOp, my: Seq<Seq<char>>, other: Seq<Seq<char>>) -> bool {
    match op {
        DiffOp::Equal { old_index, new_index, len } => my.subrange(
            old_index as int,
            old_index + len,
        ) == other.subrange(new_index as int, new_index + len),
        _ => true,
    }
}

/// Every equal segment covers the same lines in both sequences.
pub open spec fn equal_segments_match(ops: Seq<DiffOp>, my: Seq<Seq<char>>, other: Seq<Seq<char>>) -> bool {
    forall|k: int| 0 <= k < ops.len() ==> equal_segment_matches(#[trigger] ops[k], my, other)
}

fn segment<'a>(
    src: &Vec<&'a str>,
    start: usize,
    len: usize,
    fixed: usize,
    from_my: bool,
    moving: bool,
) -> (res: Vec<PasswordLine<'a>>)
    requires
        start + len <= src@.len(),
        moving ==> fixed + len <= usize::MAX,
    ensures
        diff_lines_view(res@) == segment_of(
            src@.map_values(|s: &str| s@),
            start as int,
            len as int,
            fixed as int,
            from_my,
            moving,
        ),
{
    let mut res: Vec<PasswordLine<'a>> = Vec::new();
    let total = src.len();
    let mut i: usize = 0;
    let ghost full = segment_of(
        src@.map_values(|s: &str| s@),
        start as int,
        len as int,
        fixed as int,
        from_my,
        moving,
    );
    while i < len
        invariant
            start + len <= src@.len(),
            total == src@.len(),
            moving ==> fixed + len <= usize::MAX,
            i <= len,
            full == segment_of(
                src@.map_values(|s: &str| s@),
                start as int,
                len as int,
                fixed as int,
                from_my,
                moving,
            ),
            diff_lines_view(res@) == full.subrange(0, i as int),
        decreases len - i,
    {
        let line = if from_my {
            PasswordLine {
                content: src[start + i],
                my_linum: start + i,
                other_linum: if moving {
                    fixed + i
                } else {
                    fixed
                },
            }
        } else {
            PasswordLine { content: src[start + i], my_linum: fixed, other_linum: start + i }
        };
        proof {
            assert(diff_lines_view(res@.push(line)) =~= diff_lines_view(res@).push(
                diff_line_view(line),
            ));
            assert(full.subrange(0, i + 1) =~= full.subrange(0, i as int).push(full[i as int]));
        }
        res.push(line);
        i = i + 1;
    }
    assert(full.subrange(0, len as int) =~= full);
    res
}

/// The segments of a comparison that the operations stand for, one for
/// each operation and in the same order.
pub fn password_changes<'a>(my: &Vec<&'a str>, other: &Vec<&'a str>, ops: &Vec<DiffOp>) -> (res:
    Vec<PasswordChange<'a>>)
    requires
        ops_in_bounds(ops@, my@.len() as int, other@.len() as int),
    ensures
        res@.len() == ops@.len(),
        forall|k: int|
            0 <= k < ops@.len() ==> change_view(#[trigger] res@[k]) == change_of(
                my@.map_values(|s: &str| s@),
                other@.map_values(|s: &str| s@),
                ops@[k],
            ),
{
    let mut res: Vec<PasswordChange<'a>> = Vec::new();
    let other_total = other.len();
    let mut k: usize = 0;
    while k < ops.len()
        invariant
            ops_in_bounds(ops@, my@.len() as int, other@.len() as int),
            other_total == other@.len(),
            k <= ops@.len(),
            res@.len() == k,
            forall|j: int|
                0 <= j < k ==> change_view(#[trigger] res@[j]) == change_of(
                    my@.map_values(|s: &str| s@),
                    other@.map_values(|s: &str| s@),
                    ops@[j],
                ),
        decreases ops@.len() - k,
    {
        let op = ops[k];
        assert(op_in_bounds(ops@[k as int], my@.len() as int, other@.len() as int));
        let change = match op {
            DiffOp::Equal { old_index, new_index, len } => PasswordChange::Equal(
                segment(my, old_index, len, new_index, true, true),
            ),
            DiffOp::Delete { old_index, old_len, new_index } => PasswordChange::Delete(
                segment(my, old_index, old_len, new_index, true, false),
            ),
            DiffOp::Insert { old_index, new_index, new_len } => PasswordChange::Insert(
                segment(other, new_index, new_len, old_index, false, false),
            ),
            DiffOp::Replace { old_index, old_len, new_index, new_len } => PasswordChange::Replace {
                my_lines: segment(my, old_index, old_len, new_index, true, false),
                other_lines: segment(other, new_index, new_len, old_index, false, false),
            },
        };
        res.push(change);
        k = k + 1;
    }
    res
}

/// A version of a password taking part in a merge conflict: its lines,
/// the key IDs it was encrypted for, and its path.
#[derive(Debug)]
pub struct ConflictedDecryptedPassword {
    lines: Vec<String>,
    recipients: Vec<String>,
    path: String,
}

impl ConflictedDecryptedPassword {
    /// The lines of the version.
    pub closed spec fn line_texts(&self) -> Seq<Seq<char>> {
        views(self.lines@)
    }

    /// The key IDs the version was encrypted for.
    pub closed spec fn recipient_texts(&self) -> Seq<Seq<char>> {
        views(self.recipients@)
    }

    /// The path of the version.
    pub closed spec fn path_text(&self) -> Seq<char> {
        self.path@
    }

    /// The version held by decrypted content.
    pub fn from_content(content: &str, recipients: Vec<String>, path: String) -> (res: Self)
        ensures
            res.line_texts() == text_lines(content@),
            res.recipient_texts() == views(recipients@),
            res.path_text() == path@,
    {
        ConflictedDecryptedPassword { lines: lines_of(content), recipients, path }
    }

    /// A copy of the version.
    pub fn duplicate(&self) -> (res: Self)
        ensures
            res.line_texts() == self.line_texts(),
            res.recipient_texts() == self.recipient_texts(),
            res.path_text() == self.path_text(),
    {
        ConflictedDecryptedPassword {
            lines: copy_lines(&self.lines),
            recipients: copy_lines(&self.recipients),
            path: self.path.clone(),
        }
    }

    /// The text of the version: every line followed by a line ending.
    pub fn content(&self) -> (res: String)
        ensures
            res@ == terminated(self.line_texts()),
    {
        terminate_lines(&self.lines)
    }

    /// The path of the version.
    pub fn path(&self) -> (res: &str)
        ensures
            res@ == self.path_text(),
    {
        self.path.as_str()
    }

    /// The version in structured form.
    pub fn parsed(self) -> (res: Result<crate::parsed::ConflictedDecryptedPassword, StoreError>)
        ensures
            match res {
                Ok(p) => (p.passphrase_text(), p.line_texts()) == crate::parsed::format::parse_content_of(
                    joined(self.line_texts()),
                ),
                Err(_) => false,
            },
    {
        crate::parsed::ConflictedDecryptedPassword::from_lines(self.lines)
    }

    /// The passphrase: the first line, where there is one.
    pub fn passphrase(&self) -> (res: Option<&str>)
        ensures
            match res {
                Some(p) => self.line_texts().len() > 0 && p@ == self.line_texts()[0],
                None => self.line_texts().len() == 0,
            },
    {
        if self.lines.len() > 0 {
            Some(self.lines[0].as_str())
        } else {
            None
        }
    }

    /// The analysis of the passphrase, where there is one.
    pub fn analyze_passphrase(&self) -> (res: Option<AnalyzedPassphrase>)
        ensures
            match res {
                Some(a) => self.line_texts().len() > 0 && a.counts() == analysis_of(
                    self.line_texts()[0],
                ),
                None => self.line_texts().len() == 0,
            },
    {
        analyze_optional(self.passphrase())
    }

    /// Sets the passphrase, the first line.
    pub fn set_passphrase(&mut self, passphrase: String)
        ensures
            final(self).line_texts() == replaced(old(self).line_texts(), 0, passphrase@),
            final(self).recipient_texts() == old(self).recipient_texts(),
            final(self).path_text() == old(self).path_text(),
    {
        let _ = self.replace_line(0, passphrase);
    }

    /// The lines of the version.
    pub fn lines(&self) -> (res: Vec<&str>)
        ensures
            res@.map_values(|s: &str| s@) == self.line_texts(),
    {
        line_slices(&self.lines)
    }

    /// Replaces all lines.
    pub fn set_lines(&mut self, lines: Vec<String>)
        ensures
            final(self).line_texts() == views(lines@),
            final(self).recipient_texts() == old(self).recipient_texts(),
            final(self).path_text() == old(self).path_text(),
    {
        self.lines = lines;
    }

    /// Replaces the line at `position`, or appends `line` when there is no
    /// line there; returns the replaced line.
    pub fn replace_line(&mut self, position: Position, line: String) -> (res: Option<String>)
        ensures
            final(self).line_texts() == replaced(old(self).line_texts(), position as int, line@),
            final(self).recipient_texts() == old(self).recipient_texts(),
            final(self).path_text() == old(self).path_text(),
            match res {
                Some(l) => position < old(self).line_texts().len() && l@ == old(
                    self,
                ).line_texts()[position as int],
                None => position >= old(self).line_texts().len(),
            },
    {
        replace_in(&mut self.lines, position, line)
    }

    /// Inserts `line` at `position`.
    pub fn insert_line(&mut self, position: Position, line: String)
        requires
            position <= old(self).line_texts().len(),
        ensures
            final(self).line_texts() == old(self).line_texts().insert(position as int, line@),
            final(self).recipient_texts() == old(self).recipient_texts(),
            final(self).path_text() == old(self).path_text(),
    {
        insert_in(&mut self.lines, position, line)
    }

    /// Removes the line at `position` and returns it.
    pub fn remove_line(&mut self, position: Position) -> (res: String)
        requires
            position < old(self).line_texts().len(),
        ensures
            final(self).line_texts() == old(self).line_texts().remove(position as int),
            final(self).recipient_texts() == old(self).recipient_texts(),
            final(self).path_text() == old(self).path_text(),
            res@ == old(self).line_texts()[position as int],
    {
        remove_in(&mut self.lines, position)
    }

    /// Inserts `line` right after the passphrase.
    pub fn prepend_line(&mut self, line: String)
        requires
            old(self).line_texts().len() >= 1,
        ensures
            final(self).line_texts() == old(self).line_texts().insert(1, line@),
            final(self).recipient_texts() == old(self).recipient_texts(),
            final(self).path_text() == old(self).path_text(),
    {
        self.insert_line(1, line)
    }

    /// Appends `line`.
    pub fn append_line(&mut self, line: String)
        ensures
            final(self).line_texts() == old(self).line_texts().push(line@),
            final(self).recipient_texts() == old(self).recipient_texts(),
            final(self).path_text() == old(self).path_text(),
    {
        let n = self.lines.len();
        self.insert_line(n, line);
        assert(old(self).line_texts().insert(n as int, line@) =~= old(self).line_texts().push(
            line@,
        ));
    }

    /// The line by line comparison of this version (`my`) with `other`:
    /// the segments that the Myers algorithm finds, each with its lines and
    /// their positions in both versions. Each line of an equal segment is
    /// the same in both versions.
    pub fn diff<'a>(&'a self, other: &'a ConflictedDecryptedPassword) -> (res: Vec<
        PasswordChange<'a>,
    >)
        ensures
            res@.len() == myers_diff_of(self.line_texts(), other.line_texts()).len(),
            equal_segments_match(
                myers_diff_of(self.line_texts(), other.line_texts()),
                self.line_texts(),
                other.line_texts(),
            ),
            forall|k: int|
                0 <= k < res@.len() ==> change_view(#[trigger] res@[k]) == change_of(
                    self.line_texts(),
                    other.line_texts(),
                    myers_diff_of(self.line_texts(), other.line_texts())[k],
                ),
    {
        let my_lines = line_slices(&self.lines);
        let other_lines = line_slices(&other.lines);
        let ops = capture_line_diff(&my_lines, &other_lines);
        password_changes(&my_lines, &other_lines, &ops)
    }
}

} // verus!
