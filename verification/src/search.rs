//! Searching the store: entries whose path holds a pattern, and passwords
//! whose passphrase, comments or entries hold it, case ignored.

use vstd::prelude::*;

use crate::parsed::format::{LineText, PasswordLine};
use crate::parsed::DecryptedPassword;
use crate::pass_node::PassNode;
use crate::text::{occurs_case_insensitive, occurs_ignoring_case};

verus! {

/// The entry's path holds the pattern, case ignored.
pub open spec fn entry_matches_of(pattern: Seq<char>, node: PassNode) -> bool {
    occurs_ignoring_case(pattern, node.path_of())
}

/// A copy of an entry.
pub fn copy_node(node: &PassNode) -> (res: PassNode)
    ensures
        res.kind_of() == node.kind_of(),
        res.name_of() == node.name_of(),
        res.path_of() == node.path_of(),
{
    match node {
        PassNode::Directory { name, path } => PassNode::Directory {
            name: name.clone(),
            path: path.clone(),
        },
        PassNode::Password { name, path } => PassNode::Password {
            name: name.clone(),
            path: path.clone(),
        },
        PassNode::NormalFile { name, path } => PassNode::NormalFile {
            name: name.clone(),
            path: path.clone(),
        },
    }
}

/// The entries, taken in order, whose path holds a pattern.
pub struct MatchedEntries {
    pattern: String,
    entries: Vec<PassNode>,
    next: usize,
}

impl MatchedEntries {
    /// The pattern.
    pub closed spec fn pattern_text(&self) -> Seq<char> {
        self.pattern@
    }

    /// All entries searched, in order.
    pub closed spec fn candidates(&self) -> Seq<PassNode> {
        self.entries@
    }

    /// How many entries have been searched.
    pub closed spec fn searched(&self) -> int {
        self.next as int
    }

    /// The search is within its entries.
    pub closed spec fn wf(&self) -> bool {
        self.next <= self.entries@.len()
    }

    /// A search of `entries` for `pattern`, from the first entry.
    pub fn new(pattern: String, entries: Vec<PassNode>) -> (res: Self)
        ensures
            res.wf(),
            res.pattern_text() == pattern@,
            res.candidates() == entries@,
            res.searched() == 0,
    {
        MatchedEntries { pattern, entries, next: 0 }
    }

    /// The next entry whose path holds the pattern, case ignored; `None`
    /// when no entry is left that does.
    pub fn next(&mut self) -> (res: Option<PassNode>)
        requires
            old(self).wf(),
        ensures
            final(self).wf(),
            final(self).pattern_text() == old(self).pattern_text(),
            final(self).candidates() == old(self).candidates(),
            forall|k: int|
                old(self).searched() <= k < final(self).searched() - (if res is Some {
                    1int
                } else {
                    0int
                }) ==> !entry_matches_of(old(self).pattern_text(), #[trigger] old(self).candidates()[k]),
            match res {
                Some(n) => {
                    let k = final(self).searched() - 1;
                    &&& old(self).searched() <= k
                    &&& entry_matches_of(old(self).pattern_text(), old(self).candidates()[k])
                    &&& n.kind_of() == old(self).candidates()[k].kind_of()
                    &&& n.name_of() == old(self).candidates()[k].name_of()
                    &&& n.path_of() == old(self).candidates()[k].path_of()
                },
                None => final(self).searched() == old(self).candidates().len(),
            },
    {
        let n = self.entries.len();
        while self.next < n
            invariant
                n == self.entries@.len(),
                old(self).searched() <= self.next <= n,
                self.pattern@ == old(self).pattern_text(),
                self.entries@ == old(self).candidates(),
                forall|k: int|
                    old(self).searched() <= k < self.next ==> !entry_matches_of(
                        self.pattern@,
                        #[trigger] self.entries@[k],
                    ),
            decreases n - self.next,
        {
            let i = self.next;
            self.next = i + 1;
            if occurs_case_insensitive(self.pattern.as_str(), self.entries[i].path()) {
                return Some(copy_node(&self.entries[i]));
            }
        }
        None
    }
}

/// A line of a password holds the pattern, case ignored: a comment, or
/// an entry's key or value.
pub open spec fn line_matches_of(pattern: Seq<char>, line: LineText) -> bool {
    match line {
        LineText::Comment(c) => occurs_ignoring_case(pattern, c),
        LineText::Entry(k, v) => occurs_ignoring_case(pattern, k) || occurs_ignoring_case(
            pattern,
            v,
        ),
    }
}

/// A password holds the pattern, case ignored, in its passphrase, a
/// comment, or an entry's key or value.
pub open spec fn password_matches_of(
    pattern: Seq<char>,
    passphrase: Option<Seq<char>>,
    lines: Seq<LineText>,
) -> bool {
    ||| (passphrase matches Some(p) && occurs_ignoring_case(pattern, p))
    ||| exists|i: int| 0 <= i < lines.len() && line_matches_of(pattern, #[trigger] lines[i])
}

/// A password matches as soon as any of its lines, at any position, is a
/// comment holding the pattern or an entry whose key or value holds it,
/// case ignored, whatever the other lines are.
pub proof fn law_any_line_matches(
    pattern: Seq<char>,
    passphrase: Option<Seq<char>>,
    lines: Seq<LineText>,
    i: int,
)
    requires
        0 <= i < lines.len(),
        match lines[i] {
            LineText::Comment(c) => occurs_ignoring_case(pattern, c),
            LineText::Entry(k, v) => occurs_ignoring_case(pattern, k) || occurs_ignoring_case(
                pattern,
                v,
            ),
        },
    ensures
        password_matches_of(pattern, passphrase, lines),
{
    assert(line_matches_of(pattern, lines[i]));
}

/// A password whose passphrase holds the pattern matches.
pub proof fn law_passphrase_matches(pattern: Seq<char>, p: Seq<char>, lines: Seq<LineText>)
    requires
        occurs_ignoring_case(pattern, p),
    ensures
        password_matches_of(pattern, Some(p), lines),
{
}

/// A password matches only where its passphrase or one of its lines holds
/// the pattern.
pub proof fn law_matches_only_where_held(
    pattern: Seq<char>,
    passphrase: Option<Seq<char>>,
    lines: Seq<LineText>,
)
    requires
        password_matches_of(pattern, passphrase, lines),
    ensures
        (passphrase matches Some(p) && occurs_ignoring_case(pattern, p)) || exists|i: int|
            0 <= i < lines.len() && match #[trigger] lines[i] {
                LineText::Comment(c) => occurs_ignoring_case(pattern, c),
                LineText::Entry(k, v) => occurs_ignoring_case(pattern, k)
                    || occurs_ignoring_case(pattern, v),
            },
{
    if !(passphrase matches Some(p) && occurs_ignoring_case(pattern, p)) {
        let i = choose|i: int| 0 <= i < lines.len() && line_matches_of(pattern, #[trigger] lines[i]);
        assert(0 <= i < lines.len());
    }
}

fn line_matches(pattern: &str, line: &PasswordLine) -> (res: bool)
    ensures
        res == line_matches_of(pattern@, line@),
{
    match line {
        PasswordLine::Comment(c) => occurs_case_insensitive(pattern, c.as_str()),
        PasswordLine::Entry(k, v) => occurs_case_insensitive(pattern, k.as_str())
            || occurs_case_insensitive(pattern, v.as_str()),
    }
}

/// Whether the password holds `pattern` in its passphrase, a comment, or
/// an entry's key or value, case ignored.
pub fn password_matches(pattern: &str, password: &DecryptedPassword) -> (res: bool)
    ensures
        res == password_matches_of(pattern@, password.passphrase_text(), password.line_texts()),
{
    let in_passphrase = match password.passphrase() {
        Some(p) => occurs_case_insensitive(pattern, p),
        None => false,
    };
    if in_passphrase {
        return true;
    }
    let lines = password.lines();
    let mut i: usize = 0;
    while i < lines.len()
        invariant
            i <= lines@.len(),
            lines@.len() == password.line_texts().len(),
            forall|j: int|
                0 <= j < lines@.len() ==> (#[trigger] lines@[j]).0 == j && lines@[j].1@
                    == password.line_texts()[j],
            forall|j: int| 0 <= j < i ==> !line_matches_of(pattern@, #[trigger] password.line_texts()[j]),
        decreases lines@.len() - i,
    {
        if line_matches(pattern, lines[i].1) {
            assert(line_matches_of(pattern@, password.line_texts()[i as int]));
            return true;
        }
        i = i + 1;
    }
    false
}

} // verus!
