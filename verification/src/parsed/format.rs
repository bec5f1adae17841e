//! The structured format of a password's content.
//!
//! The first line of the content is the passphrase. Every further line is
//! either an entry, `key: value`, or a comment. A line is an entry when its
//! first `':'` follows a non-empty key and is the last character of the
//! line or is followed by a space; the value is what follows `": "`.
//! Every other line is a comment.

use vstd::prelude::*;

use crate::text::{
    chars_of, first_newline, joined, lemma_split_joined, lemma_text_lines_terminated,
    split_newlines, substring, terminated, text_lines, is_plain_line, no_newline,
};

verus! {

/// A line of a password after the passphrase: a comment or a `key: value`
/// entry.
#[derive(Debug, Clone)]
pub enum PasswordLine {
    Comment(String),
    Entry(String, String),
}

/// The text of a line of a password.
pub enum LineText {
    Comment(Seq<char>),
    Entry(Seq<char>, Seq<char>),
}

impl View for PasswordLine {
    type V = LineText;

    open spec fn view(&self) -> LineText {
        match self {
            PasswordLine::Comment(c) => LineText::Comment(c@),
            PasswordLine::Entry(k, v) => LineText::Entry(k@, v@),
        }
    }
}

/// The texts of lines.
pub open spec fn line_views(ls: Seq<PasswordLine>) -> Seq<LineText> {
    ls.map_values(|l: PasswordLine| l@)
}

/// Index of the first `':'` in `s`, or `s.len()` where there is none.
pub open spec fn first_colon(s: Seq<char>) -> int
    decreases s.len(),
{
    if s.len() == 0 {
        0
    } else if s[0] == ':' {
        0
    } else {
        1 + first_colon(s.subrange(1, s.len() as int))
    }
}

/// The line is a `key: value` entry.
pub open spec fn is_entry_text(l: Seq<char>) -> bool {
    let k = first_colon(l);
    0 < k < l.len() && (k + 1 == l.len() || l[k + 1] == ' ')
}

/// How a line of a password's content is read.
pub open spec fn parse_line_of(l: Seq<char>) -> LineText {
    let k = first_colon(l);
    if is_entry_text(l) {
        LineText::Entry(
            l.subrange(0, k),
            if k + 1 == l.len() {
                Seq::empty()
            } else {
                l.subrange(k + 2, l.len() as int)
            },
        )
    } else {
        LineText::Comment(l)
    }
}

/// How a line is written in a password's content.
pub open spec fn render_line_of(t: LineText) -> Seq<char> {
    match t {
        LineText::Comment(c) => c,
        LineText::Entry(k, v) => k + ": "@ + v,
    }
}

/// How a password's content is read: nothing from an empty content; else
/// the first line is the passphrase and every further line a comment or
/// an entry.
pub open spec fn parse_content_of(s: Seq<char>) -> (Option<Seq<char>>, Seq<LineText>) {
    if s.len() == 0 {
        (None, Seq::empty())
    } else {
        let r = split_newlines(s);
        (Some(r[0]), r.drop_first().map_values(|l: Seq<char>| parse_line_of(l)))
    }
}

/// The lines of the content of a password, each to be followed by a line
/// ending.
pub open spec fn rendered_lines_of(passphrase: Option<Seq<char>>, lines: Seq<LineText>) -> Seq<
    Seq<char>,
> {
    let rest = lines.map_values(|t: LineText| render_line_of(t));
    match passphrase {
        Some(p) => seq![p] + rest,
        None => rest,
    }
}

/// The content of a password: the passphrase, when there is one, and the
/// lines, each followed by a line ending.
pub open spec fn render_content_of(passphrase: Option<Seq<char>>, lines: Seq<LineText>) -> Seq<
    char,
> {
    terminated(rendered_lines_of(passphrase, lines))
}

/// A line that is written and read back as the same line.
pub open spec fn is_well_formed_line(t: LineText) -> bool {
    match t {
        LineText::Comment(c) => is_plain_line(c) && !is_entry_text(c),
        LineText::Entry(k, v) => k.len() > 0 && first_colon(k) == k.len() && no_newline(k)
            && is_plain_line(v),
    }
}

pub proof fn lemma_first_colon(s: Seq<char>)
    ensures
        0 <= first_colon(s) <= s.len(),
        first_colon(s) < s.len() ==> s[first_colon(s)] == ':',
        forall|j: int| 0 <= j < first_colon(s) ==> s[j] != ':',
    decreases s.len(),
{
    if s.len() > 0 && s[0] != ':' {
        lemma_first_colon(s.subrange(1, s.len() as int));
        assert forall|j: int| 0 <= j < first_colon(s) implies s[j] != ':' by {
            if j > 0 {
                assert(s[j] == s.subrange(1, s.len() as int)[j - 1]);
            }
        }
    }
}

pub proof fn lemma_first_colon_at(t: Seq<char>, k: int)
    requires
        0 <= k <= t.len(),
        forall|j: int| 0 <= j < k ==> t[j] != ':',
        k < t.len() ==> t[k] == ':',
    ensures
        first_colon(t) == k,
    decreases k,
{
    if k > 0 {
        let r = t.subrange(1, t.len() as int);
        assert forall|j: int| 0 <= j < k - 1 implies r[j] != ':' by {
            assert(r[j] == t[j + 1]);
        }
        if k - 1 < r.len() {
            assert(r[k - 1] == t[k]);
        }
        lemma_first_colon_at(r, k - 1);
    }
}

/// A well formed line is read back as itself.
pub proof fn lemma_parse_render_line(t: LineText)
    requires
        is_well_formed_line(t),
    ensures
        parse_line_of(render_line_of(t)) == t,
{
    match t {
        LineText::Comment(c) => {},
        LineText::Entry(k, v) => {
            let l = k + ": "@ + v;
            reveal_strlit(": ");
            assert(": "@ =~= seq![':', ' ']);
            lemma_first_colon(k);
            assert forall|j: int| 0 <= j < k.len() implies l[j] != ':' by {
                assert(l[j] == k[j]);
            }
            assert(l[k.len() as int] == ':');
            lemma_first_colon_at(l, k.len() as int);
            assert(l[k.len() as int + 1] == ' ');
            assert(l.subrange(0, k.len() as int) =~= k);
            if v.len() > 0 {
                assert(l.subrange(k.len() as int + 2, l.len() as int) =~= v);
            } else {
                assert(k.len() + 2 == l.len());
                assert(l.subrange(k.len() as int + 2, l.len() as int) =~= v);
            }
        },
    }
}

/// A rendered well formed line holds no line ending.
pub proof fn lemma_rendered_line_plain(t: LineText)
    requires
        is_well_formed_line(t),
    ensures
        is_plain_line(render_line_of(t)),
{
    match t {
        LineText::Comment(c) => {},
        LineText::Entry(k, v) => {
            let l = k + ": "@ + v;
            reveal_strlit(": ");
            assert(": "@ =~= seq![':', ' ']);
            assert forall|j: int| 0 <= j < l.len() implies l[j] != '\n' by {
                if j < k.len() {
                    assert(l[j] == k[j]);
                } else if j >= k.len() + 2 {
                    assert(l[j] == v[j - k.len() - 2]);
                }
            }
            if v.len() > 0 {
                assert(l[l.len() - 1] == v[v.len() - 1]);
            }
        },
    }
}

/// A password that is written and read back, as the store reads a
/// decrypted file (its lines, joined again and parsed), is the same
/// password, as long as its passphrase and lines are well formed and the
/// content is not empty.
pub proof fn law_content_reads_back(passphrase: Seq<char>, lines: Seq<LineText>)
    requires
        is_plain_line(passphrase),
        passphrase.len() > 0 || lines.len() > 0,
        forall|i: int| 0 <= i < lines.len() ==> is_well_formed_line(#[trigger] lines[i]),
    ensures
        parse_content_of(joined(text_lines(render_content_of(Some(passphrase), lines)))) == (
            Some(passphrase),
            lines,
        ),
{
    let rl = rendered_lines_of(Some(passphrase), lines);
    let rest = lines.map_values(|t: LineText| render_line_of(t));
    assert forall|i: int| 0 <= i < rl.len() implies is_plain_line(#[trigger] rl[i]) by {
        if i > 0 {
            assert(rl[i] == rest[i - 1]);
            lemma_rendered_line_plain(lines[i - 1]);
        }
    }
    lemma_text_lines_terminated(rl);
    assert forall|i: int| 0 <= i < rl.len() implies no_newline(#[trigger] rl[i]) by {
        assert(is_plain_line(rl[i]));
    }
    lemma_split_joined(rl);
    let s = joined(rl);
    if lines.len() > 0 {
        assert(rl.len() >= 2);
        assert(s == rl[0] + seq!['\n'] + joined(rl.drop_first()));
        assert(s.len() > 0);
    } else {
        assert(rl =~= seq![passphrase]);
        assert(s == passphrase);
    }
    assert(split_newlines(s) == rl);
    assert(rl.drop_first() =~= rest);
    assert forall|i: int| 0 <= i < lines.len() implies parse_line_of(rest[i]) == lines[i] by {
        lemma_parse_render_line(lines[i]);
    }
    assert(rest.map_values(|l: Seq<char>| parse_line_of(l)) =~= lines);
}

/// Reads a line of a password's content.
pub fn parse_line(l: &str) -> (res: PasswordLine)
    ensures
        res@ == parse_line_of(l@),
{
    let cs = chars_of(l);
    let n = cs.len();
    let mut k: usize = 0;
    while k < n && cs[k] != ':'
        invariant
            cs@ == l@,
            n == l@.len(),
            k <= n,
            forall|j: int| 0 <= j < k ==> l@[j] != ':',
        decreases n - k,
    {
        k = k + 1;
    }
    proof {
        lemma_first_colon_at(l@, k as int);
    }
    if 0 < k && k < n && (k + 1 == n || cs[k + 1] == ' ') {
        let key = substring(l, 0, k);
        let value = if k + 1 == n {
            String::new()
        } else {
            substring(l, k + 2, n)
        };
        PasswordLine::Entry(key, value)
    } else {
        PasswordLine::Comment(l.to_owned())
    }
}

/// Writes a line of a password's content.
pub fn render_line(line: &PasswordLine) -> (res: String)
    ensures
        res@ == render_line_of(line@),
{
    match line {
        PasswordLine::Comment(c) => c.clone(),
        PasswordLine::Entry(k, v) => {
            let mut s = k.clone();
            s.append(": ");
            s.append(v.as_str());
            s
        },
    }
}

/// A copy of a line.
pub fn copy_line(line: &PasswordLine) -> (res: PasswordLine)
    ensures
        res@ == line@,
{
    match line {
        PasswordLine::Comment(c) => PasswordLine::Comment(c.clone()),
        PasswordLine::Entry(k, v) => PasswordLine::Entry(k.clone(), v.clone()),
    }
}

/// A copy of lines.
pub fn copy_password_lines(lines: &Vec<PasswordLine>) -> (res: Vec<PasswordLine>)
    ensures
        line_views(res@) == line_views(lines@),
{
    let mut res: Vec<PasswordLine> = Vec::new();
    let mut i: usize = 0;
    while i < lines.len()
        invariant
            i <= lines@.len(),
            line_views(res@) == line_views(lines@).subrange(0, i as int),
        decreases lines@.len() - i,
    {
        let l = copy_line(&lines[i]);
        proof {
            assert(line_views(res@.push(l)) =~= line_views(res@).push(l@));
            assert(line_views(lines@).subrange(0, i + 1) =~= line_views(lines@).subrange(
                0,
                i as int,
            ).push(lines@[i as int]@));
        }
        res.push(l);
        i = i + 1;
    }
    assert(line_views(lines@).subrange(0, lines@.len() as int) =~= line_views(lines@));
    res
}

/// Reads a password's content.
pub fn parse_content(content: &str) -> (res: (Option<String>, Vec<PasswordLine>))
    ensures
        (
            match res.0 {
                Some(p) => Some(p@),
                None => None,
            },
            line_views(res.1@),
        ) == parse_content_of(content@),
{
    let cs = chars_of(content);
    if cs.len() == 0 {
        let lines: Vec<PasswordLine> = Vec::new();
        assert(line_views(lines@) =~= Seq::<LineText>::empty());
        return (None, lines);
    }
    let records = crate::text::split_at_newlines(content);
    let ghost r = crate::text::views(records@);
    assert(r.len() >= 1) by {
        crate::text::lemma_first_newline(content@);
    }
    let passphrase = records[0].clone();
    let mut lines: Vec<PasswordLine> = Vec::new();
    let mut i: usize = 1;
    while i < records.len()
        invariant
            r == crate::text::views(records@),
            1 <= i <= records@.len(),
            line_views(lines@) == r.subrange(1, i as int).map_values(
                |l: Seq<char>| parse_line_of(l),
            ),
        decreases records@.len() - i,
    {
        let l = parse_line(records[i].as_str());
        proof {
            assert(line_views(lines@.push(l)) =~= line_views(lines@).push(l@));
            assert(r.subrange(1, i + 1).map_values(|l: Seq<char>| parse_line_of(l)) =~= r.subrange(
                1,
                i as int,
            ).map_values(|l: Seq<char>| parse_line_of(l)).push(parse_line_of(r[i as int])));
        }
        lines.push(l);
        i = i + 1;
    }
    assert(r.subrange(1, records@.len() as int) =~= r.drop_first());
    (Some(passphrase), lines)
}

/// Writes a password's content.
pub fn render_content(passphrase: &Option<String>, lines: &Vec<PasswordLine>) -> (res: String)
    ensures
        res@ == render_content_of(
            match passphrase {
                Some(p) => Some(p@),
                None => None,
            },
            line_views(lines@),
        ),
{
    let mut texts: Vec<String> = Vec::new();
    match passphrase {
        Some(p) => {
            texts.push(p.clone());
        },
        None => {},
    }
    let ghost start = crate::text::views(texts@);
    let mut i: usize = 0;
    while i < lines.len()
        invariant
            i <= lines@.len(),
            crate::text::views(texts@) == start + line_views(lines@).subrange(
                0,
                i as int,
            ).map_values(|t: LineText| render_line_of(t)),
        decreases lines@.len() - i,
    {
        let t = render_line(&lines[i]);
        proof {
            assert(crate::text::views(texts@.push(t)) =~= crate::text::views(texts@).push(t@));
            assert(line_views(lines@).subrange(0, i + 1).map_values(
                |t: LineText| render_line_of(t),
            ) =~= line_views(lines@).subrange(0, i as int).map_values(
                |t: LineText| render_line_of(t),
            ).push(render_line_of(lines@[i as int]@)));
        }
        texts.push(t);
        i = i + 1;
    }
    assert(line_views(lines@).subrange(0, lines@.len() as int) =~= line_views(lines@));
    let ghost pv = match passphrase {
        Some(p) => Some(p@),
        None => None,
    };
    assert(crate::text::views(texts@) =~= rendered_lines_of(pv, line_views(lines@)));
    crate::text::terminate_lines(&texts)
}

} // verus!
