//! Character level helpers on which the password format and the store's
//! naming rules are built: splitting a text into lines, joining lines,
//! case-insensitive substring search and ordering of names.

use vstd::prelude::*;
use vstd::string::*;

verus! {

/// The character sequences of a sequence of strings.
pub open spec fn views(v: Seq<String>) -> Seq<Seq<char>> {
    v.map_values(|s: String| s@)
}

/// Index of the first `'\n'` in `s`, or `s.len()` where there is none.
pub open spec fn first_newline(s: Seq<char>) -> int
    decreases s.len(),
{
    if s.len() == 0 {
        0
    } else if s[0] == '\n' {
        0
    } else {
        1 + first_newline(s.subrange(1, s.len() as int))
    }
}

/// `s` without one trailing `'\r'`.
pub open spec fn strip_cr(s: Seq<char>) -> Seq<char> {
    if s.len() > 0 && s[s.len() - 1] == '\r' {
        s.subrange(0, s.len() - 1)
    } else {
        s
    }
}

/// The lines of a text as `str::lines` yields them: the text is split at
/// every `'\n'`, a `'\r'` directly before a `'\n'` is dropped, and a
/// final line ending does not start a further, empty line. A last line
/// without a line ending is kept whole, a final `'\r'` included.
pub open spec fn text_lines(s: Seq<char>) -> Seq<Seq<char>>
    decreases s.len(),
{
    if s.len() == 0 {
        Seq::empty()
    } else {
        let i = first_newline(s);
        if 0 <= i < s.len() {
            seq![strip_cr(s.subrange(0, i))] + text_lines(s.subrange(i + 1, s.len() as int))
        } else {
            seq![s]
        }
    }
}

/// The pieces of `s` between `'\n'` characters; a text without any
/// `'\n'` is a single piece, the empty text included.
pub open spec fn split_newlines(s: Seq<char>) -> Seq<Seq<char>>
    decreases s.len(),
{
    let i = first_newline(s);
    if 0 <= i < s.len() {
        seq![s.subrange(0, i)] + split_newlines(s.subrange(i + 1, s.len() as int))
    } else {
        seq![s]
    }
}

/// The lines joined with `'\n'` between them (no final line ending).
pub open spec fn joined(ls: Seq<Seq<char>>) -> Seq<char>
    decreases ls.len(),
{
    if ls.len() == 0 {
        Seq::empty()
    } else if ls.len() == 1 {
        ls[0]
    } else {
        ls[0] + seq!['\n'] + joined(ls.drop_first())
    }
}

/// Every line followed by `'\n'`.
pub open spec fn terminated(ls: Seq<Seq<char>>) -> Seq<char>
    decreases ls.len(),
{
    if ls.len() == 0 {
        Seq::empty()
    } else {
        ls[0] + seq!['\n'] + terminated(ls.drop_first())
    }
}

/// The lines joined with `sep` between them.
pub open spec fn joined_with(ls: Seq<Seq<char>>, sep: Seq<char>) -> Seq<char>
    decreases ls.len(),
{
    if ls.len() == 0 {
        Seq::empty()
    } else if ls.len() == 1 {
        ls[0]
    } else {
        ls[0] + sep + joined_with(ls.drop_first(), sep)
    }
}

/// `l` holds no `'\n'`.
pub open spec fn no_newline(l: Seq<char>) -> bool {
    forall|j: int| 0 <= j < l.len() ==> l[j] != '\n'
}

/// `l` can stand as a line of a text and be read back unchanged.
pub open spec fn is_plain_line(l: Seq<char>) -> bool {
    &&& no_newline(l)
    &&& (l.len() == 0 || l[l.len() - 1] != '\r')
}

/// `needle` occurs in `hay` as a contiguous piece.
pub open spec fn occurs_in(needle: Seq<char>, hay: Seq<char>) -> bool {
    exists|i: int|
        0 <= i && i + needle.len() <= hay.len() && #[trigger] hay.subrange(i, i + needle.len())
            == needle
}

/// What `str::to_lowercase` returns for a text: the lowercase mapping of
/// Unicode applied to every character.
pub uninterp spec fn lowercase_of(s: Seq<char>) -> Seq<char>;

/// `needle` occurs in `hay` when case is ignored, the way the store
/// searches: both sides are lowercased first.
pub open spec fn occurs_ignoring_case(needle: Seq<char>, hay: Seq<char>) -> bool {
    occurs_in(lowercase_of(needle), lowercase_of(hay))
}

pub proof fn lemma_first_newline(s: Seq<char>)
    ensures
        0 <= first_newline(s) <= s.len(),
        first_newline(s) < s.len() ==> s[first_newline(s)] == '\n',
        forall|j: int| 0 <= j < first_newline(s) ==> s[j] != '\n',
    decreases s.len(),
{
    if s.len() > 0 && s[0] != '\n' {
        lemma_first_newline(s.subrange(1, s.len() as int));
        assert forall|j: int| 0 <= j < first_newline(s) implies s[j] != '\n' by {
            if j > 0 {
                assert(s[j] == s.subrange(1, s.len() as int)[j - 1]);
            }
        }
    }
}

/// The first `'\n'` of `t` is at `k` when `k` is the first place holding one.
pub proof fn lemma_first_newline_at(t: Seq<char>, k: int)
    requires
        0 <= k <= t.len(),
        forall|j: int| 0 <= j < k ==> t[j] != '\n',
        k < t.len() ==> t[k] == '\n',
    ensures
        first_newline(t) == k,
    decreases k,
{
    if k > 0 {
        let r = t.subrange(1, t.len() as int);
        assert forall|j: int| 0 <= j < k - 1 implies r[j] != '\n' by {
            assert(r[j] == t[j + 1]);
        }
        if k - 1 < r.len() {
            assert(r[k - 1] == t[k]);
        }
        lemma_first_newline_at(r, k - 1);
    }
}

pub proof fn lemma_joined_push(ls: Seq<Seq<char>>, l: Seq<char>)
    requires
        ls.len() >= 1,
    ensures
        joined(ls.push(l)) == joined(ls) + seq!['\n'] + l,
    decreases ls.len(),
{
    if ls.len() == 1 {
        assert(ls.push(l).drop_first() =~= seq![l]);
        assert(joined(seq![l]) == l);
    } else {
        assert(ls.push(l).drop_first() =~= ls.drop_first().push(l));
        lemma_joined_push(ls.drop_first(), l);
        assert(joined(ls.push(l)) =~= joined(ls) + seq!['\n'] + l);
    }
}

pub proof fn lemma_joined_with_push(ls: Seq<Seq<char>>, sep: Seq<char>, l: Seq<char>)
    requires
        ls.len() >= 1,
    ensures
        joined_with(ls.push(l), sep) == joined_with(ls, sep) + sep + l,
    decreases ls.len(),
{
    if ls.len() == 1 {
        assert(ls.push(l).drop_first() =~= seq![l]);
        assert(joined_with(seq![l], sep) == l);
    } else {
        assert(ls.push(l).drop_first() =~= ls.drop_first().push(l));
        lemma_joined_with_push(ls.drop_first(), sep, l);
        assert(joined_with(ls.push(l), sep) =~= joined_with(ls, sep) + sep + l);
    }
}

pub proof fn lemma_terminated_push(ls: Seq<Seq<char>>, l: Seq<char>)
    ensures
        terminated(ls.push(l)) == terminated(ls) + l + seq!['\n'],
    decreases ls.len(),
{
    if ls.len() == 0 {
        assert(ls.push(l).drop_first() =~= Seq::<Seq<char>>::empty());
        assert(terminated(ls.push(l).drop_first()) == Seq::<char>::empty());
        assert(terminated(ls.push(l)) =~= l + seq!['\n']);
    } else {
        assert(ls.push(l).drop_first() =~= ls.drop_first().push(l));
        lemma_terminated_push(ls.drop_first(), l);
        assert(terminated(ls.push(l)) =~= terminated(ls) + l + seq!['\n']);
    }
}

/// Splitting joined lines at their `'\n'` gives the lines back.
pub proof fn lemma_split_joined(ls: Seq<Seq<char>>)
    requires
        ls.len() >= 1,
        forall|i: int| 0 <= i < ls.len() ==> no_newline(#[trigger] ls[i]),
    ensures
        split_newlines(joined(ls)) == ls,
    decreases ls.len(),
{
    let l0 = ls[0];
    if ls.len() == 1 {
        lemma_first_newline_at(l0, l0.len() as int);
        assert(split_newlines(joined(ls)) =~= ls);
    } else {
        let rest = ls.drop_first();
        let t = l0 + seq!['\n'] + joined(rest);
        assert(joined(ls) == t);
        assert forall|j: int| 0 <= j < l0.len() implies t[j] != '\n' by {
            assert(t[j] == l0[j]);
        }
        lemma_first_newline_at(t, l0.len() as int);
        assert(t.subrange(0, l0.len() as int) =~= l0);
        assert(t.subrange(l0.len() as int + 1, t.len() as int) =~= joined(rest));
        assert forall|i: int| 0 <= i < rest.len() implies no_newline(#[trigger] rest[i]) by {
            assert(rest[i] == ls[i + 1]);
        }
        lemma_split_joined(rest);
        assert(split_newlines(joined(ls)) =~= ls);
    }
}

/// Reading the lines of a text written line by line gives the lines back.
pub proof fn lemma_text_lines_terminated(ls: Seq<Seq<char>>)
    requires
        forall|i: int| 0 <= i < ls.len() ==> is_plain_line(#[trigger] ls[i]),
    ensures
        text_lines(terminated(ls)) == ls,
    decreases ls.len(),
{
    if ls.len() == 0 {
        assert(text_lines(terminated(ls)) =~= ls);
    } else {
        let l0 = ls[0];
        let rest = ls.drop_first();
        let t = l0 + seq!['\n'] + terminated(rest);
        assert(terminated(ls) == t);
        assert(is_plain_line(ls[0]));
        assert forall|j: int| 0 <= j < l0.len() implies t[j] != '\n' by {
            assert(t[j] == l0[j]);
        }
        lemma_first_newline_at(t, l0.len() as int);
        assert(t.subrange(0, l0.len() as int) =~= l0);
        assert(strip_cr(l0) == l0);
        assert(t.subrange(l0.len() as int + 1, t.len() as int) =~= terminated(rest));
        assert forall|i: int| 0 <= i < rest.len() implies is_plain_line(#[trigger] rest[i]) by {
            assert(rest[i] == ls[i + 1]);
        }
        lemma_text_lines_terminated(rest);
        assert(text_lines(terminated(ls)) =~= ls);
    }
}

/// The characters of `s`.
pub fn chars_of(s: &str) -> (res: Vec<char>)
    ensures
        res@ == s@,
{
    let n = s.unicode_len();
    let mut res: Vec<char> = Vec::new();
    let mut i: usize = 0;
    while i < n
        invariant
            n == s@.len(),
            i <= n,
            res@ == s@.subrange(0, i as int),
        decreases n - i,
    {
        res.push(s.get_char(i));
        i = i + 1;
        assert(res@ =~= s@.subrange(0, i as int));
    }
    assert(res@ =~= s@);
    res
}

/// Whether two texts are equal.
pub fn same_text(a: &str, b: &str) -> (res: bool)
    ensures
        res == (a@ == b@),
{
    let n = a.unicode_len();
    if n != b.unicode_len() {
        return false;
    }
    let mut i: usize = 0;
    while i < n
        invariant
            n == a@.len(),
            n == b@.len(),
            i <= n,
            forall|k: int| 0 <= k < i ==> a@[k] == b@[k],
        decreases n - i,
    {
        if a.get_char(i) != b.get_char(i) {
            return false;
        }
        i = i + 1;
    }
    assert(a@ =~= b@);
    true
}

/// The characters `from..to` of `s` as a new string.
pub fn substring(s: &str, from: usize, to: usize) -> (res: String)
    requires
        from <= to <= s@.len(),
    ensures
        res@ == s@.subrange(from as int, to as int),
{
    s.substring_char(from, to).to_owned()
}

/// The characters `from..to` of `s`, without a final `'\r'`.
fn line_between(s: &str, cs: &Vec<char>, from: usize, to: usize) -> (res: String)
    requires
        cs@ == s@,
        from <= to <= s@.len(),
    ensures
        res@ == strip_cr(s@.subrange(from as int, to as int)),
{
    if to > from && cs[to - 1] == '\r' {
        substring(s, from, to - 1)
    } else {
        substring(s, from, to)
    }
}

/// The lines of a text, as `str::lines` yields them.
pub fn lines_of(s: &str) -> (res: Vec<String>)
    ensures
        views(res@) == text_lines(s@),
{
    let cs = chars_of(s);
    let n = cs.len();
    let mut out: Vec<String> = Vec::new();
    let mut start: usize = 0;
    let mut i: usize = 0;
    assert(s@.subrange(0, n as int) =~= s@);
    while i < n
        invariant
            n == s@.len(),
            cs@ == s@,
            start <= i <= n,
            forall|j: int| start <= j < i ==> s@[j] != '\n',
            text_lines(s@) == views(out@) + text_lines(s@.subrange(start as int, n as int)),
        decreases n - i,
    {
        if cs[i] == '\n' {
            let line = line_between(s, &cs, start, i);
            proof {
                let t = s@.subrange(start as int, n as int);
                let k = i - start;
                assert forall|j: int| 0 <= j < k implies t[j] != '\n' by {
                    assert(t[j] == s@[start + j]);
                }
                assert(t[k] == s@[i as int]);
                lemma_first_newline_at(t, k);
                assert(t.subrange(0, k) =~= s@.subrange(start as int, i as int));
                assert(t.subrange(k + 1, t.len() as int) =~= s@.subrange(i + 1, n as int));
                assert(views(out@.push(line)) =~= views(out@).push(line@));
            }
            out.push(line);
            start = i + 1;
        }
        i = i + 1;
    }
    if start < n {
        let line = substring(s, start, n);
        proof {
            let t = s@.subrange(start as int, n as int);
            assert forall|j: int| 0 <= j < t.len() implies t[j] != '\n' by {
                assert(t[j] == s@[start + j]);
            }
            lemma_first_newline_at(t, t.len() as int);
            assert(t.subrange(0, t.len() as int) =~= t);
            assert(text_lines(t) =~= seq![t]);
            assert(views(out@.push(line)) =~= views(out@).push(line@));
        }
        out.push(line);
    } else {
        assert(s@.subrange(start as int, n as int) =~= Seq::<char>::empty());
    }
    assert(views(out@) =~= text_lines(s@));
    out
}

/// The pieces of a text between its `'\n'` characters.
pub fn split_at_newlines(s: &str) -> (res: Vec<String>)
    ensures
        views(res@) == split_newlines(s@),
{
    let cs = chars_of(s);
    let n = cs.len();
    let mut out: Vec<String> = Vec::new();
    let mut start: usize = 0;
    let mut i: usize = 0;
    assert(s@.subrange(0, n as int) =~= s@);
    while i < n
        invariant
            n == s@.len(),
            cs@ == s@,
            start <= i <= n,
            forall|j: int| start <= j < i ==> s@[j] != '\n',
            split_newlines(s@) == views(out@) + split_newlines(
                s@.subrange(start as int, n as int),
            ),
        decreases n - i,
    {
        if cs[i] == '\n' {
            let piece = substring(s, start, i);
            proof {
                let t = s@.subrange(start as int, n as int);
                let k = i - start;
                assert forall|j: int| 0 <= j < k implies t[j] != '\n' by {
                    assert(t[j] == s@[start + j]);
                }
                assert(t[k] == s@[i as int]);
                lemma_first_newline_at(t, k);
                assert(t.subrange(0, k) =~= s@.subrange(start as int, i as int));
                assert(t.subrange(k + 1, t.len() as int) =~= s@.subrange(i + 1, n as int));
                assert(views(out@.push(piece)) =~= views(out@).push(piece@));
            }
            out.push(piece);
            start = i + 1;
        }
        i = i + 1;
    }
    let piece = substring(s, start, n);
    proof {
        let t = s@.subrange(start as int, n as int);
        assert forall|j: int| 0 <= j < t.len() implies t[j] != '\n' by {
            assert(t[j] == s@[start + j]);
        }
        lemma_first_newline_at(t, t.len() as int);
        assert(split_newlines(t) =~= seq![t]);
        assert(views(out@.push(piece)) =~= views(out@).push(piece@));
    }
    out.push(piece);
    assert(views(out@) =~= split_newlines(s@));
    out
}

/// The lines joined with `sep` between them.
pub fn join_with(ls: &Vec<String>, sep: &str) -> (res: String)
    ensures
        res@ == joined_with(views(ls@), sep@),
{
    let mut res = String::new();
    let n = ls.len();
    if n == 0 {
        assert(res@ =~= joined_with(views(ls@), sep@));
        return res;
    }
    res.append(ls[0].as_str());
    let mut i: usize = 1;
    assert(views(ls@).subrange(0, 1) =~= seq![ls@[0]@]);
    while i < n
        invariant
            n == ls@.len(),
            1 <= i <= n,
            res@ == joined_with(views(ls@).subrange(0, i as int), sep@),
        decreases n - i,
    {
        proof {
            lemma_joined_with_push(views(ls@).subrange(0, i as int), sep@, ls@[i as int]@);
            assert(views(ls@).subrange(0, i as int).push(ls@[i as int]@) =~= views(
                ls@,
            ).subrange(0, i + 1));
        }
        res.append(sep);
        res.append(ls[i].as_str());
        i = i + 1;
    }
    assert(views(ls@).subrange(0, n as int) =~= views(ls@));
    res
}

/// The lines joined with `'\n'` between them.
pub fn join_lines(ls: &Vec<String>) -> (res: String)
    ensures
        res@ == joined(views(ls@)),
{
    let r = join_with(ls, "\n");
    proof {
        reveal_strlit("\n");
        assert("\n"@ =~= seq!['\n']);
        lemma_joined_is_joined_with(views(ls@));
    }
    r
}

pub proof fn lemma_joined_is_joined_with(ls: Seq<Seq<char>>)
    ensures
        joined(ls) == joined_with(ls, seq!['\n']),
    decreases ls.len(),
{
    if ls.len() > 1 {
        lemma_joined_is_joined_with(ls.drop_first());
    }
}

/// Every line followed by `'\n'`: the text of a file holding the lines.
pub fn terminate_lines(ls: &Vec<String>) -> (res: String)
    ensures
        res@ == terminated(views(ls@)),
{
    let mut res = String::new();
    let n = ls.len();
    let mut i: usize = 0;
    proof {
        reveal_strlit("\n");
        assert("\n"@ =~= seq!['\n']);
    }
    assert(views(ls@).subrange(0, 0) =~= Seq::<Seq<char>>::empty());
    while i < n
        invariant
            n == ls@.len(),
            i <= n,
            res@ == terminated(views(ls@).subrange(0, i as int)),
            "\n"@ == seq!['\n'],
        decreases n - i,
    {
        proof {
            lemma_terminated_push(views(ls@).subrange(0, i as int), ls@[i as int]@);
            assert(views(ls@).subrange(0, i as int).push(ls@[i as int]@) =~= views(
                ls@,
            ).subrange(0, i + 1));
        }
        res.append(ls[i].as_str());
        res.append("\n");
        i = i + 1;
    }
    assert(views(ls@).subrange(0, n as int) =~= views(ls@));
    res
}

/// Whether `needle` occurs in `hay`.
pub fn occurs(needle: &Vec<char>, hay: &Vec<char>) -> (res: bool)
    ensures
        res == occurs_in(needle@, hay@),
{
    let m = needle.len();
    let n = hay.len();
    if m > n {
        return false;
    }
    let mut i: usize = 0;
    while i <= n - m
        invariant
            m == needle@.len(),
            n == hay@.len(),
            m <= n,
            i <= n - m + 1,
            forall|k: int| 0 <= k < i ==> #[trigger] hay@.subrange(k, k + m) != needle@,
        decreases n - m + 1 - i,
    {
        let mut j: usize = 0;
        let mut same = true;
        while j < m
            invariant
                m == needle@.len(),
                n == hay@.len(),
                i + m <= n,
                j <= m,
                same == (forall|l: int| 0 <= l < j ==> hay@[i + l] == #[trigger] needle@[l]),
            decreases m - j,
        {
            if hay[i + j] != needle[j] {
                same = false;
            }
            j = j + 1;
        }
        if same {
            assert(hay@.subrange(i as int, i + m) =~= needle@);
            return true;
        }
        assert(hay@.subrange(i as int, i + m) != needle@) by {
            let w = choose|l: int| 0 <= l < m && hay@[i + l] != needle@[l];
            assert(hay@.subrange(i as int, i + m)[w] == hay@[i + w]);
        }
        i = i + 1;
    }
    assert forall|k: int| 0 <= k && k + m <= n implies #[trigger] hay@.subrange(k, k + m)
        != needle@ by {}
    false
}

/// The length of the longest common beginning of `a` and `b`, also as a
/// ghost integer.
pub fn common_prefix_len(a: &Vec<char>, b: &Vec<char>) -> (res: (usize, Ghost<int>))
    ensures
        res.1@ == res.0 as int,
        res.0 <= a@.len(),
        res.0 <= b@.len(),
        forall|j: int| 0 <= j < res.0 ==> a@[j] == b@[j],
        res.0 < a@.len() && res.0 < b@.len() ==> a@[res.0 as int] != b@[res.0 as int],
{
    let n = a.len();
    let m = b.len();
    let mut i: usize = 0;
    while i < n && i < m && a[i] == b[i]
        invariant
            n == a@.len(),
            m == b@.len(),
            i <= n,
            i <= m,
            forall|j: int| 0 <= j < i ==> a@[j] == b@[j],
        decreases n - i,
    {
        i = i + 1;
    }
    (i, Ghost(i as int))
}

/// `s` in lowercase.
///
/// Calls `str::to_lowercase`; its result is named `lowercase_of`, a function
/// of the text alone, of which nothing more is claimed here.
#[verifier::external_body]
pub(crate) fn lowercase(s: &str) -> (res: String)
    ensures
        res@ == lowercase_of(s@),
{
    s.to_lowercase()
}

/// Whether `needle` occurs in `hay` when case is ignored.
pub fn occurs_case_insensitive(needle: &str, hay: &str) -> (res: bool)
    ensures
        res == occurs_ignoring_case(needle@, hay@),
{
    let n = lowercase(needle);
    let h = lowercase(hay);
    let nc = chars_of(n.as_str());
    let hc = chars_of(h.as_str());
    occurs(&nc, &hc)
}

} // verus!
