//! The store's naming rules on paths. Paths are texts whose components
//! are separated by `'/'`; the store works on normalized paths, without
//! `.`/`..` components, repeated separators or a trailing separator.

use vstd::prelude::*;

use crate::error::StoreError;
use crate::text::{chars_of, substring};

verus! {

/// Index of the last `'/'` in `p`, or -1 where there is none.
pub open spec fn last_slash(p: Seq<char>) -> int
    decreases p.len(),
{
    if p.len() == 0 {
        -1
    } else if p[p.len() - 1] == '/' {
        p.len() - 1
    } else {
        last_slash(p.subrange(0, p.len() - 1))
    }
}

/// Index of the last `'.'` in `p`, or -1 where there is none.
pub open spec fn last_dot(p: Seq<char>) -> int
    decreases p.len(),
{
    if p.len() == 0 {
        -1
    } else if p[p.len() - 1] == '.' {
        p.len() - 1
    } else {
        last_dot(p.subrange(0, p.len() - 1))
    }
}

pub proof fn lemma_last_char_index(p: Seq<char>, c: char, i: int)
    requires
        (c == '/' && i == last_slash(p)) || (c == '.' && i == last_dot(p)),
    ensures
        -1 <= i < p.len(),
        i >= 0 ==> p[i] == c,
        forall|j: int| i < j < p.len() ==> p[j] != c,
    decreases p.len(),
{
    if p.len() > 0 && p[p.len() - 1] != c {
        let q = p.subrange(0, p.len() - 1);
        if c == '/' {
            lemma_last_char_index(q, c, last_slash(q));
        } else {
            lemma_last_char_index(q, c, last_dot(q));
        }
        assert forall|j: int| i < j < p.len() implies p[j] != c by {
            if j < p.len() - 1 {
                assert(p[j] == q[j]);
            }
        }
    }
}

/// Text without `'/'` after a path leaves its last separator in place.
pub proof fn lemma_last_slash_append(a: Seq<char>, b: Seq<char>)
    requires
        forall|j: int| 0 <= j < b.len() ==> b[j] != '/',
    ensures
        last_slash(a + b) == last_slash(a),
    decreases b.len(),
{
    if b.len() > 0 {
        let q = a + b;
        let b0 = b.subrange(0, b.len() - 1);
        assert(q[q.len() - 1] == b[b.len() - 1]);
        assert(q.subrange(0, q.len() - 1) =~= a + b0);
        lemma_last_slash_append(a, b0);
    } else {
        assert(a + b =~= a);
    }
}

/// Text without `'.'` after a name leaves its last dot in place.
pub proof fn lemma_last_dot_append(a: Seq<char>, b: Seq<char>)
    requires
        forall|j: int| 0 <= j < b.len() ==> b[j] != '.',
    ensures
        last_dot(a + b) == last_dot(a),
    decreases b.len(),
{
    if b.len() > 0 {
        let q = a + b;
        let b0 = b.subrange(0, b.len() - 1);
        assert(q[q.len() - 1] == b[b.len() - 1]);
        assert(q.subrange(0, q.len() - 1) =~= a + b0);
        lemma_last_dot_append(a, b0);
    } else {
        assert(a + b =~= a);
    }
}

/// The last component of a path.
pub open spec fn file_name_of(p: Seq<char>) -> Seq<char> {
    p.subrange(last_slash(p) + 1, p.len() as int)
}

/// The extension of a file name: what follows its last `'.'`, where that
/// `'.'` is not the first character.
pub open spec fn extension_of(name: Seq<char>) -> Option<Seq<char>> {
    let d = last_dot(name);
    if d > 0 {
        Some(name.subrange(d + 1, name.len() as int))
    } else {
        None
    }
}

/// A file name without its extension.
pub open spec fn stem_of(name: Seq<char>) -> Seq<char> {
    let d = last_dot(name);
    if d > 0 {
        name.subrange(0, d)
    } else {
        name
    }
}

/// The path with the extension of its last component removed.
pub open spec fn without_extension_of(p: Seq<char>) -> Seq<char> {
    p.subrange(0, last_slash(p) + 1) + stem_of(file_name_of(p))
}

/// The last component of the path has the extension `ext`.
pub open spec fn has_extension_of(p: Seq<char>, ext: Seq<char>) -> bool {
    extension_of(file_name_of(p)) == Some(ext)
}

/// `base` is a leading run of whole components of `p`.
pub open spec fn starts_with_path(p: Seq<char>, base: Seq<char>) -> bool {
    ||| p == base
    ||| (base.len() < p.len() && p.subrange(0, base.len() as int) == base && (
    base.len() == 0 || base[base.len() - 1] == '/' || p[base.len() as int] == '/'))
}

/// What remains of `p` after the components of `base`, without a leading
/// separator.
pub open spec fn strip_prefix_of(p: Seq<char>, base: Seq<char>) -> Option<Seq<char>> {
    if p == base {
        Some(Seq::empty())
    } else if starts_with_path(p, base) {
        if base.len() == 0 || base[base.len() - 1] == '/' {
            Some(p.subrange(base.len() as int, p.len() as int))
        } else {
            Some(p.subrange(base.len() as int + 1, p.len() as int))
        }
    } else {
        None
    }
}

/// `base` followed by `rel`, with a separator between them where `base`
/// has none at its end; an absolute `rel` stands alone.
pub open spec fn joined_path(base: Seq<char>, rel: Seq<char>) -> Seq<char> {
    if rel.len() > 0 && rel[0] == '/' {
        rel
    } else if base.len() == 0 || base[base.len() - 1] == '/' {
        base + rel
    } else {
        base + seq!['/'] + rel
    }
}

/// The directory holding `p`, where there is one.
pub open spec fn parent_of(p: Seq<char>) -> Option<Seq<char>> {
    let s = last_slash(p);
    if p.len() == 0 || p == seq!['/'] {
        None
    } else if s < 0 {
        Some(Seq::empty())
    } else if s == 0 {
        Some(seq!['/'])
    } else {
        Some(p.subrange(0, s))
    }
}

/// The name under which the store shows a password: its path below the
/// store's root, without the file's extension.
pub open spec fn entry_name_of(path: Seq<char>, root: Seq<char>) -> Option<Seq<char>> {
    match strip_prefix_of(path, root) {
        Some(rel) => Some(without_extension_of(rel)),
        None => None,
    }
}

/// Files that belong to the store's machinery and are no entries of it.
pub open spec fn is_special_name(name: Seq<char>) -> bool {
    name == ".git"@ || name == ".gitattributes"@ || name == ".gpg-id"@
}

/// A password's file has the extension `gpg`.
pub open spec fn is_password_file(p: Seq<char>) -> bool {
    has_extension_of(p, "gpg"@)
}

/// Index of the last `c` in `p`, for the separators the paths use.
pub open spec fn last_index_spec(p: Seq<char>, c: char) -> int {
    if c == '/' {
        last_slash(p)
    } else {
        last_dot(p)
    }
}

fn last_index_of(cs: &Vec<char>, c: char) -> (res: (usize, bool))
    requires
        c == '/' || c == '.',
    ensures
        res.1 ==> res.0 < cs@.len(),
        res.1 ==> res.0 == last_index_spec(cs@, c),
        res.1 ==> cs@[res.0 as int] == c,
        !res.1 ==> last_index_spec(cs@, c) == -1,
        c == '/' ==> last_index_spec(cs@, c) == last_slash(cs@),
        c == '.' ==> last_index_spec(cs@, c) == last_dot(cs@),
{
    let ghost li = last_index_spec(cs@, c);
    proof {
        lemma_last_char_index(cs@, c, li);
    }
    let mut i = cs.len();
    while i > 0
        invariant
            i <= cs@.len(),
            -1 <= li < cs@.len(),
            c == '/' || c == '.',
            li == last_index_spec(cs@, c),
            li >= 0 ==> cs@[li] == c,
            forall|j: int| li < j < cs@.len() ==> cs@[j] != c,
            forall|j: int| i <= j < cs@.len() ==> cs@[j] != c,
        decreases i,
    {
        if cs[i - 1] == c {
            assert(li == i - 1);
            return (i - 1, true);
        }
        i = i - 1;
    }
    assert(li < 0);
    (0, false)
}

/// The last component of a path.
pub fn file_name(p: &str) -> (res: String)
    ensures
        res@ == file_name_of(p@),
{
    let cs = chars_of(p);
    let n = cs.len();
    let (i, found) = last_index_of(&cs, '/');
    if found {
        substring(p, i + 1, n)
    } else {
        substring(p, 0, cs.len())
    }
}

/// The extension of a file name.
pub fn extension(name: &str) -> (res: Option<String>)
    ensures
        match res {
            Some(e) => extension_of(name@) == Some(e@),
            None => extension_of(name@) is None,
        },
{
    let cs = chars_of(name);
    let n = cs.len();
    let (d, found) = last_index_of(&cs, '.');
    if found && d > 0 {
        Some(substring(name, d + 1, n))
    } else {
        None
    }
}

/// A file name without its extension.
pub fn stem(name: &str) -> (res: String)
    ensures
        res@ == stem_of(name@),
{
    let cs = chars_of(name);
    let (d, found) = last_index_of(&cs, '.');
    if found && d > 0 {
        substring(name, 0, d)
    } else {
        substring(name, 0, cs.len())
    }
}

/// Whether the last component of `p` has the extension `ext`.
pub fn path_has_extension(p: &str, ext: &str) -> (res: bool)
    ensures
        res == has_extension_of(p@, ext@),
{
    let name = file_name(p);
    match extension(name.as_str()) {
        Some(e) => e == ext.to_owned(),
        None => false,
    }
}

/// The path with the extension of its last component removed.
pub fn without_extension(p: &str) -> (res: String)
    ensures
        res@ == without_extension_of(p@),
{
    let cs = chars_of(p);
    let n = cs.len();
    let (i, found) = last_index_of(&cs, '/');
    let head_end = if found {
        i + 1
    } else {
        0
    };
    let mut head = substring(p, 0, head_end);
    let name = substring(p, head_end, cs.len());
    let s = stem(name.as_str());
    head.append(s.as_str());
    head
}

/// Whether the components of `base` lead `p`.
pub fn path_starts_with(p: &str, base: &str) -> (res: bool)
    ensures
        res == starts_with_path(p@, base@),
{
    let pc = chars_of(p);
    let bc = chars_of(base);
    let n = pc.len();
    let m = bc.len();
    if m > n {
        return false;
    }
    let mut i: usize = 0;
    while i < m
        invariant
            pc@ == p@,
            bc@ == base@,
            m <= n,
            n == p@.len(),
            m == base@.len(),
            i <= m,
            forall|j: int| 0 <= j < i ==> p@[j] == base@[j],
        decreases m - i,
    {
        if pc[i] != bc[i] {
            assert(p@.subrange(0, m as int)[i as int] != base@[i as int]);
            assert(p@ != base@);
            return false;
        }
        i = i + 1;
    }
    assert(p@.subrange(0, m as int) =~= base@);
    if m == n {
        assert(p@ =~= base@);
        true
    } else {
        m == 0 || bc[m - 1] == '/' || pc[m] == '/'
    }
}

/// What remains of `p` after the components of `base`.
pub fn strip_prefix(p: &str, base: &str) -> (res: Option<String>)
    ensures
        match res {
            Some(r) => strip_prefix_of(p@, base@) == Some(r@),
            None => strip_prefix_of(p@, base@) is None,
        },
{
    let pc = chars_of(p);
    let bc = chars_of(base);
    if !path_starts_with(p, base) {
        return None;
    }
    if pc.len() == bc.len() {
        assert(p@ =~= base@);
        return Some(String::new());
    }
    assert(p@ != base@);
    if bc.len() == 0 || bc[bc.len() - 1] == '/' {
        Some(substring(p, bc.len(), pc.len()))
    } else {
        Some(substring(p, bc.len() + 1, pc.len()))
    }
}

/// `base` followed by `rel`.
pub fn join_path(base: &str, rel: &str) -> (res: String)
    ensures
        res@ == joined_path(base@, rel@),
{
    let bc = chars_of(base);
    let rc = chars_of(rel);
    if rc.len() > 0 && rc[0] == '/' {
        return rel.to_owned();
    }
    let mut res = base.to_owned();
    if !(bc.len() == 0 || bc[bc.len() - 1] == '/') {
        res.append("/");
        proof {
            reveal_strlit("/");
        }
    }
    res.append(rel);
    res
}

/// The directory holding `p`, where there is one.
pub fn parent(p: &str) -> (res: Option<String>)
    ensures
        match res {
            Some(d) => parent_of(p@) == Some(d@),
            None => parent_of(p@) is None,
        },
{
    let cs = chars_of(p);
    let (s, found) = last_index_of(&cs, '/');
    if cs.len() == 0 || (cs.len() == 1 && cs[0] == '/') {
        if cs.len() == 1 {
            assert(p@ =~= seq!['/']);
        }
        return None;
    }
    assert(p@ != seq!['/']) by {
        if p@ == seq!['/'] {
            assert(cs@.len() == 1);
            assert(cs@[0] == '/');
        }
    }
    if !found {
        Some(String::new())
    } else if s == 0 {
        let r = substring(p, 0, 1);
        assert(r@ =~= seq!['/']);
        Some(r)
    } else {
        Some(substring(p, 0, s))
    }
}

/// The name under which the store shows the entry at `path`, or `None`
/// when the path does not lie inside the store.
pub fn entry_name(path: &str, root: &str) -> (res: Option<String>)
    ensures
        match res {
            Some(n) => entry_name_of(path@, root@) == Some(n@),
            None => entry_name_of(path@, root@) is None,
        },
{
    match strip_prefix(path, root) {
        Some(rel) => Some(without_extension(rel.as_str())),
        None => None,
    }
}

/// The name of the password at `path` in the store at `root`.
pub fn pw_name(path: &str, root: &str) -> (res: String)
    requires
        starts_with_path(path@, root@),
    ensures
        Some(res@) == entry_name_of(path@, root@),
{
    match entry_name(path, root) {
        Some(n) => n,
        None => String::new(),
    }
}

/// Whether the entry at `path` belongs to the store's machinery.
pub fn is_special_entry(path: &str) -> (res: bool)
    ensures
        res == is_special_name(file_name_of(path@)),
{
    let name = file_name(path);
    let git = String::from_str(".git");
    let attributes = String::from_str(".gitattributes");
    let gpg_id = String::from_str(".gpg-id");
    name == git || name == attributes || name == gpg_id
}

/// Whether the file at `path` is a password.
pub fn is_password(path: &str) -> (res: bool)
    ensures
        res == is_password_file(path@),
{
    path_has_extension(path, "gpg")
}

/// The path without separators at its end, as a path's components see
/// it; the root `/` stays as it is.
pub open spec fn without_trailing_slashes_of(p: Seq<char>) -> Seq<char>
    decreases p.len(),
{
    if p.len() > 1 && p[p.len() - 1] == '/' {
        without_trailing_slashes_of(p.subrange(0, p.len() - 1))
    } else {
        p
    }
}

/// The path without separators at its end; the root `/` stays.
pub fn trim_trailing_slashes(p: &str) -> (res: String)
    ensures
        res@ == without_trailing_slashes_of(p@),
{
    let cs = chars_of(p);
    let mut n = cs.len();
    assert(p@.subrange(0, n as int) =~= p@);
    while n > 1 && cs[n - 1] == '/'
        invariant
            cs@ == p@,
            n <= p@.len(),
            without_trailing_slashes_of(p@.subrange(0, n as int)) == without_trailing_slashes_of(p@),
        decreases n,
    {
        assert(p@.subrange(0, n as int).subrange(0, n - 1) =~= p@.subrange(0, n - 1));
        n = n - 1;
    }
    substring(p, 0, n)
}

/// The path with its last component replaced by `name`.
pub open spec fn with_file_name_of(p: Seq<char>, name: Seq<char>) -> Seq<char> {
    match parent_of(p) {
        Some(d) => joined_path(d, name),
        None => joined_path(p, name),
    }
}

/// The path with the extension of its last component replaced by `ext`,
/// or removed where `ext` is empty; a path without a last component stays
/// as it is.
pub open spec fn with_extension_of(p: Seq<char>, ext: Seq<char>) -> Seq<char> {
    if file_name_of(p).len() == 0 {
        p
    } else if ext.len() == 0 {
        without_extension_of(p)
    } else {
        without_extension_of(p) + seq!['.'] + ext
    }
}

/// The path with its last component replaced by `name`.
pub fn with_file_name(p: &str, name: &str) -> (res: String)
    ensures
        res@ == with_file_name_of(p@, name@),
{
    match parent(p) {
        Some(d) => join_path(d.as_str(), name),
        None => join_path(p, name),
    }
}

/// The path with the extension of its last component replaced by `ext`.
pub fn with_extension(p: &str, ext: &str) -> (res: String)
    ensures
        res@ == with_extension_of(p@, ext@),
{
    let name = file_name(p);
    if name.unicode_len() == 0 {
        return p.to_owned();
    }
    let mut res = without_extension(p);
    if ext.unicode_len() > 0 {
        res.append(".");
        proof {
            reveal_strlit(".");
        }
        res.append(ext);
    }
    res
}

/// The path that the store shows for a requested path: a relative path is
/// taken from the store's root; an absolute one must lie inside the store.
pub open spec fn show_target_of(root: Seq<char>, requested: Seq<char>) -> Option<Seq<char>> {
    if !(requested.len() > 0 && requested[0] == '/') {
        Some(joined_path(root, requested))
    } else if starts_with_path(requested, root) {
        Some(requested)
    } else {
        None
    }
}

/// The path that the store shows for a requested path, or the error that
/// the path does not lie inside the store.
pub fn show_target(root: &str, requested: &str) -> (res: Result<String, StoreError>)
    ensures
        match res {
            Ok(t) => show_target_of(root@, requested@) == Some(t@),
            Err(e) => show_target_of(root@, requested@) is None && (match e {
                StoreError::NotInStore(p) => p@ == requested@,
                _ => false,
            }),
        },
{
    let rc = chars_of(requested);
    if !(rc.len() > 0 && rc[0] == '/') {
        Ok(join_path(root, requested))
    } else if path_starts_with(requested, root) {
        Ok(requested.to_owned())
    } else {
        Err(StoreError::NotInStore(requested.to_owned()))
    }
}

/// The directories in which the GPG IDs of `path` are looked for, nearest
/// first: the path itself and then each directory holding the previous one.
pub open spec fn gpg_id_candidates_of(p: Seq<char>) -> Seq<Seq<char>>
    decreases p.len(),
{
    match parent_of(p) {
        Some(q) => if q.len() < p.len() {
            seq![p] + gpg_id_candidates_of(q)
        } else {
            seq![p]
        },
        None => seq![p],
    }
}

pub proof fn lemma_parent_shorter(p: Seq<char>)
    ensures
        parent_of(p) matches Some(q) ==> q.len() < p.len(),
{
    lemma_last_char_index(p, '/', last_slash(p));
    if last_slash(p) == 0 && p.len() == 1 {
        assert(p =~= seq!['/']);
    }
}

/// The directories in which the GPG IDs of `path` are looked for, nearest
/// first.
pub fn gpg_id_candidates(path: &str) -> (res: Vec<String>)
    ensures
        crate::text::views(res@) == gpg_id_candidates_of(path@),
{
    let mut out: Vec<String> = Vec::new();
    let mut cur = path.to_owned();
    loop
        invariant
            crate::text::views(out@) + gpg_id_candidates_of(cur@) == gpg_id_candidates_of(path@),
        decreases cur@.len(),
    {
        proof {
            lemma_parent_shorter(cur@);
        }
        let next = parent(cur.as_str());
        let c2 = cur.clone();
        proof {
            assert(crate::text::views(out@.push(c2)) =~= crate::text::views(out@).push(c2@));
        }
        out.push(c2);
        match next {
            Some(q) => {
                assert(crate::text::views(out@) + gpg_id_candidates_of(q@) =~= gpg_id_candidates_of(
                    path@,
                ));
                cur = q;
            },
            None => {
                assert(crate::text::views(out@) =~= gpg_id_candidates_of(path@));
                return out;
            },
        }
    }
}

/// Where the search for an entry goes among the children of a node.
#[derive(Debug, Clone, Copy, PartialEq, Eq, Structural)]
pub enum ChildMatch {
    /// The child at this index is the entry searched for.
    Found(usize),
    /// The entry lies below the child at this index.
    Descend(usize),
    /// No child leads to the entry.
    NoMatch,
}

/// One step of the search for the entry at `target`: the first child,
/// in the order of the children, whose path is the target or leads it.
pub fn match_child(target: &str, children: &Vec<String>) -> (res: ChildMatch)
    requires
        children@.len() < usize::MAX,
    ensures
        match res {
            ChildMatch::Found(i) => i < children@.len() && children@[i as int]@ == target@
                && forall|j: int| 0 <= j < i ==> !starts_with_path(target@, #[trigger] children@[j]@),
            ChildMatch::Descend(i) => i < children@.len() && children@[i as int]@ != target@
                && starts_with_path(target@, children@[i as int]@) && forall|j: int|
                0 <= j < i ==> !starts_with_path(target@, #[trigger] children@[j]@),
            ChildMatch::NoMatch => forall|j: int|
                0 <= j < children@.len() ==> !starts_with_path(target@, #[trigger] children@[j]@),
        },
{
    let mut i: usize = 0;
    while i < children.len()
        invariant
            i <= children@.len(),
            forall|j: int| 0 <= j < i ==> !starts_with_path(target@, #[trigger] children@[j]@),
        decreases children@.len() - i,
    {
        if path_starts_with(target, children[i].as_str()) {
            if children[i].as_str().to_owned() == target.to_owned() {
                return ChildMatch::Found(i);
            } else {
                return ChildMatch::Descend(i);
            }
        }
        i = i + 1;
    }
    ChildMatch::NoMatch
}

} // verus!
