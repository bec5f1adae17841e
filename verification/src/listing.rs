//! How the files of a directory become entries of the store: which files
//! are entries at all, of what kind and under what name, and in which
//! order a directory's files are taken.

use vstd::prelude::*;

use crate::pass_node::{EntryKind, PassNode};
use crate::paths::{
    file_name, file_name_of, is_password, is_password_file, is_special_entry, is_special_name,
    stem, stem_of,
};
use crate::sorting::{lemma_text_le_total, lemma_text_le_transitive, text_le, text_le_of};

verus! {

/// The kind of entry a file of the store is, or `None` for the files that
/// belong to the store's machinery (`.git`, `.gitattributes`, `.gpg-id`).
/// A directory is a directory; a file with the extension `gpg` is a
/// password; any other file is a normal file.
pub open spec fn listed_kind_of(path: Seq<char>, is_dir: bool) -> Option<EntryKind> {
    if is_special_name(file_name_of(path)) {
        None
    } else if is_dir {
        Some(EntryKind::Directory)
    } else if is_password_file(path) {
        Some(EntryKind::Password)
    } else {
        Some(EntryKind::NormalFile)
    }
}

/// The name of the entry of a file: a password is named by its file name
/// without the extension, any other entry by its file name.
pub open spec fn listed_name_of(path: Seq<char>, is_dir: bool) -> Seq<char> {
    if !is_dir && is_password_file(path) {
        stem_of(file_name_of(path))
    } else {
        file_name_of(path)
    }
}

/// A directory that is no part of the store's machinery is an entry of
/// kind directory, named by its whole file name, dots included.
pub proof fn law_directory_named_by_file_name(path: Seq<char>)
    requires
        !is_special_name(file_name_of(path)),
    ensures
        listed_kind_of(path, true) == Some(EntryKind::Directory),
        listed_name_of(path, true) == file_name_of(path),
{
}

/// A file with the extension `gpg` is a password named by its file name
/// without that extension; any other file is a normal file named by its
/// whole file name.
pub proof fn law_file_entries(path: Seq<char>)
    requires
        !is_special_name(file_name_of(path)),
    ensures
        is_password_file(path) ==> listed_kind_of(path, false) == Some(EntryKind::Password)
            && listed_name_of(path, false) == stem_of(file_name_of(path)),
        !is_password_file(path) ==> listed_kind_of(path, false) == Some(EntryKind::NormalFile)
            && listed_name_of(path, false) == file_name_of(path),
{
}

/// The files of the store's machinery are no entries, whatever they are.
pub proof fn law_machinery_is_hidden(path: Seq<char>, is_dir: bool)
    requires
        is_special_name(file_name_of(path)),
    ensures
        listed_kind_of(path, is_dir) is None,
{
}

/// The entry of the store for the file at `path`, or `None` where the
/// file belongs to the store's machinery.
pub fn listed_node(path: String, is_dir: bool) -> (res: Option<PassNode>)
    ensures
        match res {
            Some(n) => listed_kind_of(path@, is_dir) == Some(n.kind_of()) && n.name_of()
                == listed_name_of(path@, is_dir) && n.path_of() == path@,
            None => listed_kind_of(path@, is_dir) is None,
        },
{
    if is_special_entry(path.as_str()) {
        None
    } else if is_dir {
        let name = file_name(path.as_str());
        Some(PassNode::Directory { name, path })
    } else if is_password(path.as_str()) {
        let file = file_name(path.as_str());
        let name = stem(file.as_str());
        Some(PassNode::Password { name, path })
    } else {
        let name = file_name(path.as_str());
        Some(PassNode::NormalFile { name, path })
    }
}

/// A file of a directory listing as its path and whether it is a file
/// (`false` for directories).
pub open spec fn listed_view(e: (String, bool)) -> (Seq<char>, bool) {
    (e.0@, e.1)
}

/// A directory listing as paths and flags.
pub open spec fn listing_view(v: Seq<(String, bool)>) -> Seq<(Seq<char>, bool)> {
    v.map_values(|e: (String, bool)| listed_view(e))
}

/// `a` is taken before `b`: directories before files, and among either
/// the paths in the order of texts.
pub open spec fn listed_before(a: (Seq<char>, bool), b: (Seq<char>, bool)) -> bool {
    (!a.1 && b.1) || (a.1 == b.1 && text_le_of(a.0, b.0))
}

/// The listing is in the order in which files are taken.
pub open spec fn listing_sorted(s: Seq<(Seq<char>, bool)>) -> bool {
    forall|i: int, j: int| 0 <= i < j < s.len() ==> listed_before(s[i], s[j])
}

proof fn lemma_listed_total(a: (Seq<char>, bool), b: (Seq<char>, bool))
    ensures
        listed_before(a, b) || listed_before(b, a),
{
    lemma_text_le_total(a.0, b.0);
}

proof fn lemma_listed_transitive(
    a: (Seq<char>, bool),
    b: (Seq<char>, bool),
    c: (Seq<char>, bool),
)
    requires
        listed_before(a, b),
        listed_before(b, c),
    ensures
        listed_before(a, c),
{
    if a.1 == b.1 && b.1 == c.1 {
        lemma_text_le_transitive(a.0, b.0, c.0);
    }
}

fn taken_before(a: &(String, bool), b: &(String, bool)) -> (res: bool)
    ensures
        res == listed_before(listed_view(*a), listed_view(*b)),
{
    (!a.1 && b.1) || (a.1 == b.1 && text_le(a.0.as_str(), b.0.as_str()))
}

/// The files of a directory in the order in which they are taken:
/// directories first, then files, each group in the order of their paths.
pub fn order_listing(entries: Vec<(String, bool)>) -> (res: Vec<(String, bool)>)
    ensures
        listing_view(res@).to_multiset() == listing_view(entries@).to_multiset(),
        listing_sorted(listing_view(res@)),
{
    broadcast use vstd::seq_lib::group_to_multiset_ensures;

    let mut res: Vec<(String, bool)> = Vec::new();
    let n = entries.len();
    let mut i: usize = 0;
    assert(listing_view(res@) =~= listing_view(entries@).subrange(0, 0));
    while i < n
        invariant
            n == entries@.len(),
            i <= n,
            listing_view(res@).to_multiset() == listing_view(entries@).subrange(
                0,
                i as int,
            ).to_multiset(),
            listing_sorted(listing_view(res@)),
        decreases n - i,
    {
        let e = (entries[i].0.clone(), entries[i].1);
        let ghost ev = listed_view(e);
        let ghost r = listing_view(res@);
        assert(ev == listing_view(entries@)[i as int]);
        let mut p: usize = 0;
        loop
            invariant_except_break
                p <= res@.len(),
                r == listing_view(res@),
                ev == listed_view(e),
                forall|k: int| 0 <= k < p ==> listed_before(#[trigger] r[k], ev),
            ensures
                p <= res@.len(),
                r == listing_view(res@),
                forall|k: int| 0 <= k < p ==> listed_before(#[trigger] r[k], ev),
                p < res@.len() ==> !listed_before(r[p as int], ev),
            decreases res@.len() - p,
        {
            if p >= res.len() {
                break ;
            }
            if !taken_before(&res[p], &e) {
                break ;
            }
            p = p + 1;
        }
        proof {
            let r2 = r.insert(p as int, ev);
            assert forall|a: int, b: int| 0 <= a < b < r2.len() implies listed_before(
                r2[a],
                r2[b],
            ) by {
                if b < p {
                } else if b == p {
                    assert(r2[a] == r[a]);
                } else if a < p {
                    assert(r2[b] == r[b - 1]);
                    assert(r2[a] == r[a]);
                    lemma_listed_total(r[p as int], ev);
                    if p < b - 1 {
                        assert(listed_before(r[p as int], r[b - 1]));
                        lemma_listed_transitive(ev, r[p as int], r[b - 1]);
                    }
                    lemma_listed_transitive(r[a], ev, r[b - 1]);
                } else if a == p {
                    assert(r2[b] == r[b - 1]);
                    lemma_listed_total(r[p as int], ev);
                    if p < b - 1 {
                        assert(listed_before(r[p as int], r[b - 1]));
                        lemma_listed_transitive(ev, r[p as int], r[b - 1]);
                    }
                } else {
                    assert(r2[a] == r[a - 1]);
                    assert(r2[b] == r[b - 1]);
                }
            }
            assert(listing_view(entries@).subrange(0, i + 1) =~= listing_view(entries@).subrange(
                0,
                i as int,
            ).push(ev));
            vstd::seq_lib::to_multiset_insert(r, p as int, ev);
            vstd::seq_lib::to_multiset_build(listing_view(entries@).subrange(0, i as int), ev);
        }
        res.insert(p, e);
        assert(listing_view(res@) =~= r.insert(p as int, ev));
        i = i + 1;
    }
    assert(listing_view(entries@).subrange(0, n as int) =~= listing_view(entries@));
    res
}

} // verus!
