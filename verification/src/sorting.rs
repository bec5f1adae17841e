//! How the entries of a directory are ordered.

use vstd::prelude::*;
use core::cmp::Ordering;

use crate::pass_node::{EntryKind, PassNode};
use crate::text::{chars_of, common_prefix_len, lowercase, lowercase_of};

verus! {

/// The lexicographic order of two texts, character by character, a
/// proper prefix coming first. On texts this is the order of `String`.
pub open spec fn text_order(a: Seq<char>, b: Seq<char>) -> Ordering
    decreases a.len(),
{
    if a.len() == 0 {
        if b.len() == 0 {
            Ordering::Equal
        } else {
            Ordering::Less
        }
    } else if b.len() == 0 {
        Ordering::Greater
    } else if a[0] < b[0] {
        Ordering::Less
    } else if a[0] > b[0] {
        Ordering::Greater
    } else {
        text_order(a.drop_first(), b.drop_first())
    }
}

/// The order read the other way round.
pub open spec fn reversed(o: Ordering) -> Ordering {
    match o {
        Ordering::Less => Ordering::Greater,
        Ordering::Equal => Ordering::Equal,
        Ordering::Greater => Ordering::Less,
    }
}

/// Swapping the texts reverses their order.
pub proof fn lemma_text_order_antisymmetric(a: Seq<char>, b: Seq<char>)
    ensures
        text_order(b, a) == reversed(text_order(a, b)),
    decreases a.len(),
{
    if a.len() > 0 && b.len() > 0 && a[0] == b[0] {
        lemma_text_order_antisymmetric(a.drop_first(), b.drop_first());
    }
}

/// Two texts are equal in the order exactly when they are the same text.
pub proof fn lemma_text_order_equal(a: Seq<char>, b: Seq<char>)
    ensures
        (text_order(a, b) == Ordering::Equal) <==> (a == b),
    decreases a.len(),
{
    if a.len() > 0 && b.len() > 0 && a[0] == b[0] {
        lemma_text_order_equal(a.drop_first(), b.drop_first());
        if a.drop_first() == b.drop_first() {
            assert(a =~= seq![a[0]] + a.drop_first());
            assert(b =~= seq![b[0]] + b.drop_first());
        }
    } else if a.len() > 0 && b.len() > 0 {
        assert(a[0] != b[0]);
    } else if a.len() == 0 && b.len() == 0 {
        assert(a =~= b);
    }
}

/// The order is transitive.
pub proof fn lemma_text_order_transitive(a: Seq<char>, b: Seq<char>, c: Seq<char>, o: Ordering)
    requires
        o != Ordering::Equal,
        text_order(a, b) == o,
        text_order(b, c) == o,
    ensures
        text_order(a, c) == o,
    decreases a.len(),
{
    if a.len() > 0 && b.len() > 0 && c.len() > 0 && a[0] == b[0] && b[0] == c[0] {
        lemma_text_order_transitive(a.drop_first(), b.drop_first(), c.drop_first(), o);
    }
}

/// Texts with a common beginning are ordered as what follows it.
pub proof fn lemma_text_order_skip(a: Seq<char>, b: Seq<char>, k: int)
    requires
        0 <= k <= a.len(),
        k <= b.len(),
        forall|j: int| 0 <= j < k ==> a[j] == b[j],
    ensures
        text_order(a, b) == text_order(a.skip(k), b.skip(k)),
    decreases k,
{
    if k > 0 {
        assert(a.drop_first().skip(k - 1) =~= a.skip(k));
        assert(b.drop_first().skip(k - 1) =~= b.skip(k));
        assert forall|j: int| 0 <= j < k - 1 implies a.drop_first()[j] == b.drop_first()[j] by {
            assert(a[j + 1] == b[j + 1]);
        }
        assert(a[0] == b[0]);
        lemma_text_order_skip(a.drop_first(), b.drop_first(), k - 1);
    } else {
        assert(a.skip(0) =~= a);
        assert(b.skip(0) =~= b);
    }
}

/// The order of two texts.
pub fn compare_text(a: &str, b: &str) -> (res: Ordering)
    ensures
        res == text_order(a@, b@),
{
    let ac = chars_of(a);
    let bc = chars_of(b);
    let (k, Ghost(gk)) = common_prefix_len(&ac, &bc);
    proof {
        lemma_text_order_skip(a@, b@, gk);
    }
    if k == ac.len() && k == bc.len() {
        Ordering::Equal
    } else if k == ac.len() {
        Ordering::Less
    } else if k == bc.len() {
        Ordering::Greater
    } else if ac[k] < bc[k] {
        Ordering::Less
    } else {
        Ordering::Greater
    }
}

/// `a` comes before `b`, or they are the same text.
pub open spec fn text_le_of(a: Seq<char>, b: Seq<char>) -> bool {
    text_order(a, b) != Ordering::Greater
}

/// Of two texts, one comes before the other or they are the same.
pub proof fn lemma_text_le_total(a: Seq<char>, b: Seq<char>)
    ensures
        text_le_of(a, b) || text_le_of(b, a),
        text_le_of(a, b) && text_le_of(b, a) ==> a == b,
{
    lemma_text_order_antisymmetric(a, b);
    lemma_text_order_equal(a, b);
}

/// Coming before, or being the same, is transitive.
pub proof fn lemma_text_le_transitive(a: Seq<char>, b: Seq<char>, c: Seq<char>)
    requires
        text_le_of(a, b),
        text_le_of(b, c),
    ensures
        text_le_of(a, c),
{
    lemma_text_order_equal(a, b);
    lemma_text_order_equal(b, c);
    if text_order(a, b) == Ordering::Less && text_order(b, c) == Ordering::Less {
        lemma_text_order_transitive(a, b, c, Ordering::Less);
    }
}

/// Whether `a` comes before `b` or is the same text.
pub fn text_le(a: &str, b: &str) -> (res: bool)
    ensures
        res == text_le_of(a@, b@),
{
    match compare_text(a, b) {
        Ordering::Greater => false,
        _ => true,
    }
}

/// Flags that say how the entries of a directory are ordered.
#[derive(Debug, Clone, Copy, PartialEq, Eq, Structural)]
pub struct Sorting {
    bits: u8,
}

impl Sorting {
    /// The flags as a number.
    pub closed spec fn bits_of(self) -> u8 {
        self.bits
    }

    /// No flag but the ones of `other` is missing from `self`.
    pub open spec fn holds(self, other: Sorting) -> bool {
        self.bits_of() & other.bits_of() == other.bits_of()
    }

    /// Entries keep the order in which they were found.
    pub fn none() -> (res: Sorting)
        ensures
            res.bits_of() == 1,
    {
        Sorting { bits: 1 }
    }

    /// Entries are ordered by their names, ignoring case.
    pub fn alphabetical() -> (res: Sorting)
        ensures
            res.bits_of() == 2,
    {
        Sorting { bits: 2 }
    }

    /// Directories come before all other entries.
    pub fn directories_first() -> (res: Sorting)
        ensures
            res.bits_of() == 4,
    {
        Sorting { bits: 4 }
    }

    /// No flag at all.
    pub fn empty() -> (res: Sorting)
        ensures
            res.bits_of() == 0,
    {
        Sorting { bits: 0 }
    }

    /// The flags given by a number; bits that name no flag are dropped.
    pub fn from_bits_truncate(bits: u8) -> (res: Sorting)
        ensures
            res.bits_of() == bits & 7,
    {
        Sorting { bits: bits & 7 }
    }

    /// The flags as a number.
    pub fn bits(&self) -> (res: u8)
        ensures
            res == self.bits_of(),
    {
        self.bits
    }

    /// The flags of both.
    pub fn union(self, other: Sorting) -> (res: Sorting)
        ensures
            res.bits_of() == self.bits_of() | other.bits_of(),
    {
        Sorting { bits: self.bits | other.bits }
    }

    /// Whether all flags of `other` are set in `self`.
    pub fn contains(&self, other: Sorting) -> (res: bool)
        ensures
            res == self.holds(other),
    {
        self.bits & other.bits == other.bits
    }

    /// The directories-first flag is set.
    pub open spec fn dirs_first(self) -> bool {
        self.bits_of() & 4 == 4
    }

    /// The alphabetical flag is set.
    pub open spec fn alpha(self) -> bool {
        self.bits_of() & 2 == 2
    }

    /// How `a` and `b` are ordered under these flags.
    pub open spec fn order_of(self, a: PassNode, b: PassNode) -> Ordering {
        if self.dirs_first() && a.kind_of() == EntryKind::Directory && b.kind_of()
            != EntryKind::Directory {
            Ordering::Less
        } else if self.dirs_first() && a.kind_of() != EntryKind::Directory && b.kind_of()
            == EntryKind::Directory {
            Ordering::Greater
        } else if self.alpha() {
            text_order(lowercase_of(a.name_of()), lowercase_of(b.name_of()))
        } else {
            Ordering::Equal
        }
    }

    /// The order of two entries of a directory: with the directories-first
    /// flag a directory comes before any other entry; then, with the
    /// alphabetical flag, the lowercased names decide; else they are equal.
    pub fn compare_nodes(&self, a: &PassNode, b: &PassNode) -> (res: Ordering)
        ensures
            res == self.order_of(*a, *b),
    {
        let sort_dirs = self.bits & 4 == 4;
        let sort_alpha = self.bits & 2 == 2;
        let a_dir = a.is_dir();
        let b_dir = b.is_dir();
        if sort_dirs && a_dir && !b_dir {
            Ordering::Less
        } else if sort_dirs && !a_dir && b_dir {
            Ordering::Greater
        } else if sort_alpha {
            let a_low = lowercase(a.name());
            let b_low = lowercase(b.name());
            compare_text(a_low.as_str(), b_low.as_str())
        } else {
            Ordering::Equal
        }
    }
}

/// Swapping two entries reverses their order, under any flags.
pub proof fn law_order_antisymmetric(sorting: Sorting, a: PassNode, b: PassNode)
    ensures
        sorting.order_of(b, a) == reversed(sorting.order_of(a, b)),
{
    lemma_text_order_antisymmetric(lowercase_of(a.name_of()), lowercase_of(b.name_of()));
}

/// With the alphabetical flag and without the directories-first flag, two
/// entries are ordered by their lowercased names, whatever their kinds.
pub proof fn law_alphabetical_ignores_kinds(sorting: Sorting, a: PassNode, b: PassNode)
    requires
        sorting.alpha(),
        !sorting.dirs_first(),
    ensures
        sorting.order_of(a, b) == text_order(lowercase_of(a.name_of()), lowercase_of(b.name_of())),
{
}

/// With both flags, entries of the same kind side (directories among
/// themselves, or the others among themselves) are ordered by their
/// lowercased names.
pub proof fn law_alphabetical_within_kind(sorting: Sorting, a: PassNode, b: PassNode)
    requires
        sorting.alpha(),
        (a.kind_of() == EntryKind::Directory) == (b.kind_of() == EntryKind::Directory),
    ensures
        sorting.order_of(a, b) == text_order(lowercase_of(a.name_of()), lowercase_of(b.name_of())),
{
}

/// With the directories-first flag, a directory comes before every entry
/// that is not a directory.
pub proof fn law_directories_first(sorting: Sorting, dir: PassNode, other: PassNode)
    requires
        sorting.dirs_first(),
        dir.kind_of() == EntryKind::Directory,
        other.kind_of() != EntryKind::Directory,
    ensures
        sorting.order_of(dir, other) == Ordering::Less,
        sorting.order_of(other, dir) == Ordering::Greater,
{
}

/// Without the alphabetical and directories-first flags, all entries are
/// equal, so a stable sort keeps the order in which they were found.
pub proof fn law_unsorted_all_equal(sorting: Sorting, a: PassNode, b: PassNode)
    requires
        !sorting.dirs_first(),
        !sorting.alpha(),
    ensures
        sorting.order_of(a, b) == Ordering::Equal,
{
}

/// The order is transitive.
pub proof fn law_order_transitive(
    sorting: Sorting,
    a: PassNode,
    b: PassNode,
    c: PassNode,
    o: Ordering,
)
    requires
        o != Ordering::Equal,
        sorting.order_of(a, b) == o,
        sorting.order_of(b, c) == o,
    ensures
        sorting.order_of(a, c) == o,
{
    let (la, lb, lc) = (
        lowercase_of(a.name_of()),
        lowercase_of(b.name_of()),
        lowercase_of(c.name_of()),
    );
    if sorting.alpha() {
        if text_order(la, lb) == o && text_order(lb, lc) == o {
            lemma_text_order_transitive(la, lb, lc, o);
        }
    }
}

} // verus!
