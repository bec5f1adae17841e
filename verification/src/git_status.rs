//! The bookkeeping around the store's git repository: how the status of
//! each file is sorted into staged changes, unstaged changes and
//! conflicts, which branches are reported, how a merge proceeds, and the
//! texts and choices that go with it.

use vstd::prelude::*;

use crate::text::{chars_of, same_text, substring};

verus! {

/// The kind of change of a file.
#[derive(Debug, Clone, Copy, PartialEq, Eq, Structural)]
pub enum GitStatus {
    New,
    Modified,
    Deleted,
    Renamed,
    Typechange,
}

/// A changed file and the kind of its change.
#[derive(Debug, Clone, PartialEq)]
pub struct GitStatusEntry {
    path: String,
    status: GitStatus,
}

impl GitStatusEntry {
    /// The path of the file.
    pub closed spec fn path_text(&self) -> Seq<char> {
        self.path@
    }

    /// The kind of change.
    pub closed spec fn status_of(&self) -> GitStatus {
        self.status
    }

    /// The path of the file, relative to the repository.
    pub fn path(&self) -> (res: &str)
        ensures
            res@ == self.path_text(),
    {
        self.path.as_str()
    }

    /// The kind of change.
    pub fn status(&self) -> (res: GitStatus)
        ensures
            res == self.status_of(),
    {
        self.status
    }
}

/// A local branch that differs from its upstream branch.
#[derive(Debug, Clone, PartialEq)]
pub struct BranchStatus {
    pub branch: String,
    pub commits_behind_remote: usize,
    pub commits_ahead_of_remote: usize,
}

/// The state of the repository: staged changes, unstaged changes, files in
/// conflict, and the branches that differ from their upstream.
#[derive(Debug, Clone, PartialEq)]
pub struct GitStatuses {
    pub staging: Vec<GitStatusEntry>,
    pub workdir: Vec<GitStatusEntry>,
    pub conflicts: Vec<String>,
    pub branches: Vec<BranchStatus>,
}

/// The remote that a push goes to.
#[derive(Debug)]
pub enum GitRemote {
    UpstreamForBranch,
    Manual(String),
}

/// The flags git reports for one file.
#[derive(Debug, Clone, Copy, PartialEq, Eq, Structural)]
pub struct StatusFlags {
    pub conflicted: bool,
    pub index_new: bool,
    pub index_modified: bool,
    pub index_deleted: bool,
    pub index_renamed: bool,
    pub index_typechange: bool,
    pub wt_new: bool,
    pub wt_modified: bool,
    pub wt_deleted: bool,
    pub wt_renamed: bool,
    pub wt_typechange: bool,
}

/// Where the status of a file is reported.
#[derive(Debug, Clone, Copy, PartialEq, Eq, Structural)]
pub enum StatusClass {
    Conflict,
    Staged(GitStatus),
    Unstaged(GitStatus),
    Unknown,
}

/// Where the status of a file is reported: a conflict comes first, then
/// the staged changes (deleted, modified, new, renamed, type changed, in
/// this order), then the unstaged ones in the same order.
pub open spec fn class_of(f: StatusFlags) -> StatusClass {
    if f.conflicted {
        StatusClass::Conflict
    } else if f.index_deleted {
        StatusClass::Staged(GitStatus::Deleted)
    } else if f.index_modified {
        StatusClass::Staged(GitStatus::Modified)
    } else if f.index_new {
        StatusClass::Staged(GitStatus::New)
    } else if f.index_renamed {
        StatusClass::Staged(GitStatus::Renamed)
    } else if f.index_typechange {
        StatusClass::Staged(GitStatus::Typechange)
    } else if f.wt_deleted {
        StatusClass::Unstaged(GitStatus::Deleted)
    } else if f.wt_modified {
        StatusClass::Unstaged(GitStatus::Modified)
    } else if f.wt_new {
        StatusClass::Unstaged(GitStatus::New)
    } else if f.wt_renamed {
        StatusClass::Unstaged(GitStatus::Renamed)
    } else if f.wt_typechange {
        StatusClass::Unstaged(GitStatus::Typechange)
    } else {
        StatusClass::Unknown
    }
}

/// Where the status of a file is reported.
pub fn classify(f: &StatusFlags) -> (res: StatusClass)
    ensures
        res == class_of(*f),
{
    if f.conflicted {
        StatusClass::Conflict
    } else if f.index_deleted {
        StatusClass::Staged(GitStatus::Deleted)
    } else if f.index_modified {
        StatusClass::Staged(GitStatus::Modified)
    } else if f.index_new {
        StatusClass::Staged(GitStatus::New)
    } else if f.index_renamed {
        StatusClass::Staged(GitStatus::Renamed)
    } else if f.index_typechange {
        StatusClass::Staged(GitStatus::Typechange)
    } else if f.wt_deleted {
        StatusClass::Unstaged(GitStatus::Deleted)
    } else if f.wt_modified {
        StatusClass::Unstaged(GitStatus::Modified)
    } else if f.wt_new {
        StatusClass::Unstaged(GitStatus::New)
    } else if f.wt_renamed {
        StatusClass::Unstaged(GitStatus::Renamed)
    } else if f.wt_typechange {
        StatusClass::Unstaged(GitStatus::Typechange)
    } else {
        StatusClass::Unknown
    }
}

/// The files with staged changes, in the order reported.
pub open spec fn staged_of(fs: Seq<(Seq<char>, StatusFlags)>) -> Seq<(Seq<char>, GitStatus)>
    decreases fs.len(),
{
    if fs.len() == 0 {
        Seq::empty()
    } else {
        let prev = staged_of(fs.drop_last());
        match class_of(fs.last().1) {
            StatusClass::Staged(s) => prev.push((fs.last().0, s)),
            _ => prev,
        }
    }
}

/// The files with unstaged changes, in the order reported.
pub open spec fn unstaged_of(fs: Seq<(Seq<char>, StatusFlags)>) -> Seq<(Seq<char>, GitStatus)>
    decreases fs.len(),
{
    if fs.len() == 0 {
        Seq::empty()
    } else {
        let prev = unstaged_of(fs.drop_last());
        match class_of(fs.last().1) {
            StatusClass::Unstaged(s) => prev.push((fs.last().0, s)),
            _ => prev,
        }
    }
}

/// The files in conflict, in the order reported.
pub open spec fn conflicts_of(fs: Seq<(Seq<char>, StatusFlags)>) -> Seq<Seq<char>>
    decreases fs.len(),
{
    if fs.len() == 0 {
        Seq::empty()
    } else {
        let prev = conflicts_of(fs.drop_last());
        match class_of(fs.last().1) {
            StatusClass::Conflict => prev.push(fs.last().0),
            _ => prev,
        }
    }
}

/// Reported files as texts and flags.
pub open spec fn reported_view(fs: Seq<(String, StatusFlags)>) -> Seq<(Seq<char>, StatusFlags)> {
    fs.map_values(|f: (String, StatusFlags)| (f.0@, f.1))
}

/// Status entries as texts and kinds.
pub open spec fn entries_view(es: Seq<GitStatusEntry>) -> Seq<(Seq<char>, GitStatus)> {
    es.map_values(|e: GitStatusEntry| (e.path_text(), e.status_of()))
}

/// Every reported file has a change git reports.
pub open spec fn all_known(fs: Seq<(Seq<char>, StatusFlags)>) -> bool {
    forall|i: int| 0 <= i < fs.len() ==> !(class_of(#[trigger] fs[i].1) is Unknown)
}

/// Texts of strings.
pub open spec fn texts(v: Seq<String>) -> Seq<Seq<char>> {
    v.map_values(|s: String| s@)
}

/// Every file git reports with a known change is listed exactly once: as
/// a staged change, an unstaged change or a conflict. So the repository is
/// clean exactly when no file is reported.
pub proof fn law_every_file_reported_once(fs: Seq<(Seq<char>, StatusFlags)>)
    requires
        all_known(fs),
    ensures
        staged_of(fs).len() + unstaged_of(fs).len() + conflicts_of(fs).len() == fs.len(),
        (staged_of(fs).len() == 0 && unstaged_of(fs).len() == 0 && conflicts_of(fs).len() == 0)
            <==> fs.len() == 0,
    decreases fs.len(),
{
    if fs.len() > 0 {
        let pre = fs.drop_last();
        assert forall|i: int| 0 <= i < pre.len() implies !(class_of(#[trigger] pre[i].1) is Unknown) by {
            assert(pre[i] == fs[i]);
        }
        law_every_file_reported_once(pre);
        assert(!(class_of(fs[fs.len() - 1].1) is Unknown));
    }
}

/// A conflict is reported as a conflict, whatever else the flags say.
pub proof fn law_conflicts_first(f: StatusFlags)
    requires
        f.conflicted,
    ensures
        class_of(f) == StatusClass::Conflict,
{
}

/// A file with a change in the index and no conflict is reported as a
/// staged change, and the kind reported is one whose index flag is set,
/// taken in the order deleted, modified, new, renamed, type changed.
pub proof fn law_index_changes_are_staged(f: StatusFlags)
    requires
        !f.conflicted,
        f.index_new || f.index_modified || f.index_deleted || f.index_renamed
            || f.index_typechange,
    ensures
        class_of(f) is Staged,
        class_of(f) == StatusClass::Staged(GitStatus::Deleted) ==> f.index_deleted,
        class_of(f) == StatusClass::Staged(GitStatus::Modified) ==> f.index_modified
            && !f.index_deleted,
        class_of(f) == StatusClass::Staged(GitStatus::New) ==> f.index_new && !f.index_deleted
            && !f.index_modified,
        class_of(f) == StatusClass::Staged(GitStatus::Renamed) ==> f.index_renamed
            && !f.index_deleted && !f.index_modified && !f.index_new,
        class_of(f) == StatusClass::Staged(GitStatus::Typechange) ==> f.index_typechange
            && !f.index_deleted && !f.index_modified && !f.index_new && !f.index_renamed,
        f.index_deleted ==> class_of(f) == StatusClass::Staged(GitStatus::Deleted),
        f.index_modified && !f.index_deleted ==> class_of(f) == StatusClass::Staged(
            GitStatus::Modified,
        ),
{
}

/// A file changed only in the work directory is reported as an unstaged
/// change, of a kind whose work-directory flag is set.
pub proof fn law_worktree_changes_are_unstaged(f: StatusFlags)
    requires
        !f.conflicted,
        !(f.index_new || f.index_modified || f.index_deleted || f.index_renamed
            || f.index_typechange),
        f.wt_new || f.wt_modified || f.wt_deleted || f.wt_renamed || f.wt_typechange,
    ensures
        class_of(f) is Unstaged,
        class_of(f) == StatusClass::Unstaged(GitStatus::Deleted) ==> f.wt_deleted,
        class_of(f) == StatusClass::Unstaged(GitStatus::Modified) ==> f.wt_modified,
        class_of(f) == StatusClass::Unstaged(GitStatus::New) ==> f.wt_new,
        class_of(f) == StatusClass::Unstaged(GitStatus::Renamed) ==> f.wt_renamed,
        class_of(f) == StatusClass::Unstaged(GitStatus::Typechange) ==> f.wt_typechange,
        f.wt_deleted ==> class_of(f) == StatusClass::Unstaged(GitStatus::Deleted),
{
}

/// A single reported file with a staged modification, and nothing else
/// in the index, is listed among the staged changes as modified, and
/// nowhere else.
pub proof fn law_staged_modification_listed(path: Seq<char>, f: StatusFlags)
    requires
        !f.conflicted,
        f.index_modified,
        !f.index_deleted,
    ensures
        staged_of(seq![(path, f)]) == seq![(path, GitStatus::Modified)],
        unstaged_of(seq![(path, f)]).len() == 0,
        conflicts_of(seq![(path, f)]).len() == 0,
{
    let fs = seq![(path, f)];
    let e = Seq::<(Seq<char>, StatusFlags)>::empty();
    assert(fs.drop_last() =~= e);
    assert(fs.last() == (path, f));
    assert(staged_of(e) =~= Seq::<(Seq<char>, GitStatus)>::empty());
    assert(unstaged_of(e) =~= Seq::<(Seq<char>, GitStatus)>::empty());
    assert(conflicts_of(e) =~= Seq::<Seq<char>>::empty());
    assert(class_of(f) == StatusClass::Staged(GitStatus::Modified));
    assert(staged_of(fs) =~= seq![(path, GitStatus::Modified)]);
}

impl GitStatuses {
    /// The state of the repository from the status of each reported file
    /// and the branches that differ from their upstream.
    pub fn new_from(branches: Vec<BranchStatus>, statuses: Vec<(String, StatusFlags)>) -> (res:
        Self)
        requires
            all_known(reported_view(statuses@)),
        ensures
            entries_view(res.staging@) == staged_of(reported_view(statuses@)),
            entries_view(res.workdir@) == unstaged_of(reported_view(statuses@)),
            texts(res.conflicts@) == conflicts_of(reported_view(statuses@)),
            res.branches@ == branches@,
    {
        let mut staging: Vec<GitStatusEntry> = Vec::new();
        let mut workdir: Vec<GitStatusEntry> = Vec::new();
        let mut conflicts: Vec<String> = Vec::new();
        let ghost fs = reported_view(statuses@);
        let n = statuses.len();
        let mut i: usize = 0;
        while i < n
            invariant
                n == statuses@.len(),
                fs == reported_view(statuses@),
                all_known(fs),
                i <= n,
                entries_view(staging@) == staged_of(fs.subrange(0, i as int)),
                entries_view(workdir@) == unstaged_of(fs.subrange(0, i as int)),
                texts(conflicts@) == conflicts_of(fs.subrange(0, i as int)),
            decreases n - i,
        {
            let path = statuses[i].0.clone();
            let class = classify(&statuses[i].1);
            let ghost pre = fs.subrange(0, i as int);
            assert(fs.subrange(0, i + 1).drop_last() =~= pre);
            assert(fs.subrange(0, i + 1).last() == fs[i as int]);
            assert(!(class_of(fs[i as int].1) is Unknown));
            match class {
                StatusClass::Conflict => {
                    proof {
                        assert(texts(conflicts@.push(path)) =~= texts(conflicts@).push(path@));
                    }
                    conflicts.push(path);
                },
                StatusClass::Staged(status) => {
                    let e = GitStatusEntry { path, status };
                    proof {
                        assert(entries_view(staging@.push(e)) =~= entries_view(staging@).push(
                            (e.path_text(), e.status_of()),
                        ));
                    }
                    staging.push(e);
                },
                StatusClass::Unstaged(status) => {
                    let e = GitStatusEntry { path, status };
                    proof {
                        assert(entries_view(workdir@.push(e)) =~= entries_view(workdir@).push(
                            (e.path_text(), e.status_of()),
                        ));
                    }
                    workdir.push(e);
                },
                StatusClass::Unknown => {},
            }
            i = i + 1;
        }
        assert(fs.subrange(0, n as int) =~= fs);
        GitStatuses { staging, workdir, conflicts, branches }
    }

    /// No staged changes, no unstaged changes and no conflicts.
    pub fn is_clean(&self) -> (res: bool)
        ensures
            res == (self.staging@.len() == 0 && self.workdir@.len() == 0 && self.conflicts@.len()
                == 0),
    {
        self.staging.len() == 0 && self.workdir.len() == 0 && self.conflicts.len() == 0
    }
}

/// The report of a local branch, which is made only where it differs from
/// its upstream branch.
pub fn branch_status(branch: String, commits_behind_remote: usize, commits_ahead_of_remote: usize) -> (res:
    Option<BranchStatus>)
    ensures
        match res {
            Some(b) => (commits_behind_remote > 0 || commits_ahead_of_remote > 0) && b.branch@
                == branch@ && b.commits_behind_remote == commits_behind_remote
                && b.commits_ahead_of_remote == commits_ahead_of_remote,
            None => commits_behind_remote == 0 && commits_ahead_of_remote == 0,
        },
{
    if commits_behind_remote > 0 || commits_ahead_of_remote > 0 {
        Some(BranchStatus { branch, commits_behind_remote, commits_ahead_of_remote })
    } else {
        None
    }
}

/// What git's merge analysis says is possible.
#[derive(Debug, Clone, Copy, PartialEq, Eq, Structural)]
pub struct MergeFlags {
    pub none: bool,
    pub normal: bool,
    pub up_to_date: bool,
    pub fast_forward: bool,
    pub unborn: bool,
}

/// How a merge with the upstream branch proceeds.
#[derive(Debug, Clone, Copy, PartialEq, Eq, Structural)]
pub enum MergeStep {
    UpToDate,
    FastForward,
    Normal,
    SetHead,
}

/// Why a merge is refused.
#[derive(Debug, Clone, Copy, PartialEq, Eq, Structural)]
pub enum MergeRefusal {
    NotClean,
    NotPossible,
}

impl MergeRefusal {
    /// The message of the refusal.
    pub fn message(&self) -> (res: &'static str)
        ensures
            res@ == match self {
                MergeRefusal::NotClean => "Repository status is not clean"@,
                MergeRefusal::NotPossible => "Merge is not possible"@,
            },
    {
        match self {
            MergeRefusal::NotClean => "Repository status is not clean",
            MergeRefusal::NotPossible => "Merge is not possible",
        }
    }
}

/// The analysis names some way to proceed.
pub open spec fn merge_decidable(a: MergeFlags) -> bool {
    a.none || a.up_to_date || a.fast_forward || a.normal || a.unborn
}

/// How a merge proceeds: a repository that is not clean is refused, then
/// the analysis decides, its flags taken in the order none, up to date,
/// fast forward, normal, unborn.
pub open spec fn merge_step_of(clean: bool, a: MergeFlags) -> Result<MergeStep, MergeRefusal> {
    if !clean {
        Err(MergeRefusal::NotClean)
    } else if a.none {
        Err(MergeRefusal::NotPossible)
    } else if a.up_to_date {
        Ok(MergeStep::UpToDate)
    } else if a.fast_forward {
        Ok(MergeStep::FastForward)
    } else if a.normal {
        Ok(MergeStep::Normal)
    } else {
        Ok(MergeStep::SetHead)
    }
}

/// How a merge with the upstream branch proceeds.
pub fn merge_step(clean: bool, analysis: MergeFlags) -> (res: Result<MergeStep, MergeRefusal>)
    requires
        !clean || merge_decidable(analysis),
    ensures
        res == merge_step_of(clean, analysis),
{
    if !clean {
        Err(MergeRefusal::NotClean)
    } else if analysis.none {
        Err(MergeRefusal::NotPossible)
    } else if analysis.up_to_date {
        Ok(MergeStep::UpToDate)
    } else if analysis.fast_forward {
        Ok(MergeStep::FastForward)
    } else if analysis.normal {
        Ok(MergeStep::Normal)
    } else {
        Ok(MergeStep::SetHead)
    }
}

/// `s` with every leading repetition of `prefix` removed.
pub open spec fn trimmed_start_of(s: Seq<char>, prefix: Seq<char>) -> Seq<char>
    decreases s.len(),
{
    if prefix.len() > 0 && prefix.len() <= s.len() && s.subrange(0, prefix.len() as int)
        == prefix {
        trimmed_start_of(s.subrange(prefix.len() as int, s.len() as int), prefix)
    } else {
        s
    }
}

/// Whether `p` occurs in `cs` at `at`.
fn matches_at(cs: &Vec<char>, at: usize, p: &Vec<char>) -> (res: bool)
    requires
        at + p@.len() <= cs@.len(),
    ensures
        res == (cs@.subrange(at as int, at + p@.len()) == p@),
{
    let m = p.len();
    let total = cs.len();
    let mut j: usize = 0;
    while j < m
        invariant
            m == p@.len(),
            total == cs@.len(),
            at + m <= cs@.len(),
            j <= m,
            forall|k: int| 0 <= k < j ==> cs@[at + k] == p@[k],
        decreases m - j,
    {
        if cs[at + j] != p[j] {
            assert(cs@.subrange(at as int, at + m)[j as int] != p@[j as int]);
            return false;
        }
        j = j + 1;
    }
    assert(cs@.subrange(at as int, at + m) =~= p@);
    true
}

/// `s` with every leading repetition of `prefix` removed.
pub fn trim_start_matches(s: &str, prefix: &str) -> (res: String)
    ensures
        res@ == trimmed_start_of(s@, prefix@),
{
    let cs = chars_of(s);
    let ps = chars_of(prefix);
    let n = cs.len();
    let m = ps.len();
    let mut i: usize = 0;
    assert(s@.subrange(0, n as int) =~= s@);
    loop
        invariant_except_break
            n == s@.len(),
            m == prefix@.len(),
            cs@ == s@,
            ps@ == prefix@,
            i <= n,
            trimmed_start_of(s@.subrange(i as int, n as int), prefix@) == trimmed_start_of(
                s@,
                prefix@,
            ),
        ensures
            i <= n,
            n == s@.len(),
            s@.subrange(i as int, n as int) == trimmed_start_of(s@, prefix@),
        decreases n - i,
    {
        let ghost rest = s@.subrange(i as int, n as int);
        if m == 0 || m > n - i {
            assert(trimmed_start_of(rest, prefix@) == rest);
            break ;
        }
        let hit = matches_at(&cs, i, &ps);
        assert(rest.subrange(0, m as int) =~= cs@.subrange(i as int, i + m));
        if !hit {
            assert(trimmed_start_of(rest, prefix@) == rest);
            break ;
        }
        assert(rest.subrange(m as int, rest.len() as int) =~= s@.subrange(i + m, n as int));
        i = i + m;
    }
    substring(s, i, n)
}

/// The message of a merge commit, named by the branches without their
/// `refs/remotes/` and `refs/heads/` prefixes.
pub open spec fn merge_message_of(remote: Seq<char>, local: Seq<char>) -> Seq<char> {
    "Merge "@ + trimmed_start_of(remote, "refs/remotes/"@) + " into "@ + trimmed_start_of(
        local,
        "refs/heads/"@,
    )
}

/// The message of the commit that merges `remote` into `local`.
pub fn merge_message(remote: &str, local: &str) -> (res: String)
    ensures
        res@ == merge_message_of(remote@, local@),
{
    let r = trim_start_matches(remote, "refs/remotes/");
    let l = trim_start_matches(local, "refs/heads/");
    let mut m = String::new();
    m.append("Merge ");
    m.append(r.as_str());
    m.append(" into ");
    m.append(l.as_str());
    m
}

/// A file that is added to the index whatever the ignore rules say: a
/// password or a `.gpg-id` file.
pub open spec fn force_added_of(name: Seq<char>) -> bool {
    (name.len() >= 4 && name.subrange(name.len() - 4, name.len() as int) == ".gpg"@) || name
        == ".gpg-id"@
}

/// Whether the file named `name` is added to the index whatever the
/// ignore rules say.
pub fn force_added(name: &str) -> (res: bool)
    ensures
        res == force_added_of(name@),
{
    proof {
        reveal_strlit(".gpg");
        reveal_strlit(".gpg-id");
    }
    let cs = chars_of(name);
    let suffix = chars_of(".gpg");
    let exact = chars_of(".gpg-id");
    let n = cs.len();
    let ends = n >= 4 && matches_at(&cs, n - 4, &suffix);
    let whole = n == 7 && matches_at(&cs, 0, &exact);
    proof {
        if n == 7 {
            assert(cs@.subrange(0, 7) =~= cs@);
        }
        if whole {
            assert(name@ =~= ".gpg-id"@);
        }
        if name@ == ".gpg-id"@ {
            assert(n == 7);
            assert(cs@.subrange(0, 7) =~= cs@);
        }
    }
    ends || whole
}

/// The configuration names a user: it has both `user.email` and
/// `user.name`.
pub open spec fn has_user_identity_of(names: Seq<Seq<char>>) -> bool {
    names.contains("user.email"@) && names.contains("user.name"@)
}

/// Whether the configuration entries named `names` name a user.
pub fn has_user_identity(names: &Vec<String>) -> (res: bool)
    ensures
        res == has_user_identity_of(texts(names@)),
{
    let mut email = false;
    let mut name = false;
    let mut i: usize = 0;
    while i < names.len()
        invariant
            i <= names@.len(),
            email == texts(names@).subrange(0, i as int).contains("user.email"@),
            name == texts(names@).subrange(0, i as int).contains("user.name"@),
        decreases names@.len() - i,
    {
        let ghost pre = texts(names@).subrange(0, i as int);
        assert(texts(names@).subrange(0, i + 1) =~= pre.push(names@[i as int]@));
        proof {
            vstd::seq_lib::lemma_seq_contains_after_push(pre, names@[i as int]@, "user.email"@);
            vstd::seq_lib::lemma_seq_contains_after_push(pre, names@[i as int]@, "user.name"@);
        }
        if same_text(names[i].as_str(), "user.email") {
            email = true;
        }
        if same_text(names[i].as_str(), "user.name") {
            name = true;
        }
        i = i + 1;
    }
    assert(texts(names@).subrange(0, names@.len() as int) =~= texts(names@));
    email && name
}

} // verus!
