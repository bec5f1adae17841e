use pass::conflicted_password::PasswordChange;
use pass::conflicts::{
    conflict_candidates, conflict_kind, first_present, resolved_gpg_id_content, ConflictKind,
    ConflictState,
};
use pass::git_status::{
    branch_status, classify, force_added, has_user_identity, merge_message, merge_step,
    trim_start_matches, MergeFlags, MergeRefusal, MergeStep, StatusClass, StatusFlags,
};
use pass::{ConflictedDecryptedPassword, GitStatus, GitStatuses};

fn flags() -> StatusFlags {
    StatusFlags {
        conflicted: false,
        index_new: false,
        index_modified: false,
        index_deleted: false,
        index_renamed: false,
        index_typechange: false,
        wt_new: false,
        wt_modified: false,
        wt_deleted: false,
        wt_renamed: false,
        wt_typechange: false,
    }
}

#[test]
fn status_classes_follow_priority() {
    assert_eq!(classify(&StatusFlags { conflicted: true, index_new: true, ..flags() }), StatusClass::Conflict);
    assert_eq!(
        classify(&StatusFlags { index_deleted: true, index_modified: true, ..flags() }),
        StatusClass::Staged(GitStatus::Deleted)
    );
    assert_eq!(
        classify(&StatusFlags { index_new: true, wt_modified: true, ..flags() }),
        StatusClass::Staged(GitStatus::New)
    );
    assert_eq!(classify(&StatusFlags { wt_new: true, ..flags() }), StatusClass::Unstaged(GitStatus::New));
    assert_eq!(
        classify(&StatusFlags { wt_typechange: true, ..flags() }),
        StatusClass::Unstaged(GitStatus::Typechange)
    );
    assert_eq!(classify(&flags()), StatusClass::Unknown);
}

#[test]
fn statuses_are_sorted_into_lists() {
    let statuses = vec![
        ("a.gpg".to_string(), StatusFlags { index_new: true, ..flags() }),
        ("b.gpg".to_string(), StatusFlags { wt_modified: true, ..flags() }),
        ("c.gpg".to_string(), StatusFlags { conflicted: true, ..flags() }),
        ("d.gpg".to_string(), StatusFlags { index_renamed: true, ..flags() }),
    ];
    let s = GitStatuses::new_from(Vec::new(), statuses);
    assert_eq!(s.staging.len(), 2);
    assert_eq!(s.staging[0].path(), "a.gpg");
    assert_eq!(s.staging[0].status(), GitStatus::New);
    assert_eq!(s.staging[1].path(), "d.gpg");
    assert_eq!(s.staging[1].status(), GitStatus::Renamed);
    assert_eq!(s.workdir.len(), 1);
    assert_eq!(s.workdir[0].status(), GitStatus::Modified);
    assert_eq!(s.conflicts, vec!["c.gpg".to_string()]);
    assert!(!s.is_clean());
    assert!(GitStatuses::new_from(Vec::new(), Vec::new()).is_clean());
}

#[test]
fn branches_are_reported_when_they_differ() {
    assert!(branch_status("main".to_string(), 0, 0).is_none());
    let b = branch_status("main".to_string(), 2, 1).unwrap();
    assert_eq!(b.branch, "main");
    assert_eq!(b.commits_behind_remote, 2);
    assert_eq!(b.commits_ahead_of_remote, 1);
}

#[test]
fn merge_steps() {
    let none = MergeFlags { none: false, normal: false, up_to_date: false, fast_forward: false, unborn: false };
    assert_eq!(merge_step(false, none), Err(MergeRefusal::NotClean));
    assert_eq!(merge_step(true, MergeFlags { none: true, ..none }), Err(MergeRefusal::NotPossible));
    assert_eq!(merge_step(true, MergeFlags { up_to_date: true, normal: true, ..none }), Ok(MergeStep::UpToDate));
    assert_eq!(merge_step(true, MergeFlags { fast_forward: true, normal: true, ..none }), Ok(MergeStep::FastForward));
    assert_eq!(merge_step(true, MergeFlags { normal: true, ..none }), Ok(MergeStep::Normal));
    assert_eq!(merge_step(true, MergeFlags { unborn: true, ..none }), Ok(MergeStep::SetHead));
    assert_eq!(MergeRefusal::NotClean.message(), "Repository status is not clean");
    assert_eq!(MergeRefusal::NotPossible.message(), "Merge is not possible");
}

#[test]
fn merge_message_strips_ref_prefixes() {
    assert_eq!(merge_message("refs/remotes/origin/main", "refs/heads/main"), "Merge origin/main into main");
    assert_eq!(trim_start_matches("abab-x", "ab"), "-x");
    assert_eq!(trim_start_matches("x", ""), "x");
}

#[test]
fn passwords_and_gpg_ids_are_force_added() {
    assert!(force_added("Phone.gpg"));
    assert!(force_added(".gpg-id"));
    assert!(!force_added("notes.txt"));
    assert!(!force_added("gpg"));
}

#[test]
fn user_identity_needs_name_and_email() {
    let both = vec!["core.bare".to_string(), "user.email".to_string(), "user.name".to_string()];
    assert!(has_user_identity(&both));
    assert!(!has_user_identity(&vec!["user.name".to_string()]));
}

#[test]
fn conflicts_are_classified() {
    let pw = vec!["a.gpg".to_string(), "a.gpg".to_string()];
    assert_eq!(conflict_candidates(&pw), (true, false));
    assert_eq!(conflict_kind(&pw, true, false, false), ConflictKind::Password);
    assert_eq!(conflict_kind(&pw, false, false, true), ConflictKind::PlainText);
    let ids = vec!["sub/.gpg-id".to_string(), "x/y.gpg-id".to_string()];
    assert_eq!(conflict_candidates(&ids), (false, true));
    assert_eq!(conflict_kind(&ids, true, true, true), ConflictKind::GpgId);
    assert_eq!(conflict_kind(&ids, true, false, true), ConflictKind::PlainText);
    assert_eq!(conflict_kind(&vec!["img.png".to_string()], true, true, false), ConflictKind::Binary);
}

#[test]
fn gpg_id_files_of_the_store_are_gpg_id_conflicts() {
    let root = vec![".gpg-id".to_string(), ".gpg-id".to_string(), ".gpg-id".to_string()];
    assert_eq!(conflict_candidates(&root), (false, true));
    assert_eq!(conflict_kind(&root, false, true, true), ConflictKind::GpgId);
    let sub = vec!["work/.gpg-id".to_string(), "work/.gpg-id".to_string()];
    assert_eq!(conflict_kind(&sub, false, true, true), ConflictKind::GpgId);
    assert!(pass::conflicts::gpg_id_path("/store/.gpg-id"));
    assert!(!pass::conflicts::gpg_id_path("/store/x.gpg-idx"));
    assert!(!pass::conflicts::gpg_id_path("/store/.gpg-id/x"));
}

#[test]
fn conflict_entry_prefers_ours_then_ancestor() {
    assert_eq!(first_present(Some(1), Some(2), Some(3)), Some(1));
    assert_eq!(first_present(None, Some(2), Some(3)), Some(2));
    assert_eq!(first_present(None, None, Some(3)), Some(3));
    assert_eq!(first_present::<i32>(None, None, None), None);
}

#[test]
fn conflict_is_resolved_once() {
    let mut s = ConflictState::new();
    assert!(!s.is_resolved());
    assert_eq!(s.check_resolvable(), Ok(()));
    s.mark_resolved();
    assert!(s.is_resolved());
    assert_eq!(s.check_resolvable(), Err("Merge conflict already resolved"));
}

#[test]
fn resolved_gpg_ids_are_one_per_line() {
    assert_eq!(resolved_gpg_id_content(&vec!["A".to_string(), "B".to_string()]), "A\nB");
    assert_eq!(resolved_gpg_id_content(&Vec::new()), "");
}

#[test]
fn conflicting_versions_are_compared_line_by_line() {
    let mine = ConflictedDecryptedPassword::from_content("a\nb\nc\n", Vec::new(), "p.gpg".to_string());
    let theirs = ConflictedDecryptedPassword::from_content("a\nx\nc\n", Vec::new(), "p.gpg".to_string());
    let changes = mine.diff(&theirs);
    assert_eq!(changes.len(), 3);
    match &changes[0] {
        PasswordChange::Equal(ls) => {
            assert_eq!(ls.len(), 1);
            assert_eq!((ls[0].content, ls[0].my_linum, ls[0].other_linum), ("a", 0, 0));
        }
        other => panic!("unexpected {:?}", other),
    }
    match &changes[1] {
        PasswordChange::Replace { my_lines, other_lines } => {
            assert_eq!((my_lines[0].content, my_lines[0].my_linum, my_lines[0].other_linum), ("b", 1, 1));
            assert_eq!((other_lines[0].content, other_lines[0].my_linum, other_lines[0].other_linum), ("x", 1, 1));
        }
        other => panic!("unexpected {:?}", other),
    }
    match &changes[2] {
        PasswordChange::Equal(ls) => assert_eq!((ls[0].content, ls[0].my_linum, ls[0].other_linum), ("c", 2, 2)),
        other => panic!("unexpected {:?}", other),
    }
}

#[test]
fn diff_of_insertions_and_deletions() {
    let mine = ConflictedDecryptedPassword::from_content("a\nb\n", Vec::new(), "p.gpg".to_string());
    let theirs = ConflictedDecryptedPassword::from_content("a\nb\nc\n", Vec::new(), "p.gpg".to_string());
    let changes = mine.diff(&theirs);
    match changes.last().unwrap() {
        PasswordChange::Insert(ls) => assert_eq!((ls[0].content, ls[0].my_linum, ls[0].other_linum), ("c", 2, 2)),
        other => panic!("unexpected {:?}", other),
    }
    let back = theirs.diff(&mine);
    match back.last().unwrap() {
        PasswordChange::Delete(ls) => assert_eq!((ls[0].content, ls[0].my_linum, ls[0].other_linum), ("c", 2, 2)),
        other => panic!("unexpected {:?}", other),
    }
}

#[test]
fn conflicted_password_edits_and_parsing() {
    let mut v = ConflictedDecryptedPassword::from_content("pw\nuser: a\n", vec!["KEY".to_string()], "p.gpg".to_string());
    assert_eq!(v.passphrase(), Some("pw"));
    v.set_passphrase("new".to_string());
    v.append_line("note".to_string());
    v.prepend_line("first".to_string());
    assert_eq!(v.lines(), vec!["new", "first", "user: a", "note"]);
    assert_eq!(v.replace_line(9, "tail".to_string()), None);
    assert_eq!(v.remove_line(4), "tail");
    assert_eq!(v.content(), "new\nfirst\nuser: a\nnote\n");
    let p = v.parsed().unwrap();
    assert_eq!(p.passphrase(), Some("new"));
    assert_eq!(p.lines().len(), 3);
}
