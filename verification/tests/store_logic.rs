use pass::listing::{listed_node, order_listing};
use pass::options::store_path;
use pass::search::password_matches;
use pass::sorting::{compare_text, text_le};
use pass::store_edits::{
    check_encryption, gpg_id_content, gpg_id_update, gpg_ids_removed_message, gpg_ids_set_message,
    plan_rename, reencrypt_message, removal_message, GpgIdUpdate,
};
use pass::text::lines_of;
use pass::{
    DecryptedPassword, DirectoryInserter, EntryKind, Location, MatchedEntries, PassNode,
    PasswordInserter, Sorting, StoreError,
};
use std::cmp::Ordering;

fn node(kind: EntryKind, name: &str, path: &str) -> PassNode {
    match kind {
        EntryKind::Directory => PassNode::Directory { name: name.to_string(), path: path.to_string() },
        EntryKind::Password => PassNode::Password { name: name.to_string(), path: path.to_string() },
        EntryKind::NormalFile => PassNode::NormalFile { name: name.to_string(), path: path.to_string() },
    }
}

#[test]
fn listed_files_become_entries() {
    let d = listed_node("/s/Manufacturers".to_string(), true).unwrap();
    assert_eq!((d.kind(), d.name(), d.path()), (EntryKind::Directory, "Manufacturers", "/s/Manufacturers"));
    let p = listed_node("/s/Phone.gpg".to_string(), false).unwrap();
    assert_eq!((p.kind(), p.name()), (EntryKind::Password, "Phone"));
    let f = listed_node("/s/notes.txt".to_string(), false).unwrap();
    assert_eq!((f.kind(), f.name()), (EntryKind::NormalFile, "notes.txt"));
    assert!(listed_node("/s/.git".to_string(), true).is_none());
    assert!(listed_node("/s/.gpg-id".to_string(), false).is_none());
    assert!(listed_node("/s/.gitattributes".to_string(), false).is_none());
}

#[test]
fn listing_puts_directories_first_then_paths_in_order() {
    let entries = vec![
        ("/s/Phone.gpg".to_string(), true),
        ("/s/Manufacturers".to_string(), false),
        ("/s/Aardvark.gpg".to_string(), true),
        ("/s/Entertainment".to_string(), false),
    ];
    let ordered = order_listing(entries);
    let paths: Vec<&str> = ordered.iter().map(|(p, _)| p.as_str()).collect();
    assert_eq!(paths, vec!["/s/Entertainment", "/s/Manufacturers", "/s/Aardvark.gpg", "/s/Phone.gpg"]);
}

#[test]
fn text_order_is_by_characters() {
    assert_eq!(compare_text("a", "b"), Ordering::Less);
    assert_eq!(compare_text("ab", "a"), Ordering::Greater);
    assert_eq!(compare_text("Z", "a"), Ordering::Less);
    assert_eq!(compare_text("same", "same"), Ordering::Equal);
    assert!(text_le("a", "a"));
    assert!(!text_le("b", "a"));
}

#[test]
fn sorting_directories_first_and_alphabetical() {
    let s = Sorting::alphabetical().union(Sorting::directories_first());
    let dir = node(EntryKind::Directory, "zeta", "/s/zeta");
    let pw = node(EntryKind::Password, "Alpha", "/s/Alpha.gpg");
    let pw2 = node(EntryKind::Password, "beta", "/s/beta.gpg");
    assert_eq!(s.compare_nodes(&dir, &pw), Ordering::Less);
    assert_eq!(s.compare_nodes(&pw, &dir), Ordering::Greater);
    assert_eq!(s.compare_nodes(&pw, &pw2), Ordering::Less);
    assert_eq!(Sorting::alphabetical().compare_nodes(&dir, &pw), Ordering::Greater);
    assert_eq!(Sorting::none().compare_nodes(&dir, &pw), Ordering::Equal);
    assert!(s.contains(Sorting::directories_first()));
    assert!(!s.contains(Sorting::none()));
    assert_eq!(Sorting::from_bits_truncate(0xff).bits(), 7);
}

#[test]
fn matched_entries_yield_matches_in_order() {
    let entries = vec![
        node(EntryKind::Directory, "Manufacturers", "/s/Manufacturers"),
        node(EntryKind::Password, "Sokor", "/s/Manufacturers/Sokor.gpg"),
        node(EntryKind::Password, "Phone", "/s/Phone.gpg"),
        node(EntryKind::Password, "StrutCo", "/s/Manufacturers/StrutCo.gpg"),
    ];
    let mut m = MatchedEntries::new("manu".to_string(), entries);
    assert_eq!(m.next().unwrap().path(), "/s/Manufacturers");
    assert_eq!(m.next().unwrap().name(), "Sokor");
    assert_eq!(m.next().unwrap().name(), "StrutCo");
    assert!(m.next().is_none());
    assert!(m.next().is_none());
}

#[test]
fn grep_looks_at_passphrase_comments_and_entries() {
    let p = DecryptedPassword::from_content("Hunter2\nuser: Alice\nA Note\n", "/s/p.gpg".to_string())
        .parsed()
        .unwrap();
    assert!(password_matches("hunter", &p));
    assert!(password_matches("alice", &p));
    assert!(password_matches("USER", &p));
    assert!(password_matches("note", &p));
    assert!(!password_matches("bob", &p));
}

#[test]
fn rename_keeps_password_extension() {
    let plan = plan_rename("/s/Manufacturers/Sokor.gpg", "/s", "Yoyodyne", EntryKind::Password).unwrap();
    assert_eq!(plan.new_path, "/s/Manufacturers/Yoyodyne.gpg");
    assert_eq!(plan.new_name, "Yoyodyne");
    assert_eq!(plan.message.unwrap(), "Rename 'Manufacturers/Sokor' to 'Manufacturers/Yoyodyne'.");
    let dir = plan_rename("/s/Entertainment", "/s", "Fun", EntryKind::Directory).unwrap();
    assert_eq!(dir.new_path, "/s/Fun");
    assert_eq!(dir.new_name, "Fun");
    let slashed = plan_rename("/s/Entertainment/", "/s", "Fun/", EntryKind::Directory).unwrap();
    assert_eq!(slashed.new_path, "/s/Fun");
    assert_eq!(slashed.new_name, "Fun");
    let dotted = plan_rename("/s/a.gpg", "/s", "b.txt", EntryKind::Password).unwrap();
    assert_eq!(dotted.new_path, "/s/b.gpg");
    assert_eq!(dotted.new_name, "b");
}

#[test]
fn renaming_the_root_is_refused() {
    match plan_rename("/s", "/s", "x", EntryKind::Directory) {
        Err(StoreError::Io(ctx, msg)) => {
            assert_eq!(ctx, "Attempted to rename store's root directory");
            assert_eq!(msg, "Cannot rename store's root directory");
        }
        other => panic!("unexpected {:?}", other),
    }
}

#[test]
fn removal_messages() {
    assert_eq!(removal_message("/s/Manufacturers/Sokor.gpg", "/s").unwrap(), "Remove 'Manufacturers/Sokor' from store.");
    assert_eq!(removal_message("/elsewhere/x", "/s"), None);
}

#[test]
fn gpg_id_texts() {
    let ids = vec!["AAAA".to_string(), "BBBB".to_string()];
    assert_eq!(gpg_id_content(&ids), "AAAA\nBBBB\n");
    assert_eq!(lines_of(&gpg_id_content(&ids)), ids);
    assert_eq!(gpg_ids_set_message("", &ids), "Main GPG IDs for store set to AAAA, BBBB.");
    assert_eq!(gpg_ids_set_message("work", &ids), "GPG IDs for 'work' set to AAAA, BBBB.");
    assert_eq!(gpg_ids_removed_message(""), "GPG IDs for store removed.");
    assert_eq!(gpg_ids_removed_message("work"), "GPG IDs for 'work' removed.");
    assert_eq!(reencrypt_message("work/mail", &ids), "Reencrypt 'work/mail' as gpg-ids changed to AAAA, BBBB.");
}

#[test]
fn gpg_id_updates() {
    assert_eq!(gpg_id_update(false, false, None).unwrap(), GpgIdUpdate::Write);
    assert_eq!(gpg_id_update(true, false, None).unwrap(), GpgIdUpdate::Keep);
    assert_eq!(gpg_id_update(true, true, Some(2)).unwrap(), GpgIdUpdate::Remove);
    for refused in [gpg_id_update(true, true, Some(0)), gpg_id_update(true, true, None)] {
        match refused {
            Err(StoreError::NoGpgId(m)) => {
                assert_eq!(m, "Cannot clear gpg-ids as this would leave the store without any gpg-ids")
            }
            other => panic!("unexpected {:?}", other),
        }
    }
}

#[test]
fn encryption_outcomes() {
    assert!(check_encryption("/s/a.gpg", 0, 10).is_ok());
    match check_encryption("/s/a.gpg", 1, 10) {
        Err(StoreError::Gpg(op, _)) => assert_eq!(op, "Could not encrypt for all gpg-id's"),
        other => panic!("unexpected {:?}", other),
    }
    match check_encryption("/s/a.gpg", 0, 0) {
        Err(StoreError::Gpg(op, _)) => assert_eq!(op, "Could not encrypt /s/a.gpg"),
        other => panic!("unexpected {:?}", other),
    }
}

#[test]
fn store_location() {
    assert_eq!(store_path(Location::Manual("/m".to_string()), Ok("/e".to_string()), None).unwrap(), "/m");
    assert_eq!(store_path(Location::Automatic, Ok("/e".to_string()), None).unwrap(), "/e");
    assert_eq!(
        store_path(Location::Automatic, Err("not set".to_string()), Some("/home/u".to_string())).unwrap(),
        "/home/u/.password-store"
    );
    match store_path(Location::Automatic, Err("not set".to_string()), None) {
        Err(StoreError::NoHome(ctx, inner)) => {
            assert_eq!(ctx, "attempted search in default paths");
            match *inner {
                StoreError::EnvVar(name, why) => {
                    assert_eq!(name, "PASSWORD_STORE_DIR");
                    assert_eq!(why, "not set");
                }
                other => panic!("unexpected {:?}", other),
            }
        }
        other => panic!("unexpected {:?}", other),
    }
    match Location::from("/x".to_string()) {
        Location::Manual(p) => assert_eq!(p, "/x"),
        Location::Automatic => panic!("expected a manual location"),
    }
}

#[test]
fn inserters_build_paths_and_changes() {
    let mut ins = PasswordInserter::for_directory((), "/s/Manufacturers", "Sokor".to_string());
    assert_eq!(ins.path(), "/s/Manufacturers/Sokor.gpg");
    ins.passphrase("pw".to_string()).line("user: a".to_string());
    assert_eq!(ins.current_passphrase(), Some("pw"));
    let pw = ins.to_password(ins.path().to_string());
    assert_eq!(pw.lines(), vec!["pw", "user: a"]);
    assert_eq!(pw.changes(), vec!["Add given passphrase to password"]);
    let d = DirectoryInserter::for_directory(7u8, "/s", "New".to_string());
    assert_eq!((d.path(), d.name(), *d.parent()), ("/s/New", "New", 7u8));
}

#[test]
fn parsed_inserter_builds_a_structured_password() {
    let mut ins = pass::parsed::PasswordInserter::for_directory((), "/s", "Mail".to_string());
    ins.passphrase("pw".to_string()).comment("c".to_string()).entry("user".to_string(), "me".to_string());
    let pw = ins.to_password();
    assert_eq!(pw.content(), "pw\nc\nuser: me\n");
    assert_eq!(pw.path(), "/s/Mail");
}
