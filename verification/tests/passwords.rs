use pass::decrypted_password::{commit_message, add_summary};
use pass::parsed::{self, PasswordLine as Line};
use pass::{DecryptedPassword, StoreError};

fn strings(v: &[&str]) -> Vec<String> {
    v.iter().map(|s| s.to_string()).collect()
}

fn sample() -> DecryptedPassword {
    DecryptedPassword::from_content("hunter2\nuser: alice\nsome note\n", "/store/Phone.gpg".to_string())
}

#[test]
fn content_is_read_as_lines() {
    let pw = sample();
    assert_eq!(pw.lines(), vec!["hunter2", "user: alice", "some note"]);
    assert_eq!(pw.passphrase(), Some("hunter2"));
    assert_eq!(pw.path(), "/store/Phone.gpg");
    assert_eq!(pw.content(), "hunter2\nuser: alice\nsome note\n");
}

#[test]
fn last_line_keeps_its_carriage_return() {
    let pw = DecryptedPassword::from_content("a\r", "/s/x.gpg".to_string());
    assert_eq!(pw.lines(), vec!["a\r"]);
    let pw = DecryptedPassword::from_content("p\r\nuser: x\r", "/s/x.gpg".to_string());
    assert_eq!(pw.lines(), vec!["p", "user: x\r"]);
}

#[test]
fn empty_password_has_no_passphrase() {
    let pw = DecryptedPassword::from_content("", "/s/x.gpg".to_string());
    assert_eq!(pw.passphrase(), None);
    assert_eq!(pw.content(), "");
}

#[test]
fn written_password_reads_back() {
    let pw = sample();
    let again = DecryptedPassword::from_content(&pw.content(), pw.path().to_string());
    assert_eq!(again.lines(), pw.lines());
}

#[test]
fn set_passphrase_records_change_and_save_plan_has_message() {
    let mut pw = sample();
    let edit = pw.set_passphrase("s3cret".to_string());
    assert_eq!(pw.passphrase(), Some("s3cret"));
    assert_eq!(pw.changes(), vec!["Set given passphrase for password"]);
    let plan = pw.take_save_plan(None, "Phone");
    assert_eq!(plan.path, "/store/Phone.gpg");
    assert_eq!(plan.content, "s3cret\nuser: alice\nsome note\n");
    assert_eq!(
        plan.message,
        "Edit password for 'Phone' using libpass.\n\nSet given passphrase for password\n"
    );
    assert!(pw.changes().is_empty());
    assert_eq!(pw.finish(edit, Ok::<(), String>(())), Ok(()));
    assert_eq!(pw.passphrase(), Some("s3cret"));
}

#[test]
fn failed_save_undoes_the_edit() {
    let mut pw = sample();
    let edit = pw.replace_line(1, "user: bob".to_string());
    assert_eq!(edit.outcome, Some("user: alice".to_string()));
    assert_eq!(pw.lines()[1], "user: bob");
    let res = pw.finish(edit, Err::<(), &str>("disk full"));
    assert_eq!(res, Err("disk full"));
    assert_eq!(pw.lines(), vec!["hunter2", "user: alice", "some note"]);
}

#[test]
fn replace_past_the_end_appends() {
    let mut pw = sample();
    let edit = pw.replace_line(10, "tail".to_string());
    assert_eq!(edit.outcome, None);
    assert_eq!(pw.lines(), vec!["hunter2", "user: alice", "some note", "tail"]);
}

#[test]
fn insert_remove_prepend_append() {
    let mut pw = sample();
    let _ = pw.insert_line(1, "inserted".to_string());
    assert_eq!(pw.lines(), vec!["hunter2", "inserted", "user: alice", "some note"]);
    let removed = pw.remove_line(1);
    assert_eq!(removed.outcome, "inserted");
    assert_eq!(pw.lines(), vec!["hunter2", "user: alice", "some note"]);
    let _ = pw.prepend_line("first".to_string());
    let _ = pw.append_line("last".to_string());
    assert_eq!(pw.lines(), vec!["hunter2", "first", "user: alice", "some note", "last"]);
    assert!(pw.changes().is_empty());
}

#[test]
fn generated_passphrase_records_its_change() {
    let mut pw = sample();
    let _ = pw.set_generated_passphrase("generated".to_string());
    assert_eq!(pw.passphrase(), Some("generated"));
    assert_eq!(pw.changes(), vec!["Set generated passphrase for password"]);
}

#[test]
fn batch_edit_applies_everything_at_once() {
    let mut pw = sample();
    let batch = pw
        .batch_edit()
        .passphrase("new".to_string())
        .append_line("x".to_string())
        .remove_line(1);
    let edit = batch.edit(&mut pw);
    assert_eq!(pw.lines(), vec!["new", "some note", "x"]);
    assert_eq!(pw.changes(), vec!["Set given passphrase for password"]);
    let _ = pw.finish(edit, Err::<(), ()>(()));
    assert_eq!(pw.lines(), vec!["hunter2", "user: alice", "some note"]);
}

#[test]
fn commit_messages() {
    assert_eq!(commit_message(Some("Summary".to_string()), "x", &Vec::new()), "Summary");
    assert_eq!(
        commit_message(None, "a/b", &strings(&["one", "two"])),
        "Edit password for 'a/b' using libpass.\n\none\ntwo\n"
    );
    assert_eq!(add_summary("Phone"), "Add password for 'Phone' using libpass.");
}

#[test]
fn parsed_reads_passphrase_comments_and_entries() {
    let p = sample().parsed().unwrap();
    assert_eq!(p.passphrase(), Some("hunter2"));
    assert_eq!(p.comments(), vec![(1, "some note")]);
    assert_eq!(p.all_entries(), vec![(0, ("user", "alice"))]);
    assert_eq!(p.entry("user"), Some((0, "alice")));
    assert_eq!(p.entry("mail"), None);
    assert_eq!(p.path(), "/store/Phone.gpg");
}

#[test]
fn line_format_entry_or_comment() {
    let p = DecryptedPassword::from_content(
        "pw\nurl: http://x\nhttp://y\nkey:\n:nokey\nk:v\n",
        "/s/a.gpg".to_string(),
    )
    .parsed()
    .unwrap();
    let lines: Vec<Line> = p.lines().into_iter().map(|(_, l)| l.clone()).collect();
    match &lines[..] {
        [Line::Entry(k1, v1), Line::Comment(c1), Line::Entry(k2, v2), Line::Comment(c2), Line::Comment(c3)] => {
            assert_eq!((k1.as_str(), v1.as_str()), ("url", "http://x"));
            assert_eq!(c1, "http://y");
            assert_eq!((k2.as_str(), v2.as_str()), ("key", ""));
            assert_eq!(c2, ":nokey");
            assert_eq!(c3, "k:v");
        }
        other => panic!("unexpected lines {:?}", other),
    }
}

#[test]
fn parsed_content_reads_back() {
    let mut p = sample().parsed().unwrap();
    let _ = p.append_entry("mail".to_string(), "a@b.c".to_string());
    let _ = p.prepend_comment("top".to_string());
    let content = p.content();
    assert_eq!(content, "hunter2\ntop\nuser: alice\nsome note\nmail: a@b.c\n");
    let lines: Vec<String> = pass::text::lines_of(&content);
    let back = parsed::DecryptedPassword::from_lines(lines, Vec::new(), "/s".to_string()).unwrap();
    assert_eq!(back.passphrase(), Some("hunter2"));
    assert_eq!(back.all_entries(), vec![(1, ("user", "alice")), (3, ("mail", "a@b.c"))]);
    assert_eq!(back.comments(), vec![(0, "top"), (2, "some note")]);
}

#[test]
fn parsed_edit_messages() {
    let mut p = sample().parsed().unwrap();
    let _ = p.append_entry("mail".to_string(), "x".to_string());
    let _ = p.replace_entry(0, "user".to_string(), "bob".to_string()).unwrap();
    let _ = p.remove_comment(1).unwrap();
    let plan = p.take_save_plan(None, "Phone");
    assert_eq!(
        plan.message,
        "Edit password for 'Phone' using libpass.\n\nAdd mail entry to password\nReplace user entry in password\nRemove comment from password\n"
    );
}

#[test]
fn comment_and_entry_edits_check_the_line_kind() {
    let mut p = sample().parsed().unwrap();
    match p.replace_comment(0, "c".to_string()) {
        Err(StoreError::PasswordLineNotAComment(0)) => {}
        _ => panic!("expected PasswordLineNotAComment"),
    }
    match p.remove_entry(1) {
        Err(StoreError::PasswordLineNotAnEntry(1)) => {}
        _ => panic!("expected PasswordLineNotAnEntry"),
    }
    assert_eq!(p.comments(), vec![(1, "some note")]);
}

#[test]
fn parsed_failed_save_restores_passphrase() {
    let mut p = sample().parsed().unwrap();
    let edit = p.set_passphrase("other".to_string());
    assert_eq!(p.passphrase(), Some("other"));
    let _ = p.finish(edit, Err::<(), ()>(()));
    assert_eq!(p.passphrase(), Some("hunter2"));
}

#[test]
fn parsed_generated_passphrase() {
    let mut p = sample().parsed().unwrap();
    let _ = p.set_generated_passphrase("gen".to_string());
    assert_eq!(p.passphrase(), Some("gen"));
    let plan = p.take_save_plan(Some("S".to_string()), "Phone");
    assert_eq!(plan.message, "S\n\nSet generated passphrase for password\n");
}
