use pass::paths::{
    entry_name, extension, file_name, gpg_id_candidates, is_password, is_special_entry, join_path,
    match_child, parent, path_has_extension, path_starts_with, pw_name, show_target, stem,
    strip_prefix, with_extension, with_file_name, without_extension, ChildMatch,
};
use pass::text::{lines_of, occurs_case_insensitive, same_text, join_with, terminate_lines};
use pass::StoreError;

#[test]
fn file_name_is_last_component() {
    assert_eq!(file_name("/store/Manufacturers/Sokor.gpg"), "Sokor.gpg");
    assert_eq!(file_name("Phone.gpg"), "Phone.gpg");
}

#[test]
fn extension_needs_a_dot_after_the_first_character() {
    assert_eq!(extension("Sokor.gpg"), Some("gpg".to_string()));
    assert_eq!(extension("archive.tar.gz"), Some("gz".to_string()));
    assert_eq!(extension(".gpg-id"), None);
    assert_eq!(extension("README"), None);
}

#[test]
fn stem_drops_the_extension() {
    assert_eq!(stem("Sokor.gpg"), "Sokor");
    assert_eq!(stem(".gpg-id"), ".gpg-id");
    assert_eq!(stem("archive.tar.gz"), "archive.tar");
}

#[test]
fn extension_of_path() {
    assert!(path_has_extension("/s/Phone.gpg", "gpg"));
    assert!(!path_has_extension("/s/Phone.gpg", "gpg-id"));
    assert!(path_has_extension("/s/.x/.gpg-id.gpg-id", "gpg-id"));
    assert!(is_password("/s/Phone.gpg"));
    assert!(!is_password("/s/notes.txt"));
}

#[test]
fn without_extension_keeps_directories() {
    assert_eq!(without_extension("/s/Holo Deck/Broht & Forrester.gpg"), "/s/Holo Deck/Broht & Forrester");
    assert_eq!(without_extension("a.b/c"), "a.b/c");
}

#[test]
fn path_prefixes_are_whole_components() {
    assert!(path_starts_with("/store/a/b.gpg", "/store"));
    assert!(path_starts_with("/store", "/store"));
    assert!(!path_starts_with("/storefront/a", "/store"));
    assert!(path_starts_with("/store/a", "/store/"));
}

#[test]
fn strip_prefix_drops_leading_components() {
    assert_eq!(strip_prefix("/store/a/b.gpg", "/store"), Some("a/b.gpg".to_string()));
    assert_eq!(strip_prefix("/store", "/store"), Some(String::new()));
    assert_eq!(strip_prefix("/other/a", "/store"), None);
}

#[test]
fn join_and_parent() {
    assert_eq!(join_path("/store", "a.gpg"), "/store/a.gpg");
    assert_eq!(join_path("/store/", "a.gpg"), "/store/a.gpg");
    assert_eq!(join_path("/store", "/abs"), "/abs");
    assert_eq!(parent("/store/a/b.gpg"), Some("/store/a".to_string()));
    assert_eq!(parent("/store"), Some("/".to_string()));
    assert_eq!(parent("/"), None);
    assert_eq!(parent("a"), Some(String::new()));
}

#[test]
fn entry_names_are_relative_and_without_extension() {
    assert_eq!(entry_name("/store/Manufacturers/Sokor.gpg", "/store"), Some("Manufacturers/Sokor".to_string()));
    assert_eq!(entry_name("/elsewhere/x.gpg", "/store"), None);
    assert_eq!(pw_name("/store/Phone.gpg", "/store"), "Phone");
    assert_eq!(entry_name("/store", "/store"), Some(String::new()));
}

#[test]
fn special_entries() {
    assert!(is_special_entry("/store/.git"));
    assert!(is_special_entry("/store/.gitattributes"));
    assert!(is_special_entry("/store/sub/.gpg-id"));
    assert!(!is_special_entry("/store/.gitignore"));
    assert!(!is_special_entry("/store/Phone.gpg"));
}

#[test]
fn with_file_name_and_extension() {
    assert_eq!(with_file_name("/store/a/old.gpg", "new"), "/store/a/new");
    assert_eq!(with_file_name("old", "new"), "new");
    assert_eq!(with_extension("/store/a/new", "gpg"), "/store/a/new.gpg");
    assert_eq!(with_extension("/store/a/new.txt", "gpg"), "/store/a/new.gpg");
    assert_eq!(with_extension("/store/a/new.gpg", ""), "/store/a/new");
}

#[test]
fn show_target_relative_absolute_and_outside() {
    assert_eq!(show_target("/store", "./a.gpg").unwrap(), "/store/./a.gpg");
    assert_eq!(show_target("/store", "/store/a.gpg").unwrap(), "/store/a.gpg");
    match show_target("/store", "/etc/passwd") {
        Err(StoreError::NotInStore(p)) => assert_eq!(p, "/etc/passwd"),
        other => panic!("unexpected {:?}", other),
    }
}

#[test]
fn gpg_id_candidates_nearest_first() {
    assert_eq!(
        gpg_id_candidates("/store/a/b"),
        vec!["/store/a/b".to_string(), "/store/a".to_string(), "/store".to_string(), "/".to_string()]
    );
}

#[test]
fn match_child_finds_or_descends() {
    let children = vec!["/s/Entertainment".to_string(), "/s/Manufacturers".to_string(), "/s/Phone.gpg".to_string()];
    assert_eq!(match_child("/s/Phone.gpg", &children), ChildMatch::Found(2));
    assert_eq!(match_child("/s/Manufacturers/Sokor.gpg", &children), ChildMatch::Descend(1));
    assert_eq!(match_child("/s/Other", &children), ChildMatch::NoMatch);
}

#[test]
fn lines_of_splits_like_str_lines() {
    assert_eq!(lines_of("a\r\nb\n\nc"), vec!["a".to_string(), "b".to_string(), String::new(), "c".to_string()]);
    assert_eq!(lines_of("a\n"), vec!["a".to_string()]);
    assert!(lines_of("").is_empty());
    assert_eq!(lines_of("a\r"), vec!["a\r".to_string()]);
    assert_eq!(lines_of("a\r\nb\r"), vec!["a".to_string(), "b\r".to_string()]);
    assert_eq!(lines_of("\r\n"), vec![String::new()]);
}

#[test]
fn trailing_separators_end_no_component() {
    assert_eq!(pass::paths::trim_trailing_slashes("/s/a//"), "/s/a");
    assert_eq!(pass::paths::trim_trailing_slashes("/"), "/");
    assert_eq!(pass::paths::trim_trailing_slashes("b"), "b");
}

#[test]
fn joining_and_terminating_lines() {
    let ls = vec!["x".to_string(), "y".to_string()];
    assert_eq!(join_with(&ls, ", "), "x, y");
    assert_eq!(terminate_lines(&ls), "x\ny\n");
    assert_eq!(join_with(&Vec::new(), ", "), "");
}

#[test]
fn same_text_compares_characters() {
    assert!(same_text("user.name", "user.name"));
    assert!(!same_text("user.name", "user.email"));
    assert!(!same_text("a", "ab"));
}

#[test]
fn search_ignores_case() {
    assert!(occurs_case_insensitive("sokor", "/store/Manufacturers/Sokor.gpg"));
    assert!(occurs_case_insensitive("B", "abc"));
    assert!(!occurs_case_insensitive("xyz", "abc"));
    assert!(occurs_case_insensitive("", "abc"));
}
