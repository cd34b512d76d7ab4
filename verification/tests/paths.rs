use nearshare::layout::{
    clear_uploads_dir, gathering_dir_path, gathering_path, incoming_dir, incoming_path, listed,
    meta_path, spared, upload_path, uploads_dir, ClearAction, EntryKind,
};
use nearshare::path::{file_name, has_component, split_path};
use nearshare::sort::{sort_by_name, text_not_after};
use nearshare::text::{
    chars_of, join_texts, or_empty, same_text, starts_with, strip_prefix, text_of, to_decimal,
};

fn strings(list: &[&str]) -> Vec<String> {
    list.iter().map(|s| s.to_string()).collect()
}

#[test]
fn paths_are_split_at_slashes() {
    assert_eq!(split_path(""), strings(&[""]));
    assert_eq!(split_path("a"), strings(&["a"]));
    assert_eq!(split_path("/a//b/"), strings(&["", "a", "", "b", ""]));
    for path in ["", "/", "a", "a/b", "//a/./b/..", "a/"] {
        assert_eq!(split_path(path).join("/"), path);
    }
}

#[test]
fn file_name_is_the_last_name() {
    for path in [
        "", "/", ".", "..", "a", "a/b", "a/b/", "a/b//", "a/b/.", "./a", "./", "a/..", "a/../b",
        "/a", ".git", "a/..b", "a b/c\"d", "dir/\u{e9}t\u{e9}.txt",
    ] {
        let expected = std::path::Path::new(path)
            .file_name()
            .map(|n| n.to_string_lossy().to_string());
        assert_eq!(file_name(path), expected, "{path}");
    }
}

#[test]
fn components_are_whole_names() {
    assert!(has_component("uploads/.tmp/tmp-1/.git/config", ".git"));
    assert!(has_component(".git", ".git"));
    assert!(!has_component("uploads/.gitignore", ".git"));
    assert!(!has_component("uploads/a.git/b", ".git"));
}

#[test]
fn texts_are_taken_apart_and_put_together() {
    assert_eq!(chars_of("a\u{e9}"), vec!['a', '\u{e9}']);
    assert_eq!(text_of(&vec!['a', 'b', 'c'], 1, 3), "bc");
    assert_eq!(join_texts("a", "b"), "ab");
    assert_eq!(or_empty(None), "");
    assert_eq!(or_empty(Some("a".to_string())), "a");
    assert!(same_text("a", "a") && !same_text("a", "b"));
    assert_eq!(strip_prefix("files:a/b", "files:"), Some("a/b".to_string()));
    assert_eq!(strip_prefix("file", "files:"), None);
    assert_eq!(strip_prefix("filez:a", "files:"), None);
    assert_eq!(strip_prefix("files:", "files:"), Some(String::new()));
    assert!(starts_with("incoming", "incoming") && !starts_with("incomin", "incoming"));
}

#[test]
fn numbers_are_written_in_decimal() {
    for n in [0, 9, 10, 99, 100, 18_446_744_073_709_551_615] {
        assert_eq!(to_decimal(n), n.to_string());
    }
}

#[test]
fn places_are_below_the_uploads() {
    assert_eq!(uploads_dir(), "uploads");
    assert_eq!(incoming_dir(), "uploads/incoming");
    assert_eq!(meta_path(), "uploads/.nearshare-meta.json");
    assert_eq!(upload_path("a/b"), "uploads/a/b");
    assert_eq!(incoming_path("peer", "a/b"), "uploads/incoming/peer/a/b");
    assert_eq!(gathering_dir_path("peer"), "uploads/incoming/.tmp/peer");
    assert_eq!(gathering_path("peer", "a/b"), "uploads/incoming/.tmp/peer/a/b");
    assert_eq!(upload_path("incoming/peer/a"), incoming_path("peer", "a"));
}

#[test]
fn own_and_incoming_files_are_not_listed() {
    assert!(listed("a.txt"));
    assert!(listed(".hidden"));
    assert!(listed("a/incoming"));
    assert!(!listed("incoming/peer/a"));
    assert!(!listed("incoming.txt"));
    assert!(!listed(".tmp/tmp-1/a"));
    assert!(!listed("/.tmp/a"));
    assert!(!listed(".nearshare-meta.json"));
}

#[test]
fn clearing_spares_what_came_in() {
    assert!(spared("incoming") && !spared("incoming2"));
    assert_eq!(clear_uploads_dir("incoming", EntryKind::Dir), ClearAction::Keep);
    assert_eq!(clear_uploads_dir("incoming", EntryKind::File), ClearAction::Keep);
    assert_eq!(clear_uploads_dir("a", EntryKind::File), ClearAction::RemoveFile);
    assert_eq!(clear_uploads_dir(".tmp", EntryKind::Dir), ClearAction::RemoveDir);
    assert_eq!(clear_uploads_dir("link", EntryKind::Other), ClearAction::Keep);
}

#[test]
fn clearing_removes_what_is_listed() {
    for name in ["a", "dir/a", ".hidden/incoming", "in/coming"] {
        assert!(listed(name));
        let first = &split_path(name)[0];
        assert_eq!(clear_uploads_dir(first, EntryKind::File), ClearAction::RemoveFile);
        assert_eq!(clear_uploads_dir(first, EntryKind::Dir), ClearAction::RemoveDir);
    }
}

#[test]
fn texts_are_ordered_as_strings_are() {
    let list = ["", "a", "ab", "b", "B", "\u{e9}", "\u{ffff}", "\u{10000}", "a/b", "a.b"];
    for a in list {
        for b in list {
            assert_eq!(text_not_after(a, b), a <= b, "{a} {b}");
        }
    }
}

#[test]
fn lists_are_sorted_as_strings_are() {
    let list = strings(&["b", "a", "\u{10000}", "", "\u{ffff}", "a", "B", "ab"]);
    let mut expected = list.clone();
    expected.sort();
    assert_eq!(sort_by_name(list), expected);
    assert_eq!(sort_by_name(Vec::<String>::new()), Vec::<String>::new());
}
