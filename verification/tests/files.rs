use nearshare::cipher::{open, seal, EncryptionKey, OpenError};
use nearshare::handlers::download::{download_file, download_incoming_file, Download};
use nearshare::handlers::listing::{list_files, Listing};
use nearshare::handlers::upload::{
    flat_url, name_to_store, upload_file, StoredFile, TopEntry, Upload, WalkEntry, MAX_FLAT_BYTES,
};
use nearshare::models::{FileListResponse, UploadMeta};
use nearshare::reply::{Body, Reply, Status};
use nearshare::sessions::Sessions;

const HEADER: Option<&[u8]> = Some(b"Bearer token");

fn key() -> EncryptionKey {
    EncryptionKey::new([5; 32])
}

fn sessions() -> Sessions {
    let mut sessions = Sessions::new();
    sessions.insert("token".to_string(), "admin".to_string());
    sessions
}

fn some(text: &str) -> Option<String> {
    Some(text.to_string())
}

fn strings(list: &[&str]) -> Vec<String> {
    list.iter().map(|s| s.to_string()).collect()
}

fn text(status: Status, text: &str) -> Reply {
    Reply { status, body: Body::Text(text.to_string()) }
}

fn refusal() -> Reply {
    Reply { status: Status::Unauthorized, body: Body::Empty }
}

fn entry(is_file: bool, path: &str, relative: Option<&str>) -> WalkEntry {
    WalkEntry { is_file, path: path.to_string(), relative: relative.map(|r| r.to_string()) }
}

#[test]
fn uploads_need_a_session() {
    assert_eq!(upload_file(None, &sessions()).unwrap_err(), refusal());
    let upload = upload_file(HEADER, &sessions()).unwrap();
    let number = upload.tmp_base.strip_prefix("uploads/.tmp/tmp-").unwrap();
    assert_eq!(number.parse::<u64>().unwrap().to_string(), number);
    let other = upload_file(HEADER, &sessions()).unwrap();
    assert_ne!(upload.tmp_base, other.tmp_base);
    assert_eq!(upload.finish(), Reply { status: Status::Success, body: Body::Saved(vec![]) });
}

#[test]
fn fields_are_written_under_their_paths() {
    let upload = Upload::new(42);
    assert_eq!(upload.tmp_base, "uploads/.tmp/tmp-42");
    let path = upload.field_path(Some("files:a/b.txt"), Some("c.txt"));
    assert_eq!(path, "uploads/.tmp/tmp-42/a/b.txt");
    assert_eq!(upload.field_path(Some("file"), Some("c.txt")), "uploads/.tmp/tmp-42/c.txt");
    assert_eq!(upload.field_path(None, Some("c.txt")), "uploads/.tmp/tmp-42/c.txt");
    assert_eq!(upload.field_path(Some("file"), None), "uploads/.tmp/tmp-42/unnamed");
    assert_eq!(upload.field_path(Some("files:"), Some("c.txt")), "uploads/.tmp/tmp-42/");
}

#[test]
fn repositories_are_found() {
    let entries = vec![
        TopEntry { name: "one".to_string(), is_dir: true, has_git: true },
        TopEntry { name: "two".to_string(), is_dir: true, has_git: false },
        TopEntry { name: "three".to_string(), is_dir: false, has_git: true },
        TopEntry { name: "four".to_string(), is_dir: true, has_git: true },
    ];
    let mut upload = Upload::new(1);
    upload.find_repos(true, &entries);
    assert_eq!(upload.repos, strings(&[".", "one", "four"]));
    upload.find_repos(false, &entries);
    assert_eq!(upload.repos, strings(&["one", "four"]));
    upload.find_repos(false, &vec![]);
    assert!(upload.repos.is_empty());
}

#[test]
fn repositories_are_remembered_once() {
    let mut upload = Upload::new(1);
    upload.repos = strings(&["b", "a", "b"]);
    let first = upload.updated_meta(None);
    assert_eq!(first.git_repos, strings(&["b", "a"]));
    let stored = UploadMeta { git_repos: strings(&["c", "a"]) };
    let second = upload.updated_meta(Some(stored));
    assert_eq!(second.git_repos, strings(&["c", "a", "b"]));
    let third = upload.updated_meta(Some(second));
    assert_eq!(third.git_repos, strings(&["c", "a", "b"]));
    assert!(UploadMeta::default().git_repos.is_empty());
}

#[test]
fn insides_of_repositories_are_not_stored() {
    let stored = entry(true, "uploads/.tmp/tmp-1/a/b", Some("a/b"));
    assert_eq!(name_to_store(&stored), some("a/b"));
    let ignore = entry(true, "uploads/.tmp/tmp-1/.gitignore", Some(".gitignore"));
    assert_eq!(name_to_store(&ignore), some(".gitignore"));
    let inside = entry(true, "uploads/.tmp/tmp-1/a/.git/config", Some("a/.git/config"));
    assert_eq!(name_to_store(&inside), None);
    assert_eq!(name_to_store(&entry(false, "uploads/.tmp/tmp-1/a", Some("a"))), None);
    assert_eq!(name_to_store(&entry(true, "elsewhere/a", None)), None);
}

#[test]
fn stored_uploads_are_reported_and_open_again() {
    let mut upload = Upload::new(1);
    let file = upload.store(&key(), "a/b".to_string(), Some(b"contents".to_vec())).unwrap();
    assert_eq!(file.path, "uploads/a/b");
    assert_eq!(file.data.len(), 12 + 8 + 16);
    assert_eq!(open(&key(), &file.data), Ok(b"contents".to_vec()));
    assert_eq!(upload.keep("lost".to_string(), None), None);
    let kept = upload.keep("c".to_string(), Some(vec![1, 2]));
    assert_eq!(kept, Some(StoredFile { path: "uploads/c".to_string(), data: vec![1, 2] }));
    let fixed = upload.store_with(&key(), &[1; 12], "d".to_string(), Some(b"more".to_vec()));
    let fixed = fixed.unwrap();
    assert_eq!(fixed.data.len(), 12 + 4 + 16);
    assert_eq!(Some(fixed.data), seal(&key(), &[1; 12], b"more"));
    let body = Body::Saved(strings(&["a/b", "c", "d"]));
    assert_eq!(upload.finish(), Reply { status: Status::Success, body });
}

#[test]
fn files_that_cannot_be_read_are_passed_over() {
    let mut upload = Upload::new(1);
    assert_eq!(upload.store(&key(), "a".to_string(), None), None);
    assert_eq!(upload.store_with(&key(), &[1; 12], "b".to_string(), None), None);
    assert_eq!(upload.store_flat(&key(), "repo", None), None);
    let empty = upload.store(&key(), "c".to_string(), Some(vec![])).unwrap();
    assert_eq!(empty.data.len(), 12 + 16);
    assert_eq!(upload.saved, strings(&["c"]));
}

#[test]
fn repositories_are_shown_as_a_whole() {
    let mut upload = Upload::new(3);
    assert_eq!(MAX_FLAT_BYTES, 51200);
    assert_eq!(flat_url("repo"), "file://repo");
    assert_eq!(upload.repo_dir("."), "uploads/.tmp/tmp-3");
    assert_eq!(upload.repo_dir("repo"), "uploads/.tmp/tmp-3/repo");
    let whole = upload.store_flat(&key(), ".", some("<p>\u{e9}</p>")).unwrap();
    assert_eq!(whole.data.len(), 12 + 9 + 16);
    assert_eq!(whole.path, "uploads/repo_flat.html");
    assert_eq!(open(&key(), &whole.data), Ok("<p>\u{e9}</p>".as_bytes().to_vec()));
    let part = upload.store_flat(&key(), "repo", some("")).unwrap();
    assert_eq!(part.path, "uploads/repo_flat.html");
    let other = upload.store_flat(&key(), "x", some("")).unwrap();
    assert_eq!(other.path, "uploads/x_flat.html");
    assert_eq!(upload.saved, strings(&["repo_flat.html", "repo_flat.html", "x_flat.html"]));
}

#[test]
fn files_are_listed_in_order() {
    assert_eq!(list_files(Some(b"Bearer other"), &sessions()).unwrap_err(), refusal());
    let mut listing = list_files(HEADER, &sessions()).unwrap();
    for name in ["b", "incoming/peer/x", "a/z", ".tmp/tmp-1/x", ".nearshare-meta.json", "a"] {
        listing.visit(&entry(true, &format!("uploads/{name}"), Some(name)));
    }
    listing.visit(&entry(false, "uploads/dir", Some("dir")));
    listing.visit(&entry(true, "elsewhere", None));
    let meta = UploadMeta { git_repos: strings(&["r"]) };
    let body = Body::Files(FileListResponse {
        files: strings(&["a", "a/z", "b"]),
        git_repos: strings(&["r"]),
    });
    assert_eq!(listing.finish(Some(meta)), Reply { status: Status::Success, body });
}

#[test]
fn stored_files_are_listed() {
    let list = |names: &[&str], meta: Option<UploadMeta>| {
        let mut listing = list_files(HEADER, &sessions()).unwrap();
        for name in names {
            listing.visit(&entry(true, &format!("uploads/{name}"), Some(name)));
        }
        listing.finish(meta)
    };
    let listed = |files: &[&str], git_repos: &[&str]| {
        let body = Body::Files(FileListResponse {
            files: strings(files),
            git_repos: strings(git_repos),
        });
        Reply { status: Status::Success, body }
    };
    assert_eq!(list(&["old"], None), listed(&["old"], &[]));
    let mut upload = Upload::new(1);
    let repo = TopEntry { name: "repo".to_string(), is_dir: true, has_git: true };
    upload.find_repos(false, &vec![repo]);
    for name in ["repo/new", "incoming-notes"] {
        upload.store(&key(), name.to_string(), Some(vec![1])).unwrap();
    }
    assert_eq!(upload.store(&key(), "unread".to_string(), None), None);
    let meta = upload.updated_meta(None);
    let mut names = vec!["old", ".nearshare-meta.json"];
    names.extend(upload.saved.iter().map(|name| name.as_str()));
    assert_eq!(list(&names, Some(meta)), listed(&["old", "repo/new"], &["repo"]));
}

#[test]
fn equal_files_are_listed_equally() {
    let first = Listing { files: strings(&["b", "a", "b"]) };
    let second = Listing { files: strings(&["b", "a", "b"]) };
    let body = Body::Files(FileListResponse {
        files: strings(&["a", "b", "b"]),
        git_repos: vec![],
    });
    let reply = first.finish(None);
    assert_eq!(reply, Reply { status: Status::Success, body });
    assert_eq!(second.finish(None), reply);
}

#[test]
fn unreadable_memory_lists_no_repositories() {
    let body = Body::Files(FileListResponse { files: vec![], git_repos: vec![] });
    let reply = Listing { files: vec![] }.finish(None);
    assert_eq!(reply, Reply { status: Status::Success, body });
}

#[test]
fn downloads_need_a_session_and_a_path() {
    assert_eq!(download_file(None, &sessions(), some("a")).unwrap_err(), refusal());
    let missing = text(Status::BadRequest, "Missing path parameter");
    assert_eq!(download_file(HEADER, &sessions(), None).unwrap_err(), missing);
    assert_eq!(download_file(HEADER, &sessions(), some("")).unwrap_err(), missing);
    let download = download_file(HEADER, &sessions(), some("a/b")).unwrap();
    assert_eq!(download.file_path, "uploads/a/b");
}

#[test]
fn incoming_downloads_need_a_peer_too() {
    let refused = download_incoming_file(None, &sessions(), some("p"), some("a"));
    assert_eq!(refused.unwrap_err(), refusal());
    let missing = text(Status::BadRequest, "Missing peer_id or path parameter");
    for (peer_id, path) in [(None, some("a")), (some("p"), None), (some(""), some("a"))] {
        let result = download_incoming_file(HEADER, &sessions(), peer_id, path);
        assert_eq!(result.unwrap_err(), missing);
    }
    let download = download_incoming_file(HEADER, &sessions(), some("p"), some("a/b")).unwrap();
    assert_eq!(download.file_path, "uploads/incoming/p/a/b");
    assert_eq!(download.file_name, "a/b");
}

#[test]
fn downloads_give_back_the_upload() {
    let mut upload = Upload::new(1);
    let file = upload.store(&key(), "a/b.txt".to_string(), Some(b"contents".to_vec())).unwrap();
    let download = download_file(HEADER, &sessions(), some("a/b.txt")).unwrap();
    assert_eq!(download.file_path, file.path);
    let reply = download.reply(&key(), Some(file.data));
    let body = Body::Attachment {
        disposition: "attachment; filename=\"b.txt\"".to_string(),
        data: b"contents".to_vec(),
    };
    assert_eq!(reply, Reply { status: Status::Success, body });
    assert_eq!(reply.content_type(), some("application/octet-stream"));
}

#[test]
fn downloads_that_fail_say_so() {
    let download = Download { file_name: "..".to_string(), file_path: "uploads/..".to_string() };
    assert_eq!(download.reply(&key(), None), text(Status::NotFound, "File Not Found"));
    let bare = Reply { status: Status::InternalServerError, body: Body::Empty };
    assert_eq!(download.reply(&key(), Some(vec![0; 11])), bare);
    assert_eq!(download.deliver(Err(OpenError::TooShort)), bare);
    let refused = text(Status::InternalServerError, "Decryption Failed");
    assert_eq!(download.reply(&key(), Some(vec![0; 40])), refused);
    let body = Body::Attachment {
        disposition: "attachment; filename=\"\"".to_string(),
        data: vec![1],
    };
    assert_eq!(download.deliver(Ok(vec![1])), Reply { status: Status::Success, body });
}
