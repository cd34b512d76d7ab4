//! Files taken in.
use super::session::{permission, require_user};
use crate::cipher::{
    encryptable, opened, opt_bytes, seal, seal_fresh, sealed, EncryptionKey, OpenError, NONCE_LEN,
    TAG_LEN,
};
use crate::layout::{upload_location, upload_path};
use crate::models::UploadMeta;
use crate::path::{
    beside, has_component, law_pieces_are_what_stands_between_slashes, split, stands_in,
};
use crate::random::random_number;
use crate::reply::{Body, BodyView, Reply, ReplyView, Status};
use crate::sessions::{header_view, Sessions};
use crate::text::{
    after_prefix, decimal, join_texts, same_text, strip_prefix, texts, to_decimal,
};
use vstd::prelude::*;

verus! {

/// Length in bytes up to which a file is shown on the page that shows a
/// repository as a whole.
pub const MAX_FLAT_BYTES: u64 = 51200;

/// An upload under way.
#[derive(Debug, PartialEq, Eq)]
pub struct Upload {
    /// The directory in which the files are first written.
    pub tmp_base: String,
    /// The git repositories found among the files: `.` for the whole upload.
    pub repos: Vec<String>,
    /// The files stored so far.
    pub saved: Vec<String>,
}

/// An entry of the directory in which the files were first written.
#[derive(Debug, PartialEq, Eq)]
pub struct TopEntry {
    pub name: String,
    pub is_dir: bool,
    /// Whether there is a directory `.git` in it.
    pub has_git: bool,
}

/// A file or directory met when a directory is walked.
#[derive(Debug, PartialEq, Eq)]
pub struct WalkEntry {
    pub is_file: bool,
    /// The path of the entry.
    pub path: String,
    /// The path of the entry below the directory that is walked, if it is there.
    pub relative: Option<String>,
}

/// A file to be written.
#[derive(Debug, PartialEq, Eq)]
pub struct StoredFile {
    pub path: String,
    pub data: Vec<u8>,
}

/// The contents of an [`Upload`].
pub struct UploadView {
    pub tmp_base: Seq<char>,
    pub repos: Seq<Seq<char>>,
    pub saved: Seq<Seq<char>>,
}

/// The contents of a [`StoredFile`].
pub struct StoredView {
    pub path: Seq<char>,
    pub data: Seq<u8>,
}

impl View for Upload {
    type V = UploadView;

    open spec fn view(&self) -> UploadView {
        UploadView {
            tmp_base: self.tmp_base@,
            repos: texts(self.repos@),
            saved: texts(self.saved@),
        }
    }
}

impl View for StoredFile {
    type V = StoredView;

    open spec fn view(&self) -> StoredView {
        StoredView { path: self.path@, data: self.data@ }
    }
}

/// The contents of a file that may have to be written.
pub open spec fn stored_view(file: Option<StoredFile>) -> Option<StoredView> {
    match file {
        Some(f) => Some(f@),
        None => None,
    }
}

/// The upload with the given number, before anything was taken in.
pub open spec fn new_upload(id: u64) -> UploadView {
    UploadView {
        tmp_base: "uploads/.tmp/tmp-"@ + decimal(id as nat),
        repos: seq![],
        saved: seq![],
    }
}

/// The text of a reference that may be absent.
pub open spec fn opt_str(text: Option<&str>) -> Option<Seq<char>> {
    match text {
        Some(t) => Some(t@),
        None => None,
    }
}

/// The path of an uploaded file, from the name of its field where that gives one,
/// from its file name otherwise.
pub open spec fn field_path(name: Option<Seq<char>>, filename: Option<Seq<char>>) -> Seq<char> {
    let from_name = match name {
        Some(n) => after_prefix(n, "files:"@),
        None => None,
    };
    match from_name {
        Some(path) => path,
        None => match filename {
            Some(f) => f,
            None => "unnamed"@,
        },
    }
}

/// The git repositories among the entries of an upload.
pub open spec fn repos_among(entries: Seq<TopEntry>) -> Seq<Seq<char>> {
    entries.filter(|e: TopEntry| e.is_dir && e.has_git).map_values(|e: TopEntry| e.name@)
}

/// The git repositories of an upload: the upload itself and its entries, as far
/// as they are repositories.
pub open spec fn repos_of(root_has_git: bool, entries: Seq<TopEntry>) -> Seq<Seq<char>> {
    if root_has_git {
        seq!["."@] + repos_among(entries)
    } else {
        repos_among(entries)
    }
}

/// The known names and those found, in the order in which they came up, none
/// added that was there before.
pub open spec fn merged(known: Seq<Seq<char>>, found: Seq<Seq<char>>) -> Seq<Seq<char>>
    decreases found.len(),
{
    if found.len() == 0 {
        known
    } else {
        let before = merged(known, found.drop_last());
        if before.contains(found.last()) {
            before
        } else {
            before.push(found.last())
        }
    }
}

/// The repositories remembered so far: none where nothing could be read.
pub open spec fn known_repos(stored: Option<UploadMeta>) -> Seq<Seq<char>> {
    match stored {
        Some(meta) => texts(meta.git_repos@),
        None => seq![],
    }
}

/// The name under which a file of an upload is stored: it has to be a file, lie
/// below the upload and not belong to the inside of a git repository.
pub open spec fn stored_name(entry: WalkEntry) -> Option<Seq<char>> {
    if !entry.is_file || split(entry.path@).contains(".git"@) {
        None
    } else {
        match entry.relative {
            Some(relative) => Some(relative@),
            None => None,
        }
    }
}

/// What encryption gives for a file that may have failed to be read.
pub open spec fn sealed_read(key: Seq<u8>, nonce: Seq<u8>, read: Option<Seq<u8>>) -> Option<
    Seq<u8>,
> {
    match read {
        Some(data) => sealed(key, nonce, data),
        None => None,
    }
}

/// What is written for a file whose encryption gave `stored`.
pub open spec fn kept(name: Seq<char>, stored: Option<Seq<u8>>) -> Option<StoredView> {
    match stored {
        Some(data) => Some(StoredView { path: upload_location(name), data }),
        None => None,
    }
}

/// The upload after the attempt to store a file.
pub open spec fn after_keeping(
    upload: UploadView,
    name: Seq<char>,
    stored: Option<Seq<u8>>,
) -> UploadView {
    if stored is Some {
        UploadView { saved: upload.saved.push(name), ..upload }
    } else {
        upload
    }
}

/// Where a repository of an upload lies.
pub open spec fn repo_location(tmp_base: Seq<char>, repo: Seq<char>) -> Seq<char> {
    if repo == "."@ {
        tmp_base
    } else {
        tmp_base + "/"@ + repo
    }
}

/// The name of the page that shows a repository as a whole.
pub open spec fn flat_name(repo: Seq<char>) -> Seq<char> {
    if repo == "."@ {
        "repo_flat.html"@
    } else {
        repo + "_flat.html"@
    }
}

impl UploadMeta {
    /// Adds the names that are not there yet.
    pub fn merge(&mut self, found: &Vec<String>)
        ensures
            texts(final(self).git_repos@) == merged(texts(old(self).git_repos@), texts(found@)),
    {
        let mut i: usize = 0;
        assert(texts(found@).take(0) =~= seq![]);
        while i < found.len()
            invariant
                i <= found@.len(),
                texts(self.git_repos@) == merged(
                    texts(old(self).git_repos@),
                    texts(found@).take(i as int),
                ),
            decreases found.len() - i,
        {
            let ghost next = texts(found@).take(i + 1);
            assert(next.drop_last() =~= texts(found@).take(i as int));
            assert(next.last() == found@[i as int]@);
            if !contains(&self.git_repos, &found[i]) {
                let ghost before = self.git_repos@;
                let name = found[i].clone();
                self.git_repos.push(name);
                assert(texts(self.git_repos@) =~= texts(before).push(found@[i as int]@));
            }
            i = i + 1;
        }
        assert(texts(found@).take(i as int) =~= texts(found@));
    }
}

/// Whether a text is in a list.
fn contains(list: &Vec<String>, text: &str) -> (found: bool)
    ensures
        found == texts(list@).contains(text@),
{
    let mut i: usize = 0;
    while i < list.len()
        invariant
            i <= list@.len(),
            forall|j: int| 0 <= j < i ==> (#[trigger] list@[j])@ != text@,
        decreases list.len() - i,
    {
        if same_text(&list[i], text) {
            assert(texts(list@)[i as int] == text@);
            return true;
        }
        i = i + 1;
    }
    assert forall|j: int| 0 <= j < texts(list@).len() implies texts(list@)[j] != text@ by {
        assert(texts(list@)[j] == list@[j]@);
    }
    false
}

/// Starts an upload under a number drawn at random.
pub fn upload_file(header: Option<&[u8]>, sessions: &Sessions) -> (result: Result<Upload, Reply>)
    ensures
        match result {
            Ok(upload) => permission(sessions@, header_view(header)) is Ok && exists|id: u64|
                upload@ == #[trigger] new_upload(id),
            Err(reply) => permission(sessions@, header_view(header)) == Err::<(), ReplyView>(
                reply@,
            ),
        },
{
    if let Err(reply) = require_user(header, sessions) {
        return Err(reply);
    }
    let id = random_number();
    let upload = Upload::new(id);
    assert(upload@ == new_upload(id));
    Ok(upload)
}

/// Decides under which name a file of an upload is stored, if at all.
pub fn name_to_store(entry: &WalkEntry) -> (name: Option<String>)
    ensures
        crate::text::opt_text(name) == stored_name(*entry),
{
    if !entry.is_file || has_component(&entry.path, ".git") {
        return None;
    }
    match &entry.relative {
        Some(relative) => Some(relative.clone()),
        None => None,
    }
}

/// Where the page comes from that shows a repository as a whole.
pub fn flat_url(repo: &str) -> (url: String)
    ensures
        url@ == "file://"@ + repo@,
{
    join_texts("file://", repo)
}

impl Upload {
    /// The upload with the given number, before anything was taken in.
    pub fn new(id: u64) -> (upload: Self)
        ensures
            upload@ == new_upload(id),
    {
        let upload = Upload {
            tmp_base: join_texts("uploads/.tmp/tmp-", &to_decimal(id)),
            repos: Vec::new(),
            saved: Vec::new(),
        };
        assert(upload@.repos =~= seq![]);
        assert(upload@.saved =~= seq![]);
        upload
    }

    /// Where a file is first written, given the name of its field and its file
    /// name.
    pub fn field_path(&self, name: Option<&str>, filename: Option<&str>) -> (path: String)
        ensures
            path@ == self@.tmp_base + "/"@ + field_path(opt_str(name), opt_str(filename)),
    {
        let from_name = match name {
            Some(n) => strip_prefix(n, "files:"),
            None => None,
        };
        let relative = match from_name {
            Some(path) => path,
            None => match filename {
                Some(f) => f.to_owned(),
                None => "unnamed".to_owned(),
            },
        };
        join_texts(&join_texts(&self.tmp_base, "/"), &relative)
    }

    /// Notes the git repositories, given whether the upload as a whole holds a
    /// directory `.git`, and its entries.
    pub fn find_repos(&mut self, root_has_git: bool, entries: &Vec<TopEntry>)
        ensures
            final(self)@ == (UploadView { repos: repos_of(root_has_git, entries@), ..old(self)@ }),
    {
        let mut repos: Vec<String> = Vec::new();
        let ghost start = repos_of(root_has_git, seq![]);
        proof {
            reveal(Seq::filter);
        }
        if root_has_git {
            repos.push(".".to_owned());
        }
        assert(texts(repos@) =~= start);
        let mut i: usize = 0;
        assert(entries@.take(0) =~= seq![]);
        while i < entries.len()
            invariant
                i <= entries@.len(),
                texts(repos@) == repos_of(root_has_git, entries@.take(i as int)),
            decreases entries.len() - i,
        {
            let ghost next = entries@.take(i + 1);
            proof {
                reveal(Seq::filter);
                assert(next.drop_last() =~= entries@.take(i as int));
            }
            if entries[i].is_dir && entries[i].has_git {
                let ghost before = repos@;
                let name = entries[i].name.clone();
                repos.push(name);
                assert(texts(repos@) =~= texts(before).push(entries@[i as int].name@));
                assert(repos_among(next) =~= repos_among(entries@.take(i as int)).push(
                    entries@[i as int].name@,
                ));
                assert(repos_of(root_has_git, next) =~= repos_of(
                    root_has_git,
                    entries@.take(i as int),
                ).push(entries@[i as int].name@));
            }
            i = i + 1;
        }
        assert(entries@.take(i as int) =~= entries@);
        self.repos = repos;
    }

    /// What is to be remembered, given what was remembered so far, where it could
    /// be read.
    pub fn updated_meta(&self, stored: Option<UploadMeta>) -> (meta: UploadMeta)
        ensures
            texts(meta.git_repos@) == merged(known_repos(stored), self@.repos),
    {
        let mut meta = match stored {
            Some(meta) => meta,
            None => {
                let empty = UploadMeta::default();
                assert(texts(empty.git_repos@) =~= seq![]);
                empty
            },
        };
        meta.merge(&self.repos);
        meta
    }

    /// Notes that a file is stored, given the outcome of its encryption. Tells
    /// what is to be written.
    pub fn keep(&mut self, name: String, stored: Option<Vec<u8>>) -> (file: Option<StoredFile>)
        ensures
            stored_view(file) == kept(name@, opt_bytes(stored)),
            final(self)@ == after_keeping(old(self)@, name@, opt_bytes(stored)),
    {
        match stored {
            Some(data) => {
                let path = upload_path(&name);
                let ghost before = self.saved@;
                let ghost added = name@;
                self.saved.push(name);
                assert(texts(self.saved@) =~= texts(before).push(added));
                Some(StoredFile { path, data })
            },
            None => None,
        }
    }

    /// Encrypts a file, where it could be read, under `nonce` and notes that it is
    /// stored. Tells what is to be written: it opens to what was read.
    pub fn store_with(
        &mut self,
        key: &EncryptionKey,
        nonce: &[u8; 12],
        name: String,
        read: Option<Vec<u8>>,
    ) -> (file: Option<StoredFile>)
        ensures
            stored_view(file) == kept(name@, sealed_read(key@, nonce@, opt_bytes(read))),
            final(self)@ == after_keeping(
                old(self)@,
                name@,
                sealed_read(key@, nonce@, opt_bytes(read)),
            ),
            file is Some <==> (read matches Some(data) && encryptable(data@.len())),
            file matches Some(f) ==> {
                &&& read matches Some(data)
                &&& f.data@.len() == NONCE_LEN + data@.len() + TAG_LEN
                &&& opened(key@, f.data@) == Ok::<Seq<u8>, OpenError>(data@)
            },
    {
        let stored = match &read {
            Some(data) => seal(key, nonce, data),
            None => None,
        };
        self.keep(name, stored)
    }

    /// Encrypts a file, where it could be read, under a nonce drawn at random and
    /// notes that it is stored. Tells what is to be written: it opens to what was
    /// read.
    pub fn store(&mut self, key: &EncryptionKey, name: String, read: Option<Vec<u8>>) -> (file:
        Option<StoredFile>)
        ensures
            file is Some <==> (read matches Some(data) && encryptable(data@.len())),
            file matches Some(f) ==> {
                &&& read matches Some(data)
                &&& f.path@ == upload_location(name@)
                &&& f.data@.len() == NONCE_LEN + data@.len() + TAG_LEN
                &&& sealed(key@, f.data@.take(NONCE_LEN as int), data@) == Some(f.data@)
                &&& opened(key@, f.data@) == Ok::<Seq<u8>, OpenError>(data@)
                &&& final(self)@ == (UploadView {
                    saved: old(self)@.saved.push(name@),
                    ..old(self)@
                })
            },
            file is None ==> final(self)@ == old(self)@,
    {
        let stored = match &read {
            Some(data) => seal_fresh(key, data),
            None => None,
        };
        self.keep(name, stored)
    }

    /// Where a repository of the upload lies.
    pub fn repo_dir(&self, repo: &str) -> (path: String)
        ensures
            path@ == repo_location(self@.tmp_base, repo@),
    {
        if same_text(repo, ".") {
            self.tmp_base.clone()
        } else {
            join_texts(&join_texts(&self.tmp_base, "/"), repo)
        }
    }

    /// Encrypts the page that shows a repository as a whole, where it could be
    /// made, and notes that it is stored. Tells what is to be written: it opens to
    /// the page.
    pub fn store_flat(&mut self, key: &EncryptionKey, repo: &str, html: Option<String>) -> (file:
        Option<StoredFile>)
        ensures
            file is Some <==> (html matches Some(page) && encryptable(
                vstd::utf8::encode_utf8(page@).len(),
            )),
            file matches Some(f) ==> {
                &&& html matches Some(page)
                &&& f.path@ == upload_location(flat_name(repo@))
                &&& f.data@.len() == NONCE_LEN + vstd::utf8::encode_utf8(page@).len() + TAG_LEN
                &&& sealed(
                    key@,
                    f.data@.take(NONCE_LEN as int),
                    vstd::utf8::encode_utf8(page@),
                ) == Some(f.data@)
                &&& opened(key@, f.data@) == Ok::<Seq<u8>, OpenError>(
                    vstd::utf8::encode_utf8(page@),
                )
                &&& final(self)@ == (UploadView {
                    saved: old(self)@.saved.push(flat_name(repo@)),
                    ..old(self)@
                })
            },
            file is None ==> final(self)@ == old(self)@,
    {
        let name = if same_text(repo, ".") {
            "repo_flat.html".to_owned()
        } else {
            join_texts(repo, "_flat.html")
        };
        let stored = match &html {
            Some(page) => seal_fresh(key, page.as_str().as_bytes()),
            None => None,
        };
        self.keep(name, stored)
    }

    /// Answers the upload with the names of the files stored.
    pub fn finish(self) -> (reply: Reply)
        ensures
            reply@ == (ReplyView { status: Status::Success, body: BodyView::Saved(self@.saved) }),
    {
        Reply::ok(Body::Saved(self.saved))
    }
}

/// What is known stays known, in its place, and everything found becomes known.
pub proof fn law_merging_adds_what_was_found(known: Seq<Seq<char>>, found: Seq<Seq<char>>)
    ensures
        known.is_prefix_of(merged(known, found)),
        forall|name: Seq<char>| #[trigger]
            merged(known, found).contains(name) <==> known.contains(name) || found.contains(name),
    decreases found.len(),
{
    if found.len() > 0 {
        let first = found.drop_last();
        let before = merged(known, first);
        law_merging_adds_what_was_found(known, first);
        let after = merged(known, found);
        assert(known =~= after.take(known.len() as int)) by {
            assert(known =~= before.take(known.len() as int));
        }
        assert forall|name: Seq<char>| #[trigger]
            after.contains(name) <==> known.contains(name) || found.contains(name) by {
            assert(found =~= first.push(found.last()));
            assert(found.contains(name) <==> first.contains(name) || name == found.last()) by {
                if first.contains(name) {
                    let k = choose|k: int| 0 <= k < first.len() && first[k] == name;
                    assert(found[k] == name);
                }
                assert(found[found.len() - 1] == found.last());
            }
            if !before.contains(found.last()) {
                assert(after =~= before.push(found.last()));
                if before.contains(name) {
                    let k = choose|k: int| 0 <= k < before.len() && before[k] == name;
                    assert(after[k] == name);
                }
                assert(after[after.len() - 1] == found.last());
            }
        }
    }
}

/// Merging makes nothing known twice.
pub proof fn law_merging_keeps_names_distinct(known: Seq<Seq<char>>, found: Seq<Seq<char>>)
    requires
        known.no_duplicates(),
    ensures
        merged(known, found).no_duplicates(),
    decreases found.len(),
{
    if found.len() > 0 {
        law_merging_keeps_names_distinct(known, found.drop_last());
    }
}

/// Merging what is known already changes nothing; so merging twice is merging
/// once.
pub proof fn law_merging_twice_is_merging_once(known: Seq<Seq<char>>, found: Seq<Seq<char>>)
    ensures
        merged(merged(known, found), found) == merged(known, found),
{
    law_merging_adds_what_was_found(known, found);
    lemma_merging_known(merged(known, found), found);
}

proof fn lemma_merging_known(known: Seq<Seq<char>>, found: Seq<Seq<char>>)
    requires
        forall|i: int| 0 <= i < found.len() ==> known.contains(#[trigger] found[i]),
    ensures
        merged(known, found) == known,
    decreases found.len(),
{
    if found.len() > 0 {
        let first = found.drop_last();
        assert forall|i: int| 0 <= i < first.len() implies known.contains(#[trigger] first[i]) by {
            assert(first[i] == found[i]);
        }
        lemma_merging_known(known, first);
        assert(known.contains(found[found.len() - 1]));
    }
}

/// The inside of a git repository is not stored, wherever the repository lies and
/// however deep in it a file: nothing with a directory `.git` above it, and nothing
/// that is itself called so.
pub proof fn law_insides_of_repositories_are_not_stored(
    entry: WalkEntry,
    dir: Seq<char>,
    rest: Seq<char>,
)
    requires
        ({
            ||| entry.path@ == dir + "/.git/"@ + rest
            ||| entry.path@ == ".git/"@ + rest
            ||| entry.path@ == dir + "/.git"@
            ||| entry.path@ == ".git"@
        }),
    ensures
        stored_name(entry) is None,
{
    reveal_strlit("/.git/");
    reveal_strlit(".git/");
    reveal_strlit("/.git");
    reveal_strlit(".git");
    let none = Seq::<char>::empty();
    let above = dir.push('/');
    let below = seq!['/'] + rest;
    let path = entry.path@;
    if path == dir + "/.git/"@ + rest {
        assert(path =~= above + ".git"@ + below);
        assert(beside(above, below));
    } else if path == ".git/"@ + rest {
        assert(path =~= none + ".git"@ + below);
        assert(beside(none, below));
    } else if path == dir + "/.git"@ {
        assert(path =~= above + ".git"@ + none);
        assert(beside(above, none));
    } else {
        assert(path =~= none + ".git"@ + none);
        assert(beside(none, none));
    }
    assert(stands_in(path, ".git"@));
    assert(!".git"@.contains('/'));
    law_pieces_are_what_stands_between_slashes(path, ".git"@);
}

/// Every other file below the upload is stored under its path there: where nothing
/// called `.git` stands in the path between slashes, at its start or at its end, the
/// name is that path, whole and unchanged. What is no file, or lies elsewhere, is not
/// stored.
pub proof fn law_files_are_stored_under_their_paths(entry: WalkEntry)
    ensures
        entry.relative matches Some(relative) ==> (entry.is_file && !stands_in(
            entry.path@,
            ".git"@,
        ) ==> stored_name(entry) == Some(relative@)),
        !entry.is_file || entry.relative is None ==> stored_name(entry) is None,
        stored_name(entry) matches Some(name) ==> (entry.relative matches Some(relative) && name
            == relative@),
{
    reveal_strlit(".git");
    assert(!".git"@.contains('/'));
    law_pieces_are_what_stands_between_slashes(entry.path@, ".git"@);
}

/// A file of an upload is first written below the directory of that upload: under
/// what follows `files:` in the name of its field, under its file name where the
/// field is called otherwise or not at all, and as `unnamed` where it has none.
pub proof fn law_fields_are_named(path: Seq<char>, field: Seq<char>, filename: Seq<char>)
    ensures
        field_path(Some("files:"@ + path), Some(filename)) == path,
        field_path(Some("files:"@ + path), None) == path,
        field_path(None, Some(filename)) == filename,
        field_path(None, None) == "unnamed"@,
        field.len() < 6 || field.take(6) != "files:"@ ==> field_path(Some(field), Some(filename))
            == filename && field_path(Some(field), None) == "unnamed"@,
{
    reveal_strlit("files:");
    crate::text::law_prefix_comes_off_as_it_was_put_on("files:"@, path, field);
}

/// Every upload has a directory of its own, below the one for what is not kept, and
/// starts with nothing found and nothing stored.
pub proof fn law_uploads_are_kept_apart(id: u64, other: u64)
    ensures
        new_upload(id).tmp_base == "uploads/.tmp/tmp-"@ + decimal(id as nat),
        id != other ==> new_upload(id).tmp_base != new_upload(other).tmp_base,
        new_upload(id).repos.len() == 0,
        new_upload(id).saved.len() == 0,
{
    if new_upload(id).tmp_base == new_upload(other).tmp_base {
        let start = "uploads/.tmp/tmp-"@;
        assert(decimal(id as nat) =~= (start + decimal(id as nat)).skip(start.len() as int));
        assert(decimal(other as nat) =~= (start + decimal(other as nat)).skip(start.len() as int));
        crate::text::law_numbers_have_different_notations(id as nat, other as nat);
    }
}

/// The repositories of an upload are the upload itself, where it is one, named by a
/// dot and first of all, and behind it every directory in it that is one, by its
/// name and in the order of the entries. Taking an entry in adds its name or nothing.
pub proof fn law_repositories_are_found(root_has_git: bool, entries: Seq<TopEntry>, last: TopEntry)
    ensures
        repos_of(false, seq![]) == Seq::<Seq<char>>::empty(),
        repos_of(true, seq![]) == seq!["."@],
        last.is_dir && last.has_git ==> repos_of(root_has_git, entries.push(last)) == repos_of(
            root_has_git,
            entries,
        ).push(last.name@),
        !last.is_dir || !last.has_git ==> repos_of(root_has_git, entries.push(last)) == repos_of(
            root_has_git,
            entries,
        ),
{
    reveal(Seq::filter);
    let all = entries.push(last);
    assert(all.drop_last() =~= entries);
    assert(repos_among(seq![]) =~= seq![]);
    assert(repos_of(true, seq![]) =~= seq!["."@]);
    assert(repos_of(false, seq![]) =~= seq![]);
    if last.is_dir && last.has_git {
        assert(repos_among(all) =~= repos_among(entries).push(last.name@));
        assert(repos_of(root_has_git, all) =~= repos_of(root_has_git, entries).push(last.name@));
    }
}

/// Merging keeps what is known in its place and adds behind it, in the order in which
/// they were found and once each, the names that were not known.
pub proof fn law_merging_adds_each_new_name_at_the_end(
    known: Seq<Seq<char>>,
    found: Seq<Seq<char>>,
    last: Seq<char>,
)
    ensures
        merged(known, seq![]) == known,
        known.contains(last) || found.contains(last) ==> merged(known, found.push(last)) == merged(
            known,
            found,
        ),
        !known.contains(last) && !found.contains(last) ==> merged(known, found.push(last))
            == merged(known, found).push(last),
{
    law_merging_adds_what_was_found(known, found);
    assert(found.push(last).drop_last() =~= found);
}

/// What was remembered is what was written, and nothing where nothing could be read.
pub proof fn law_repositories_are_remembered(meta: UploadMeta)
    ensures
        known_repos(None) == Seq::<Seq<char>>::empty(),
        known_repos(Some(meta)).len() == meta.git_repos@.len(),
        forall|i: int|
            0 <= i < meta.git_repos@.len() ==> #[trigger] known_repos(Some(meta))[i]
                == meta.git_repos@[i]@,
{
}

/// A file that could be read and encrypted is written where a request to download it
/// by its name reads, and is reported by that name behind those stored before it. One
/// that could not is neither written nor reported. Nothing else of the upload changes.
pub proof fn law_stored_files_are_written_and_reported(
    upload: UploadView,
    name: Seq<char>,
    key: Seq<u8>,
    nonce: Seq<u8>,
    data: Seq<u8>,
    stored: Seq<u8>,
)
    ensures
        kept(name, Some(stored)) == Some(StoredView { path: "uploads/"@ + name, data: stored }),
        kept(name, None) is None,
        after_keeping(upload, name, Some(stored)) == (UploadView {
            tmp_base: upload.tmp_base,
            repos: upload.repos,
            saved: upload.saved + seq![name],
        }),
        after_keeping(upload, name, None) == upload,
        sealed_read(key, nonce, None) is None,
        sealed_read(key, nonce, Some(data)) == sealed(key, nonce, data),
{
    assert(upload.saved.push(name) =~= upload.saved + seq![name]);
}

/// The upload as a whole lies in its own directory and its page is called by a fixed
/// name; any other repository lies below that directory under its name, which its page
/// bears too.
pub proof fn law_repositories_have_their_pages(tmp_base: Seq<char>, repo: Seq<char>)
    ensures
        repo_location(tmp_base, "."@) == tmp_base,
        flat_name("."@) == "repo_flat.html"@,
        repo != "."@ ==> repo_location(tmp_base, repo) == tmp_base.push('/') + repo,
        repo != "."@ ==> flat_name(repo) == repo + "_flat.html"@,
        MAX_FLAT_BYTES == 51200,
{
    reveal_strlit("/");
    assert(tmp_base + "/"@ =~= tmp_base.push('/'));
}

/// What is seen of an upload, and of what is to be written, is all of it.
pub proof fn law_uploads_are_seen_as_they_are(upload: Upload, file: StoredFile, text: &str)
    ensures
        upload@.tmp_base == upload.tmp_base@,
        upload@.repos == Seq::new(upload.repos@.len(), |i: int| upload.repos@[i]@),
        upload@.saved == Seq::new(upload.saved@.len(), |i: int| upload.saved@[i]@),
        stored_view(Some(file)) == Some(StoredView { path: file.path@, data: file.data@ }),
        stored_view(None) is None,
        opt_str(Some(text)) == Some(text@),
        opt_str(None) is None,
{
    assert(upload@.repos =~= Seq::new(upload.repos@.len(), |i: int| upload.repos@[i]@));
    assert(upload@.saved =~= Seq::new(upload.saved@.len(), |i: int| upload.saved@[i]@));
}

/// Under which name a file of an upload is stored, if at all: under its path below the
/// upload, unless something called `.git` stands in its path between slashes.
pub proof fn law_name_to_store_is_the_path_below_the_upload(entry: WalkEntry, name: Option<String>)
    requires
        call_ensures(name_to_store, (&entry,), name),
    ensures
        name is Some <==> entry.is_file && entry.relative is Some && !stands_in(
            entry.path@,
            ".git"@,
        ),
        name matches Some(found) ==> (entry.relative matches Some(relative) && found@
            == relative@),
{
    reveal_strlit(".git");
    assert(!".git"@.contains('/'));
    law_pieces_are_what_stands_between_slashes(entry.path@, ".git"@);
}

/// An upload writes its files below its own directory, keeps its repositories there,
/// and reports in the end just the files it stored, in the order in which it did.
pub proof fn law_upload_reports_what_it_stored(
    upload: Upload,
    id: u64,
    fresh: Upload,
    field: Option<&str>,
    filename: Option<&str>,
    path: String,
    repo: &str,
    dir: String,
    url: String,
    reply: Reply,
)
    requires
        call_ensures(Upload::new, (id,), fresh),
        call_ensures(Upload::field_path, (&upload, field, filename), path),
        call_ensures(Upload::repo_dir, (&upload, repo), dir),
        call_ensures(flat_url, (repo,), url),
        call_ensures(Upload::finish, (upload,), reply),
    ensures
        fresh.tmp_base@ == "uploads/.tmp/tmp-"@ + decimal(id as nat),
        fresh.repos@.len() == 0,
        fresh.saved@.len() == 0,
        path@ == upload.tmp_base@.push('/') + field_path(opt_str(field), opt_str(filename)),
        repo@ == "."@ ==> dir@ == upload.tmp_base@,
        repo@ != "."@ ==> dir@ == upload.tmp_base@.push('/') + repo@,
        url@ == "file://"@ + repo@,
        reply.status == Status::Success,
        reply.body matches Body::Saved(files) && files@.len() == upload.saved@.len() && (
        forall|i: int| 0 <= i < files@.len() ==> (#[trigger] files@[i])@ == upload.saved@[i]@),
{
    reveal_strlit("/");
    assert(upload@.tmp_base + "/"@ =~= upload@.tmp_base.push('/'));
    assert(fresh@.repos.len() == fresh.repos@.len());
    assert(fresh@.saved.len() == fresh.saved@.len());
    if let Body::Saved(files) = reply.body {
        assert(texts(files@).len() == files@.len());
        assert(upload@.saved.len() == upload.saved@.len());
        assert forall|i: int| 0 <= i < files@.len() implies (#[trigger] files@[i])@
            == upload.saved@[i]@ by {
            assert(texts(files@)[i] == files@[i]@);
            assert(upload@.saved[i] == upload.saved@[i]@);
        }
    }
}

/// A file that was read is written where a request to download it by its name reads,
/// opens to what was read, and is reported by that name; so is the page of a
/// repository, by the name of its page. What could not be read is neither written nor
/// reported.
pub proof fn law_what_was_read_is_stored(
    upload: &mut Upload,
    key: EncryptionKey,
    name: String,
    data: Vec<u8>,
    file: Option<StoredFile>,
)
    requires
        encryptable(data@.len()),
        call_ensures(Upload::store, (upload, &key, name, Some(data)), file),
    ensures
        file matches Some(stored) && stored.path@ == "uploads/"@ + name@ && opened(
            key@,
            stored.data@,
        ) == Ok::<Seq<u8>, OpenError>(data@) && stored.data@.len() == 12 + data@.len() + 16,
        texts(final(upload).saved@) == texts(old(upload).saved@).push(name@),
        final(upload).tmp_base@ == old(upload).tmp_base@,
        texts(final(upload).repos@) == texts(old(upload).repos@),
{
    assert(final(upload)@ == (UploadView { saved: old(upload)@.saved.push(name@), ..old(upload)@ }));
}

/// As [`law_what_was_read_is_stored`], for a nonce that is given: what is written is
/// the nonce, and behind it the ciphertext of what was read under it.
pub proof fn law_what_was_read_is_stored_under_a_nonce(
    upload: &mut Upload,
    key: EncryptionKey,
    nonce: [u8; 12],
    name: String,
    data: Vec<u8>,
    file: Option<StoredFile>,
)
    requires
        encryptable(data@.len()),
        call_ensures(Upload::store_with, (upload, &key, &nonce, name, Some(data)), file),
    ensures
        file matches Some(stored) && stored.path@ == "uploads/"@ + name@ && stored.data@.take(12)
            == nonce@ && opened(key@, stored.data@) == Ok::<Seq<u8>, OpenError>(data@),
        texts(final(upload).saved@) == texts(old(upload).saved@).push(name@),
        final(upload).tmp_base@ == old(upload).tmp_base@,
        texts(final(upload).repos@) == texts(old(upload).repos@),
{
    crate::cipher::law_nonce_stands_before_the_ciphertext(key@, nonce@, data@);
    assert(stored_view(file) is Some);
    assert(final(upload)@ == after_keeping(
        old(upload)@,
        name@,
        sealed(key@, nonce@, data@),
    ));
}

/// What could not be read, or made, is passed over: nothing is written, and the upload
/// stays as it is.
pub proof fn law_what_was_not_read_is_passed_over(
    upload: &mut Upload,
    page: &mut Upload,
    key: EncryptionKey,
    name: String,
    repo: &str,
    file: Option<StoredFile>,
    flat: Option<StoredFile>,
)
    requires
        call_ensures(Upload::store, (upload, &key, name, None), file),
        call_ensures(Upload::store_flat, (page, &key, repo, None), flat),
    ensures
        file is None,
        flat is None,
        final(upload)@ == old(upload)@,
        final(page)@ == old(page)@,
{
}

/// The page of a repository is written where a request to download it by its name
/// reads, opens to the page, and is reported by that name: the name of the repository
/// and a fixed ending, or a fixed name where the upload itself is the repository.
pub proof fn law_page_of_a_repository_is_stored(
    upload: &mut Upload,
    key: EncryptionKey,
    repo: &str,
    page: String,
    file: Option<StoredFile>,
)
    requires
        encryptable(vstd::utf8::encode_utf8(page@).len()),
        call_ensures(Upload::store_flat, (upload, &key, repo, Some(page)), file),
    ensures
        ({
            let name = if repo@ == "."@ {
                "repo_flat.html"@
            } else {
                repo@ + "_flat.html"@
            };
            &&& file matches Some(stored) && stored.path@ == "uploads/"@ + name && opened(
                key@,
                stored.data@,
            ) == Ok::<Seq<u8>, OpenError>(vstd::utf8::encode_utf8(page@))
            &&& texts(final(upload).saved@) == texts(old(upload).saved@).push(name)
        }),
        final(upload).tmp_base@ == old(upload).tmp_base@,
        texts(final(upload).repos@) == texts(old(upload).repos@),
{
    assert(final(upload)@ == (UploadView {
        saved: old(upload)@.saved.push(flat_name(repo@)),
        ..old(upload)@
    }));
}

/// The repositories found are noted, every directory among the entries that holds one
/// by its name and the upload itself by a dot, and they are remembered behind what was
/// remembered before; the files stored are not touched.
pub proof fn law_repositories_found_are_remembered(
    upload: &mut Upload,
    root_has_git: bool,
    entries: Vec<TopEntry>,
    after: Upload,
    stored: Option<UploadMeta>,
    meta: UploadMeta,
    name: Seq<char>,
)
    requires
        call_ensures(Upload::find_repos, (upload, root_has_git, &entries), ()),
        after == *final(upload),
        call_ensures(Upload::updated_meta, (&after, stored), meta),
    ensures
        texts(final(upload).repos@).contains(name) <==> (root_has_git && name == "."@) || exists|
            i: int,
        |
            0 <= i < entries@.len() && (#[trigger] entries@[i]).name@ == name && entries@[i].is_dir
                && entries@[i].has_git,
        texts(meta.git_repos@).contains(name) <==> known_repos(stored).contains(name) || texts(
            final(upload).repos@,
        ).contains(name),
        known_repos(stored).is_prefix_of(texts(meta.git_repos@)),
        texts(final(upload).saved@) == texts(old(upload).saved@),
        final(upload).tmp_base@ == old(upload).tmp_base@,
{
    assert(final(upload)@ == (UploadView {
        repos: repos_of(root_has_git, entries@),
        ..old(upload)@
    }));
    lemma_repos_contain(root_has_git, entries@, name);
    law_merging_adds_what_was_found(known_repos(stored), after@.repos);
}

/// Which names are among the repositories of an upload.
proof fn lemma_repos_contain(root_has_git: bool, entries: Seq<TopEntry>, name: Seq<char>)
    ensures
        repos_of(root_has_git, entries).contains(name) <==> (root_has_git && name == "."@) || exists|
            i: int,
        |
            0 <= i < entries.len() && (#[trigger] entries[i]).name@ == name && entries[i].is_dir
                && entries[i].has_git,
    decreases entries.len(),
{
    if entries.len() == 0 {
        law_repositories_are_found(
            root_has_git,
            entries,
            TopEntry { name: arbitrary(), is_dir: false, has_git: false },
        );
        assert(entries =~= seq![]);
        if root_has_git {
            assert(seq!["."@][0] == "."@);
        }
    } else {
        let rest = entries.drop_last();
        let last = entries.last();
        let before = repos_of(root_has_git, rest);
        let all = repos_of(root_has_git, entries);
        lemma_repos_contain(root_has_git, rest, name);
        law_repositories_are_found(root_has_git, rest, last);
        assert(rest.push(last) =~= entries);
        assert(forall|i: int| 0 <= i < rest.len() ==> rest[i] == #[trigger] entries[i]);
        if exists|i: int|
            0 <= i < rest.len() && (#[trigger] rest[i]).name@ == name && rest[i].is_dir
                && rest[i].has_git {
            let i = choose|i: int|
                0 <= i < rest.len() && (#[trigger] rest[i]).name@ == name && rest[i].is_dir
                    && rest[i].has_git;
            assert(entries[i].name@ == name);
        }
        if last.is_dir && last.has_git {
            assert(all == before.push(last.name@));
            assert(all[all.len() - 1] == last.name@);
            assert(entries[entries.len() - 1] == last);
            if before.contains(name) {
                let k = choose|k: int| 0 <= k < before.len() && before[k] == name;
                assert(all[k] == name);
            }
        }
        if exists|i: int|
            0 <= i < entries.len() && (#[trigger] entries[i]).name@ == name && entries[i].is_dir
                && entries[i].has_git {
            let i = choose|i: int|
                0 <= i < entries.len() && (#[trigger] entries[i]).name@ == name
                    && entries[i].is_dir && entries[i].has_git;
            if i < rest.len() {
                assert(rest[i].name@ == name);
            }
        }
    }
}

} // verus!
