//! The uploaded files, listed.
use super::download::{upload_request, DownloadView};
use super::session::{permission, require_user};
use super::upload::{
    known_repos, law_merging_adds_what_was_found, merged, UploadView, WalkEntry,
};
use crate::layout::{is_listed, law_four_beginnings_are_not_shown, listed, upload_location};
use crate::models::{FileListResponse, UploadMeta};
use crate::reply::{Body, BodyView, Reply, ReplyView, Status};
use crate::sessions::{header_view, Sessions};
use crate::sort::{
    is_sorting, law_equal_items_are_sorted_equally, law_sorting_keeps_the_items,
    law_sorting_keeps_the_number, lemma_texts_are_sorted, sort_by_name,
};
use crate::text::texts;
use vstd::prelude::*;

verus! {

/// A list of the uploaded files under way.
#[derive(Debug, PartialEq, Eq)]
pub struct Listing {
    pub files: Vec<String>,
}

/// The name under which an entry of the uploads is listed: it has to be a file
/// that is shown to the user.
pub open spec fn listed_name(entry: WalkEntry) -> Option<Seq<char>> {
    match entry.relative {
        Some(relative) => if entry.is_file && is_listed(relative@) {
            Some(relative@)
        } else {
            None
        },
        None => None,
    }
}

/// The list after an entry was met.
pub open spec fn after_entry(files: Seq<Seq<char>>, entry: WalkEntry) -> Seq<Seq<char>> {
    match listed_name(entry) {
        Some(name) => files.push(name),
        None => files,
    }
}

/// The list after the given entries were met, one after the other.
pub open spec fn after_entries(entries: Seq<WalkEntry>) -> Seq<Seq<char>>
    decreases entries.len(),
{
    if entries.len() == 0 {
        seq![]
    } else {
        after_entry(after_entries(entries.drop_last()), entries.last())
    }
}

/// Whether there is a file of the given name among the entries of the uploads.
pub open spec fn has_file(entries: Seq<WalkEntry>, name: Seq<char>) -> bool {
    exists|i: int| 0 <= i < entries.len() && is_file_named(#[trigger] entries[i], name)
}

/// Whether an entry of the uploads is a file of the given name.
pub open spec fn is_file_named(entry: WalkEntry, name: Seq<char>) -> bool {
    entry.is_file && (entry.relative matches Some(relative) && relative@ == name)
}

/// Whether an answer lists the given files in order, beside the repositories.
pub open spec fn answers_listing(
    reply: ReplyView,
    files: Seq<Seq<char>>,
    git_repos: Seq<Seq<char>>,
) -> bool {
    &&& reply.status == Status::Success
    &&& reply.body matches BodyView::Files { files: listed_files, git_repos: listed_repos }
        && is_sorting(listed_files, files) && listed_repos == git_repos
}

/// Starts a list of the uploaded files.
pub fn list_files(header: Option<&[u8]>, sessions: &Sessions) -> (result: Result<Listing, Reply>)
    ensures
        match result {
            Ok(listing) => {
                &&& permission(sessions@, header_view(header)) is Ok
                &&& listing.files@.len() == 0
            },
            Err(reply) => permission(sessions@, header_view(header)) == Err::<(), ReplyView>(
                reply@,
            ),
        },
{
    if let Err(reply) = require_user(header, sessions) {
        return Err(reply);
    }
    Ok(Listing { files: Vec::new() })
}

impl Listing {
    /// Takes in an entry of the uploads.
    pub fn visit(&mut self, entry: &WalkEntry)
        ensures
            texts(final(self).files@) == after_entry(texts(old(self).files@), *entry),
    {
        if !entry.is_file {
            return;
        }
        if let Some(relative) = &entry.relative {
            if listed(relative) {
                let ghost before = self.files@;
                let name = relative.clone();
                self.files.push(name);
                assert(texts(self.files@) =~= texts(before).push(relative@));
            }
        }
    }

    /// Answers with the files in order, and with the repositories remembered,
    /// where they could be read.
    pub fn finish(self, meta: Option<UploadMeta>) -> (reply: Reply)
        ensures
            answers_listing(reply@, texts(self.files@), known_repos(meta)),
    {
        let git_repos = match meta {
            Some(meta) => meta.git_repos,
            None => {
                let none: Vec<String> = Vec::new();
                assert(texts(none@) =~= seq![]);
                none
            },
        };
        let ghost found = self.files@;
        let files = sort_by_name(self.files);
        proof {
            lemma_texts_are_sorted(files@, found);
        }
        Reply::ok(Body::Files(FileListResponse { files, git_repos }))
    }
}

/// The same files and repositories give the same answer, whatever else may differ
/// between two lists.
pub proof fn law_equal_files_are_listed_equally(
    first: ReplyView,
    second: ReplyView,
    files: Seq<Seq<char>>,
    git_repos: Seq<Seq<char>>,
)
    requires
        answers_listing(first, files, git_repos),
        answers_listing(second, files, git_repos),
    ensures
        first == second,
{
    law_equal_items_are_sorted_equally(first.body->files, second.body->files, files);
}

/// Every file that is listed can be downloaded under the name by which it is
/// listed.
pub proof fn law_listed_files_can_be_downloaded(
    sessions: Map<Seq<char>, Seq<char>>,
    header: Option<Seq<u8>>,
    entry: WalkEntry,
    name: Seq<char>,
)
    requires
        permission(sessions, header) is Ok,
        listed_name(entry) == Some(name),
        name.len() > 0,
    ensures
        upload_request(sessions, header, Some(name)) == Ok::<DownloadView, ReplyView>(
            DownloadView { file_name: name, file_path: upload_location(name) },
        ),
{
}

/// The files met are those among the entries that are shown to the user.
proof fn lemma_files_met(entries: Seq<WalkEntry>, name: Seq<char>)
    ensures
        after_entries(entries).contains(name) <==> is_listed(name) && has_file(entries, name),
    decreases entries.len(),
{
    if entries.len() > 0 {
        let rest = entries.drop_last();
        let before = after_entries(rest);
        let met = after_entries(entries);
        lemma_files_met(rest, name);
        assert(has_file(entries, name) <==> has_file(rest, name) || is_file_named(
            entries.last(),
            name,
        )) by {
            if has_file(rest, name) {
                let i = choose|i: int|
                    0 <= i < rest.len() && is_file_named(#[trigger] rest[i], name);
                assert(is_file_named(entries[i], name));
            }
            if has_file(entries, name) {
                let i = choose|i: int|
                    0 <= i < entries.len() && is_file_named(#[trigger] entries[i], name);
                if i < rest.len() {
                    assert(is_file_named(rest[i], name));
                }
            }
            if is_file_named(entries.last(), name) {
                assert(is_file_named(entries[entries.len() - 1], name));
            }
        }
        if let Some(last) = listed_name(entries.last()) {
            assert(met =~= before.push(last));
            assert(met.contains(name) <==> before.contains(name) || name == last) by {
                if before.contains(name) {
                    let k = choose|k: int| 0 <= k < before.len() && before[k] == name;
                    assert(met[k] == name);
                }
                assert(met[met.len() - 1] == last);
            }
        }
    }
}

/// What an upload stored is listed afterwards, and nothing else is new. Where the
/// files that can be shown are those that were there before and those that the
/// upload stored, the list shows the names it showed before and those of the stored
/// files that are shown at all; and it names the repositories it named before and
/// those that were found in the upload.
pub proof fn law_stored_files_are_listed(
    before: Seq<WalkEntry>,
    after: Seq<WalkEntry>,
    upload: UploadView,
    known: Seq<Seq<char>>,
    first: ReplyView,
    second: ReplyView,
)
    requires
        forall|name: Seq<char>|
            is_listed(name) ==> (#[trigger] has_file(after, name) <==> has_file(before, name)
                || upload.saved.contains(name)),
        answers_listing(first, after_entries(before), known),
        answers_listing(second, after_entries(after), merged(known, upload.repos)),
    ensures
        forall|name: Seq<char>| #[trigger]
            second.body->files.contains(name) <==> first.body->files.contains(name) || (
            upload.saved.contains(name) && is_listed(name)),
        forall|repo: Seq<char>| #[trigger]
            second.body->git_repos.contains(repo) <==> first.body->git_repos.contains(repo)
                || upload.repos.contains(repo),
        first.body->git_repos.is_prefix_of(second.body->git_repos),
{
    law_sorting_keeps_the_items(first.body->files, after_entries(before));
    law_sorting_keeps_the_items(second.body->files, after_entries(after));
    law_merging_adds_what_was_found(known, upload.repos);
    assert forall|name: Seq<char>| #[trigger]
        second.body->files.contains(name) <==> first.body->files.contains(name) || (
        upload.saved.contains(name) && is_listed(name)) by {
        lemma_files_met(before, name);
        lemma_files_met(after, name);
        assert(after_entries(after).contains(name) <==> second.body->files.contains(name));
        assert(after_entries(before).contains(name) <==> first.body->files.contains(name));
        assert(is_listed(name) ==> (has_file(after, name) <==> has_file(before, name)
            || upload.saved.contains(name)));
    }
}

/// A list holds every file below the uploads, however deep it lies, whose path does
/// not begin with one of four texts, and it holds nothing else; no file is listed more
/// often than it was met.
pub proof fn law_every_file_is_listed_whatever_its_depth(
    entries: Seq<WalkEntry>,
    reply: ReplyView,
    git_repos: Seq<Seq<char>>,
    name: Seq<char>,
    rest: Seq<char>,
)
    requires
        answers_listing(reply, after_entries(entries), git_repos),
    ensures
        reply.status == Status::Success,
        reply.body->git_repos == git_repos,
        reply.body->files.contains(name) ==> has_file(entries, name),
        has_file(entries, name) && (name.len() < 8 || name.take(8) != "incoming"@) && (name.len()
            < 5 || name.take(5) != "/.tmp"@) && (name.len() < 4 || name.take(4) != ".tmp"@) && (
        name.len() < 15 || name.take(15) != ".nearshare-meta"@) ==> reply.body->files.contains(
            name,
        ),
        !reply.body->files.contains("incoming"@ + rest),
        !reply.body->files.contains("/.tmp"@ + rest),
        !reply.body->files.contains(".tmp"@ + rest),
        !reply.body->files.contains(".nearshare-meta"@ + rest),
        reply.body->files.len() <= entries.len(),
{
    law_four_beginnings_are_not_shown(name, rest);
    law_sorting_keeps_the_items(reply.body->files, after_entries(entries));
    law_sorting_keeps_the_number(reply.body->files, after_entries(entries));
    lemma_files_met(entries, name);
    lemma_files_met(entries, "incoming"@ + rest);
    lemma_files_met(entries, "/.tmp"@ + rest);
    lemma_files_met(entries, ".tmp"@ + rest);
    lemma_files_met(entries, ".nearshare-meta"@ + rest);
    lemma_no_more_files_than_entries(entries);
    assert(after_entries(entries).contains(name) <==> reply.body->files.contains(name));
}

/// An entry adds at most one file.
proof fn lemma_no_more_files_than_entries(entries: Seq<WalkEntry>)
    ensures
        after_entries(entries).len() <= entries.len(),
    decreases entries.len(),
{
    if entries.len() > 0 {
        lemma_no_more_files_than_entries(entries.drop_last());
    }
}

/// Meeting an entry adds the path of a file that is shown, whole and unchanged, behind
/// those met before, and anything else adds nothing.
pub proof fn law_entries_add_their_paths(
    files: Seq<Seq<char>>,
    entry: WalkEntry,
    rest: Seq<char>,
)
    ensures
        entry.relative matches Some(relative) ==> (entry.is_file && (relative@.len() < 8
            || relative@.take(8) != "incoming"@) && (relative@.len() < 5 || relative@.take(5)
            != "/.tmp"@) && (relative@.len() < 4 || relative@.take(4) != ".tmp"@) && (
        relative@.len() < 15 || relative@.take(15) != ".nearshare-meta"@) ==> after_entry(
            files,
            entry,
        ) == files.push(relative@)),
        !entry.is_file || entry.relative is None ==> after_entry(files, entry) == files,
        entry.relative matches Some(relative) && ({
            ||| relative@ == "incoming"@ + rest
            ||| relative@ == "/.tmp"@ + rest
            ||| relative@ == ".tmp"@ + rest
            ||| relative@ == ".nearshare-meta"@ + rest
        }) ==> after_entry(files, entry) == files,
{
    match entry.relative {
        Some(relative) => law_four_beginnings_are_not_shown(relative@, rest),
        None => {},
    }
}

/// A list that was made of some files shows just those, each as often as it was met and
/// letter for letter, beside the repositories that were remembered.
pub proof fn law_list_shows_the_files_met(
    listing: Listing,
    meta: UploadMeta,
    reply: Reply,
    bare_reply: Reply,
)
    requires
        call_ensures(Listing::finish, (listing, Some(meta)), reply),
        call_ensures(Listing::finish, (listing, None), bare_reply),
    ensures
        reply.status == Status::Success,
        reply.body matches Body::Files(response) && texts(response.files@).to_multiset() == texts(
            listing.files@,
        ).to_multiset() && texts(response.git_repos@) == texts(meta.git_repos@),
        bare_reply.status == Status::Success,
        bare_reply.body matches Body::Files(response) && texts(response.files@).to_multiset()
            == texts(listing.files@).to_multiset() && response.git_repos@.len() == 0,
{
    law_sorting_keeps_the_number(reply@.body->files, texts(listing.files@));
    law_sorting_keeps_the_number(bare_reply@.body->files, texts(listing.files@));
    if let Body::Files(response) = bare_reply.body {
        assert(texts(response.git_repos@).len() == response.git_repos@.len());
    }
}

/// An entry that is met adds its path to the list, whole, where it is a file that is
/// shown, and leaves the list as it is where it is not.
pub proof fn law_entry_met_is_added(listing: &mut Listing, entry: WalkEntry, rest: Seq<char>)
    requires
        call_ensures(Listing::visit, (listing, &entry), ()),
    ensures
        entry.relative matches Some(relative) ==> (entry.is_file && (relative@.len() < 8
            || relative@.take(8) != "incoming"@) && (relative@.len() < 5 || relative@.take(5)
            != "/.tmp"@) && (relative@.len() < 4 || relative@.take(4) != ".tmp"@) && (
        relative@.len() < 15 || relative@.take(15) != ".nearshare-meta"@) ==> texts(
            final(listing).files@,
        ) == texts(old(listing).files@).push(relative@)),
        !entry.is_file || entry.relative is None ==> texts(final(listing).files@) == texts(
            old(listing).files@,
        ),
        entry.relative matches Some(relative) ==> ((relative@ == "incoming"@ + rest || relative@
            == "/.tmp"@ + rest || relative@ == ".tmp"@ + rest || relative@ == ".nearshare-meta"@
            + rest) ==> texts(final(listing).files@) == texts(old(listing).files@)),
{
    law_entries_add_their_paths(texts(old(listing).files@), entry, rest);
}

} // verus!
