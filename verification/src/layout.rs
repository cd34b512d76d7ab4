//! Where files are kept.
use crate::path::{law_path_starts_with_its_first_piece, split};
use crate::text::{join_texts, same_text, starts_with};
use vstd::prelude::*;

verus! {

/// Where an uploaded file is stored.
pub open spec fn upload_location(name: Seq<char>) -> Seq<char> {
    "uploads/"@ + name
}

/// Where a file from a peer is stored.
pub open spec fn incoming_location(peer: Seq<char>, name: Seq<char>) -> Seq<char> {
    "uploads/incoming/"@ + peer + "/"@ + name
}

/// Where the chunks from a peer are gathered.
pub open spec fn gathering_dir(peer: Seq<char>) -> Seq<char> {
    "uploads/incoming/.tmp/"@ + peer
}

/// Where the chunks of a file from a peer are gathered.
pub open spec fn gathering_location(peer: Seq<char>, name: Seq<char>) -> Seq<char> {
    gathering_dir(peer) + "/"@ + name
}

/// Whether a file below the uploads is shown to the user: it neither came from a
/// peer nor is kept for the server's own use.
pub open spec fn is_listed(name: Seq<char>) -> bool {
    &&& !"incoming"@.is_prefix_of(name)
    &&& !"/.tmp"@.is_prefix_of(name)
    &&& !".tmp"@.is_prefix_of(name)
    &&& !".nearshare-meta"@.is_prefix_of(name)
}

/// What an entry of a directory is.
#[derive(Clone, Copy, Debug, PartialEq, Eq)]
pub enum EntryKind {
    File,
    Dir,
    Other,
}

/// What is done to an entry when the uploads are cleared.
#[derive(Clone, Copy, Debug, PartialEq, Eq)]
pub enum ClearAction {
    Keep,
    RemoveFile,
    /// Remove the directory and everything in it.
    RemoveDir,
}

/// Whether an entry of the uploads outlives the clearing whatever it is: the
/// files from peers do.
pub open spec fn is_spared(name: Seq<char>) -> bool {
    name == "incoming"@
}

/// What is done to an entry of the uploads when they are cleared.
pub open spec fn clear_action(name: Seq<char>, kind: EntryKind) -> ClearAction {
    if is_spared(name) {
        ClearAction::Keep
    } else {
        match kind {
            EntryKind::File => ClearAction::RemoveFile,
            EntryKind::Dir => ClearAction::RemoveDir,
            EntryKind::Other => ClearAction::Keep,
        }
    }
}

/// Where an uploaded file is stored.
pub fn upload_path(name: &str) -> (path: String)
    ensures
        path@ == upload_location(name@),
{
    join_texts("uploads/", name)
}

/// Where a file from a peer is stored.
pub fn incoming_path(peer: &str, name: &str) -> (path: String)
    ensures
        path@ == incoming_location(peer@, name@),
{
    let dir = join_texts("uploads/incoming/", peer);
    join_texts(&join_texts(&dir, "/"), name)
}

/// Where the chunks from a peer are gathered.
pub fn gathering_dir_path(peer: &str) -> (path: String)
    ensures
        path@ == gathering_dir(peer@),
{
    join_texts("uploads/incoming/.tmp/", peer)
}

/// Where the chunks of a file from a peer are gathered.
pub fn gathering_path(peer: &str, name: &str) -> (path: String)
    ensures
        path@ == gathering_location(peer@, name@),
{
    let dir = gathering_dir_path(peer);
    join_texts(&join_texts(&dir, "/"), name)
}

/// The directory of the uploads.
pub fn uploads_dir() -> (path: String)
    ensures
        path@ == "uploads"@,
{
    "uploads".to_owned()
}

/// The directory of the files from peers.
pub fn incoming_dir() -> (path: String)
    ensures
        path@ == "uploads/incoming"@,
{
    "uploads/incoming".to_owned()
}

/// The file in which the [`crate::models::UploadMeta`] is kept.
pub fn meta_path() -> (path: String)
    ensures
        path@ == "uploads/.nearshare-meta.json"@,
{
    "uploads/.nearshare-meta.json".to_owned()
}

/// Whether a file below the uploads is shown to the user.
pub fn listed(name: &str) -> (shown: bool)
    ensures
        shown == is_listed(name@),
{
    !starts_with(name, "incoming") && !starts_with(name, "/.tmp") && !starts_with(name, ".tmp")
        && !starts_with(name, ".nearshare-meta")
}

/// Whether an entry of the uploads outlives the clearing whatever it is.
pub fn spared(name: &str) -> (spared: bool)
    ensures
        spared == is_spared(name@),
{
    same_text(name, "incoming")
}

/// Decides what is done to an entry of the uploads when they are cleared.
pub fn clear_uploads_dir(name: &str, kind: EntryKind) -> (action: ClearAction)
    ensures
        action == clear_action(name@, kind),
{
    if spared(name) {
        ClearAction::Keep
    } else {
        match kind {
            EntryKind::File => ClearAction::RemoveFile,
            EntryKind::Dir => ClearAction::RemoveDir,
            EntryKind::Other => ClearAction::Keep,
        }
    }
}

/// Every file from a peer lies below the one entry of the uploads that the
/// clearing spares, and the user is shown none of them among the uploads.
pub proof fn law_incoming_files_are_apart(peer: Seq<char>, name: Seq<char>, kind: EntryKind)
    ensures
        incoming_location(peer, name) == upload_location("incoming"@ + "/"@ + peer + "/"@ + name),
        gathering_location(peer, name) == upload_location(
            "incoming"@ + "/.tmp/"@ + peer + "/"@ + name,
        ),
        clear_action("incoming"@, kind) == ClearAction::Keep,
        !is_listed("incoming"@ + "/"@ + peer + "/"@ + name),
{
    reveal_strlit("uploads/");
    reveal_strlit("uploads/incoming/");
    reveal_strlit("uploads/incoming/.tmp/");
    reveal_strlit("incoming");
    reveal_strlit("/");
    reveal_strlit("/.tmp/");
    assert("uploads/incoming/"@ =~= "uploads/"@ + "incoming"@ + "/"@);
    assert("uploads/incoming/.tmp/"@ =~= "uploads/"@ + "incoming"@ + "/.tmp/"@);
    assert(incoming_location(peer, name) =~= upload_location(
        "incoming"@ + "/"@ + peer + "/"@ + name,
    ));
    assert(gathering_location(peer, name) =~= upload_location(
        "incoming"@ + "/.tmp/"@ + peer + "/"@ + name,
    ));
    assert("incoming"@.is_prefix_of("incoming"@ + "/"@ + peer + "/"@ + name));
}

/// The clearing leaves nothing of what the user is shown: the entry of the uploads
/// below which a listed file lies is removed, be it the file or a directory.
pub proof fn law_clearing_removes_every_listed_file(name: Seq<char>)
    requires
        is_listed(name),
    ensures
        clear_action(split(name)[0], EntryKind::File) == ClearAction::RemoveFile,
        clear_action(split(name)[0], EntryKind::Dir) == ClearAction::RemoveDir,
{
    law_path_starts_with_its_first_piece(name);
}

/// Where the files lie: an upload in the directory of the uploads under its own
/// name, a file from a peer in the directory of that peer, and its chunks, until all
/// of them are there, in a place of their own, which is never the one where the file
/// is kept.
pub proof fn law_every_file_has_its_place(peer: Seq<char>, name: Seq<char>)
    ensures
        upload_location(name) == "uploads/"@ + name,
        incoming_location(peer, name) == "uploads/incoming/"@ + (peer.push('/') + name),
        gathering_dir(peer) == "uploads/incoming/.tmp/"@ + peer,
        gathering_location(peer, name) == gathering_dir(peer).push('/') + name,
        gathering_location(peer, name) != incoming_location(peer, name),
{
    reveal_strlit("uploads/incoming/");
    reveal_strlit("uploads/incoming/.tmp/");
    reveal_strlit("/");
    assert(incoming_location(peer, name) =~= "uploads/incoming/"@ + (peer.push('/') + name));
    assert(gathering_location(peer, name) =~= gathering_dir(peer).push('/') + name);
    assert(gathering_location(peer, name).len() == incoming_location(peer, name).len() + 5);
}

/// Uploads of different names lie in different places, and so do files of different
/// names from one peer.
pub proof fn law_different_names_have_different_places(
    peer: Seq<char>,
    name: Seq<char>,
    other: Seq<char>,
)
    requires
        name != other,
    ensures
        upload_location(name) != upload_location(other),
        incoming_location(peer, name) != incoming_location(peer, other),
        gathering_location(peer, name) != gathering_location(peer, other),
{
    lemma_same_start("uploads/"@, name, other);
    lemma_same_start("uploads/incoming/"@ + peer + "/"@, name, other);
    lemma_same_start(gathering_dir(peer) + "/"@, name, other);
}

/// Different ends make different texts.
proof fn lemma_same_start(start: Seq<char>, end: Seq<char>, other: Seq<char>)
    requires
        end != other,
    ensures
        start + end != start + other,
{
    if start + end == start + other {
        assert(end =~= (start + end).skip(start.len() as int));
        assert(other =~= (start + other).skip(start.len() as int));
    }
}

/// A file below the uploads is shown to the user whatever its name and however deep
/// it lies, but for the names that begin in one of four ways.
pub proof fn law_four_beginnings_are_not_shown(name: Seq<char>, rest: Seq<char>)
    ensures
        !is_listed("incoming"@ + rest),
        !is_listed("/.tmp"@ + rest),
        !is_listed(".tmp"@ + rest),
        !is_listed(".nearshare-meta"@ + rest),
        ({
            &&& name.len() < 8 || name.take(8) != "incoming"@
            &&& name.len() < 5 || name.take(5) != "/.tmp"@
            &&& name.len() < 4 || name.take(4) != ".tmp"@
            &&& name.len() < 15 || name.take(15) != ".nearshare-meta"@
        }) ==> is_listed(name),
{
    reveal_strlit("incoming");
    reveal_strlit("/.tmp");
    reveal_strlit(".tmp");
    reveal_strlit(".nearshare-meta");
    assert("incoming"@ =~= ("incoming"@ + rest).take(8));
    assert("/.tmp"@ =~= ("/.tmp"@ + rest).take(5));
    assert(".tmp"@ =~= (".tmp"@ + rest).take(4));
    assert(".nearshare-meta"@ =~= (".nearshare-meta"@ + rest).take(15));
}

/// The clearing removes every file and every directory, whatever it is called, but
/// for the one entry that holds the files from peers, which stays whatever it is.
pub proof fn law_clearing_spares_one_entry(name: Seq<char>, kind: EntryKind)
    ensures
        clear_action(name, kind) == ClearAction::Keep <==> name == "incoming"@ || kind
            == EntryKind::Other,
        clear_action(name, kind) == ClearAction::RemoveFile ==> kind == EntryKind::File,
        clear_action(name, kind) == ClearAction::RemoveDir ==> kind == EntryKind::Dir,
        is_spared(name) <==> name == "incoming"@,
{
}

/// The paths that are made of a name, and of a peer and a name, hold both whole; a file
/// is shown unless its name begins in one of four ways; and the clearing spares one
/// entry, by its name alone.
pub proof fn law_paths_are_made_of_their_names(
    peer: &str,
    name: &str,
    kind: EntryKind,
    upload: String,
    incoming: String,
    dir: String,
    gathering: String,
    shown: bool,
    action: ClearAction,
)
    requires
        call_ensures(upload_path, (name,), upload),
        call_ensures(incoming_path, (peer, name), incoming),
        call_ensures(gathering_dir_path, (peer,), dir),
        call_ensures(gathering_path, (peer, name), gathering),
        call_ensures(listed, (name,), shown),
        call_ensures(clear_uploads_dir, (name, kind), action),
    ensures
        upload@ == "uploads/"@ + name@,
        incoming@ == "uploads/incoming/"@ + (peer@.push('/') + name@),
        dir@ == "uploads/incoming/.tmp/"@ + peer@,
        gathering@ == dir@.push('/') + name@,
        shown <==> (name@.len() < 8 || name@.take(8) != "incoming"@) && (name@.len() < 5
            || name@.take(5) != "/.tmp"@) && (name@.len() < 4 || name@.take(4) != ".tmp"@) && (
        name@.len() < 15 || name@.take(15) != ".nearshare-meta"@),
        name@ == "incoming"@ || kind == EntryKind::Other ==> action == ClearAction::Keep,
        name@ != "incoming"@ && kind == EntryKind::File ==> action == ClearAction::RemoveFile,
        name@ != "incoming"@ && kind == EntryKind::Dir ==> action == ClearAction::RemoveDir,
{
    law_every_file_has_its_place(peer@, name@);
    law_four_beginnings_are_not_shown(name@, name@.skip(8));
    law_four_beginnings_are_not_shown(name@, name@.skip(5));
    law_four_beginnings_are_not_shown(name@, name@.skip(4));
    law_four_beginnings_are_not_shown(name@, name@.skip(15));
    if name@.len() >= 8 {
        assert(name@ =~= name@.take(8) + name@.skip(8));
    }
    if name@.len() >= 5 {
        assert(name@ =~= name@.take(5) + name@.skip(5));
    }
    if name@.len() >= 4 {
        assert(name@ =~= name@.take(4) + name@.skip(4));
    }
    if name@.len() >= 15 {
        assert(name@ =~= name@.take(15) + name@.skip(15));
    }
}

/// The places with fixed names: the uploads, the files from peers among them, and what
/// is remembered beside them, which is never shown.
pub proof fn law_fixed_places(uploads: String, incoming: String, meta: String)
    requires
        call_ensures(uploads_dir, (), uploads),
        call_ensures(incoming_dir, (), incoming),
        call_ensures(meta_path, (), meta),
    ensures
        uploads@ == "uploads"@,
        incoming@ == "uploads/incoming"@,
        meta@ == "uploads/.nearshare-meta.json"@,
        !is_listed(".nearshare-meta.json"@),
{
    reveal_strlit(".nearshare-meta");
    reveal_strlit(".nearshare-meta.json");
    assert(".nearshare-meta.json"@ =~= ".nearshare-meta"@ + seq!['.', 'j', 's', 'o', 'n']);
    law_four_beginnings_are_not_shown("uploads"@, seq!['.', 'j', 's', 'o', 'n']);
}

} // verus!
