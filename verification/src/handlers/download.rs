//! Files handed out.
use super::session::{require_user, unauthorized};
use crate::cipher::{open, open_result, opened, EncryptionKey, OpenError};
use crate::layout::{incoming_location, incoming_path, upload_location, upload_path};
use crate::path::{file_name, last_name};
use crate::reply::{bare, with_text, Body, BodyView, Reply, ReplyView, Status};
use crate::sessions::{header_view, user_of, Sessions};
use crate::text::{given, join_texts, opt_text, or_empty};
use vstd::prelude::*;

verus! {

/// A file to be handed out.
#[derive(Debug, PartialEq, Eq)]
pub struct Download {
    /// The file as it was asked for.
    pub file_name: String,
    /// Where the file is stored.
    pub file_path: String,
}

/// The contents of a [`Download`].
pub struct DownloadView {
    pub file_name: Seq<char>,
    pub file_path: Seq<char>,
}

impl View for Download {
    type V = DownloadView;

    open spec fn view(&self) -> DownloadView {
        DownloadView { file_name: self.file_name@, file_path: self.file_path@ }
    }
}

/// What the request for an uploaded file comes to.
pub open spec fn upload_request(
    sessions: Map<Seq<char>, Seq<char>>,
    header: Option<Seq<u8>>,
    path: Option<Seq<char>>,
) -> Result<DownloadView, ReplyView> {
    if user_of(sessions, header) is None {
        Err(unauthorized())
    } else if given(path).len() == 0 {
        Err(with_text(Status::BadRequest, "Missing path parameter"@))
    } else {
        Ok(DownloadView { file_name: given(path), file_path: upload_location(given(path)) })
    }
}

/// What the request for a file from a peer comes to.
pub open spec fn incoming_request(
    sessions: Map<Seq<char>, Seq<char>>,
    header: Option<Seq<u8>>,
    peer_id: Option<Seq<char>>,
    path: Option<Seq<char>>,
) -> Result<DownloadView, ReplyView> {
    if user_of(sessions, header) is None {
        Err(unauthorized())
    } else if given(peer_id).len() == 0 || given(path).len() == 0 {
        Err(with_text(Status::BadRequest, "Missing peer_id or path parameter"@))
    } else {
        Ok(
            DownloadView {
                file_name: given(path),
                file_path: incoming_location(given(peer_id), given(path)),
            },
        )
    }
}

/// The header under which a file is handed out, so that it is saved under its
/// last name.
pub open spec fn disposition(file_name: Seq<char>) -> Seq<char> {
    "attachment; filename=\""@ + given(last_name(file_name)) + "\""@
}

/// The answer that hands out a file, given what is stored holds.
pub open spec fn delivery(
    file_name: Seq<char>,
    contents: Result<Seq<u8>, OpenError>,
) -> ReplyView {
    match contents {
        Ok(data) => ReplyView {
            status: Status::Success,
            body: BodyView::Attachment { disposition: disposition(file_name), data },
        },
        Err(OpenError::TooShort) => bare(Status::InternalServerError),
        Err(OpenError::Refused) => with_text(Status::InternalServerError, "Decryption Failed"@),
    }
}

/// The answer that hands out a file, given what is stored, if anything.
pub open spec fn download_reply(
    file_name: Seq<char>,
    key: Seq<u8>,
    stored: Option<Seq<u8>>,
) -> ReplyView {
    match stored {
        None => with_text(Status::NotFound, "File Not Found"@),
        Some(bytes) => delivery(file_name, opened(key, bytes)),
    }
}

/// The contents of a request for a file that may have failed.
pub open spec fn download_view(result: Result<Download, Reply>) -> Result<DownloadView, ReplyView> {
    match result {
        Ok(download) => Ok(download@),
        Err(reply) => Err(reply@),
    }
}

/// Decides which file a request for an uploaded file is about.
pub fn download_file(header: Option<&[u8]>, sessions: &Sessions, path: Option<String>) -> (result:
    Result<Download, Reply>)
    ensures
        download_view(result) == upload_request(sessions@, header_view(header), opt_text(path)),
{
    if let Err(reply) = require_user(header, sessions) {
        return Err(reply);
    }
    let file_name = or_empty(path);
    if file_name.as_str().is_empty() {
        return Err(Reply::text(Status::BadRequest, "Missing path parameter"));
    }
    let file_path = upload_path(&file_name);
    Ok(Download { file_name, file_path })
}

/// Decides which file a request for a file from a peer is about.
pub fn download_incoming_file(
    header: Option<&[u8]>,
    sessions: &Sessions,
    peer_id: Option<String>,
    path: Option<String>,
) -> (result: Result<Download, Reply>)
    ensures
        download_view(result) == incoming_request(
            sessions@,
            header_view(header),
            opt_text(peer_id),
            opt_text(path),
        ),
{
    if let Err(reply) = require_user(header, sessions) {
        return Err(reply);
    }
    let peer_id = or_empty(peer_id);
    let file_name = or_empty(path);
    if peer_id.as_str().is_empty() || file_name.as_str().is_empty() {
        return Err(Reply::text(Status::BadRequest, "Missing peer_id or path parameter"));
    }
    let file_path = incoming_path(&peer_id, &file_name);
    Ok(Download { file_name, file_path })
}

impl Download {
    /// Answers the request, given what is stored where the file should be, if
    /// anything.
    pub fn reply(&self, key: &EncryptionKey, stored: Option<Vec<u8>>) -> (reply: Reply)
        ensures
            reply@ == download_reply(self@.file_name, key@, crate::cipher::opt_bytes(stored)),
    {
        match stored {
            None => Reply::text(Status::NotFound, "File Not Found"),
            Some(bytes) => self.deliver(open(key, &bytes)),
        }
    }

    /// Answers the request, given what the stored file holds.
    pub fn deliver(&self, contents: Result<Vec<u8>, OpenError>) -> (reply: Reply)
        ensures
            reply@ == delivery(self@.file_name, open_result(contents)),
    {
        match contents {
            Ok(data) => {
                let name = or_empty(file_name(&self.file_name));
                let start = join_texts("attachment; filename=\"", &name);
                let disposition = join_texts(&start, "\"");
                Reply::ok(Body::Attachment { disposition, data })
            },
            Err(OpenError::TooShort) => Reply::bare(Status::InternalServerError),
            Err(OpenError::Refused) => Reply::text(
                Status::InternalServerError,
                "Decryption Failed",
            ),
        }
    }
}

/// A download gives back what was stored: where bytes that hold `data` are
/// stored for the upload `name`, a user who asks for `name` is handed `data`.
pub proof fn law_download_gives_back_the_upload(
    sessions: Map<Seq<char>, Seq<char>>,
    header: Option<Seq<u8>>,
    key: Seq<u8>,
    name: Seq<char>,
    stored: Seq<u8>,
    data: Seq<u8>,
)
    requires
        user_of(sessions, header) is Some,
        name.len() > 0,
        opened(key, stored) == Ok::<Seq<u8>, OpenError>(data),
    ensures
        ({
            let download = upload_request(sessions, header, Some(name))->Ok_0;
            &&& upload_request(sessions, header, Some(name)) is Ok
            &&& download.file_path == upload_location(name)
            &&& download_reply(download.file_name, key, Some(stored)) == ReplyView {
                status: Status::Success,
                body: BodyView::Attachment { disposition: disposition(name), data },
            }
        }),
{
}

/// A download gives back what a peer sent: where bytes that hold `data` are
/// stored for the file `name` of a peer, a user who asks for it is handed `data`.
pub proof fn law_download_gives_back_the_incoming_file(
    sessions: Map<Seq<char>, Seq<char>>,
    header: Option<Seq<u8>>,
    key: Seq<u8>,
    peer_id: Seq<char>,
    name: Seq<char>,
    stored: Seq<u8>,
    data: Seq<u8>,
)
    requires
        user_of(sessions, header) is Some,
        peer_id.len() > 0,
        name.len() > 0,
        opened(key, stored) == Ok::<Seq<u8>, OpenError>(data),
    ensures
        ({
            let request = incoming_request(sessions, header, Some(peer_id), Some(name));
            &&& request is Ok
            &&& request->Ok_0.file_path == incoming_location(peer_id, name)
            &&& download_reply(request->Ok_0.file_name, key, Some(stored)) == ReplyView {
                status: Status::Success,
                body: BodyView::Attachment { disposition: disposition(name), data },
            }
        }),
{
}

/// Whoever may ask and asks for something is handed just that: the upload of that
/// very name, or that very file of that very peer. Whoever leaves out what they want
/// is told so.
pub proof fn law_what_is_asked_for_is_what_is_read(
    sessions: Map<Seq<char>, Seq<char>>,
    header: Option<Seq<u8>>,
    peer_id: Seq<char>,
    path: Seq<char>,
)
    requires
        user_of(sessions, header) is Some,
    ensures
        path.len() > 0 ==> upload_request(sessions, header, Some(path)) == Ok::<
            DownloadView,
            ReplyView,
        >(DownloadView { file_name: path, file_path: "uploads/"@ + path }),
        path.len() > 0 && peer_id.len() > 0 ==> incoming_request(
            sessions,
            header,
            Some(peer_id),
            Some(path),
        ) == Ok::<DownloadView, ReplyView>(
            DownloadView {
                file_name: path,
                file_path: "uploads/incoming/"@ + (peer_id.push('/') + path),
            },
        ),
        ({
            let missing = ReplyView {
                status: Status::BadRequest,
                body: BodyView::Text("Missing path parameter"@),
            };
            &&& upload_request(sessions, header, None) == Err::<DownloadView, ReplyView>(missing)
            &&& upload_request(sessions, header, Some(seq![])) == Err::<DownloadView, ReplyView>(
                missing,
            )
        }),
        ({
            let missing = ReplyView {
                status: Status::BadRequest,
                body: BodyView::Text("Missing peer_id or path parameter"@),
            };
            let refused = Err::<DownloadView, ReplyView>(missing);
            &&& incoming_request(sessions, header, None, Some(path)) == refused
            &&& incoming_request(sessions, header, Some(seq![]), Some(path)) == refused
            &&& incoming_request(sessions, header, Some(peer_id), None) == refused
            &&& incoming_request(sessions, header, Some(peer_id), Some(seq![])) == refused
        }),
{
    crate::layout::law_every_file_has_its_place(peer_id, path);
}

/// What is handed out is all that the stored bytes hold, under the name behind the
/// last slash of what was asked for. Where nothing is stored, or where it does not
/// open, the answer says so and hands out nothing.
pub proof fn law_files_are_handed_out_whole(
    dir: Seq<char>,
    name: Seq<char>,
    key: Seq<u8>,
    stored: Seq<u8>,
)
    requires
        name.len() > 0,
        !name.contains('/'),
        name != "."@,
        name != ".."@,
    ensures
        opened(key, stored) matches Ok(data) ==> {
            let handed = ReplyView {
                status: Status::Success,
                body: BodyView::Attachment {
                    disposition: "attachment; filename=\""@ + name + "\""@,
                    data,
                },
            };
            &&& download_reply(name, key, Some(stored)) == handed
            &&& download_reply(dir.push('/') + name, key, Some(stored)) == handed
        },
        opened(key, stored) == Err::<Seq<u8>, OpenError>(OpenError::TooShort) ==> download_reply(
            name,
            key,
            Some(stored),
        ) == (ReplyView { status: Status::InternalServerError, body: BodyView::Empty }),
        opened(key, stored) == Err::<Seq<u8>, OpenError>(OpenError::Refused) ==> download_reply(
            name,
            key,
            Some(stored),
        ) == (ReplyView {
            status: Status::InternalServerError,
            body: BodyView::Text("Decryption Failed"@),
        }),
        download_reply(name, key, None) == (ReplyView {
            status: Status::NotFound,
            body: BodyView::Text("File Not Found"@),
        }),
{
    crate::path::law_last_name_stands_behind_the_last_slash(dir, name);
}

/// How a file is handed out depends on what was asked for in nothing but the name
/// under which it is saved: for every name the data is the same, and the errors are.
pub proof fn law_delivery_depends_on_the_contents(
    file_name: Seq<char>,
    other: Seq<char>,
    contents: Result<Seq<u8>, OpenError>,
)
    ensures
        delivery(file_name, contents).status == delivery(other, contents).status,
        contents is Err ==> delivery(file_name, contents) == delivery(other, contents),
        contents matches Ok(data) ==> (delivery(file_name, contents).body matches
            BodyView::Attachment { disposition: header, data: handed } && handed == data && header
            == "attachment; filename=\""@ + (match last_name(file_name) {
            Some(name) => name,
            None => seq![],
        }) + "\""@),
{
}

/// What is seen of a file to be handed out, or of its refusal, is all of it.
pub proof fn law_downloads_are_seen_as_they_are(download: Download, reply: Reply)
    ensures
        download_view(Ok(download)) == Ok::<DownloadView, ReplyView>(
            DownloadView { file_name: download.file_name@, file_path: download.file_path@ },
        ),
        download_view(Err(reply)) == Err::<DownloadView, ReplyView>(reply@),
{
}

/// A user who asks for an upload, or for a file from a peer, by a name that is not
/// empty reads the file of that name and no other; and what it holds, and nothing else,
/// is handed out.
pub proof fn law_download_reads_the_file_asked_for(
    header: Option<&[u8]>,
    sessions: &Sessions,
    peer_id: String,
    path: String,
    upload: Result<Download, Reply>,
    incoming: Result<Download, Reply>,
)
    requires
        user_of(sessions@, header_view(header)) is Some,
        peer_id@.len() > 0,
        path@.len() > 0,
        call_ensures(download_file, (header, sessions, Some(path)), upload),
        call_ensures(download_incoming_file, (header, sessions, Some(peer_id), Some(path)), incoming),
    ensures
        upload matches Ok(download) && download.file_name@ == path@ && download.file_path@
            == "uploads/"@ + path@,
        incoming matches Ok(download) && download.file_name@ == path@ && download.file_path@
            == "uploads/incoming/"@ + (peer_id@.push('/') + path@),
{
    crate::layout::law_every_file_has_its_place(peer_id@, path@);
}

/// What comes of a file that was read: all that it holds where it opens, and otherwise
/// a reason and no data.
pub proof fn law_download_hands_out_what_was_read(
    download: Download,
    key: EncryptionKey,
    stored: Vec<u8>,
    reply: Reply,
    missing: Reply,
)
    requires
        call_ensures(Download::reply, (&download, &key, Some(stored)), reply),
        call_ensures(Download::reply, (&download, &key, None), missing),
    ensures
        opened(key@, stored@) matches Ok(contents) ==> reply.status == Status::Success && (
        reply.body matches Body::Attachment { data, .. } && data@ == contents),
        opened(key@, stored@) is Err ==> reply.status == Status::InternalServerError && !(
        reply.body is Attachment),
        missing.status == Status::NotFound,
        missing.body matches Body::Text(text) && text@ == "File Not Found"@,
{
}

} // verus!
