//! Requests of a browser and their answers.
use self::download::{incoming_request, upload_request, DownloadView};
use self::listing::{list_files, Listing};
use self::peers::send_request;
use self::session::{after_logout, permission, session_reply, unauthorized};
use self::upload::{new_upload, upload_file, Upload};
use crate::reply::{Reply, ReplyView, Status};
use crate::sessions::{header_view, user_of, Sessions};
use vstd::prelude::*;

pub mod download;
pub mod listing;
pub mod peers;
pub mod session;
pub mod upload;

verus! {

/// Without a session every request that may only be made on a user's behalf is
/// refused with the same bare answer, whatever it asks for, and no session ends.
pub proof fn law_requests_without_a_session_are_refused(
    sessions: Map<Seq<char>, Seq<char>>,
    header: Option<Seq<u8>>,
    peer_id: Option<Seq<char>>,
    path: Option<Seq<char>>,
)
    requires
        user_of(sessions, header) is None,
    ensures
        permission(sessions, header) == Err::<(), ReplyView>(unauthorized()),
        session_reply(sessions, header) == unauthorized(),
        after_logout(sessions, header) == sessions,
        upload_request(sessions, header, path) == Err::<DownloadView, ReplyView>(unauthorized()),
        incoming_request(sessions, header, peer_id, path) == Err::<DownloadView, ReplyView>(
            unauthorized(),
        ),
        send_request(sessions, header, peer_id, path) == Err::<(Seq<char>, Seq<char>), ReplyView>(
            unauthorized(),
        ),
{
}

/// Uploads and lists are begun for users and for nobody else: a user begins with nothing
/// taken in and nothing met, and whoever is none is refused.
pub proof fn law_uploads_and_lists_are_begun_for_users(
    header: Option<&[u8]>,
    sessions: &Sessions,
    begun: Result<Upload, Reply>,
    list: Result<Listing, Reply>,
)
    requires
        call_ensures(upload_file, (header, sessions), begun),
        call_ensures(list_files, (header, sessions), list),
    ensures
        begun is Ok <==> user_of(sessions@, header_view(header)) is Some,
        list is Ok <==> user_of(sessions@, header_view(header)) is Some,
        begun matches Ok(upload) ==> upload@.saved.len() == 0 && upload@.repos.len() == 0
            && "uploads/.tmp/tmp-"@.is_prefix_of(upload.tmp_base@),
        list matches Ok(listing) ==> listing.files@.len() == 0,
        begun matches Err(reply) ==> reply.status == Status::Unauthorized && reply.body is Empty,
        list matches Err(reply) ==> reply.status == Status::Unauthorized && reply.body is Empty,
{
    if let Ok(upload) = begun {
        let id = choose|id: u64| upload@ == #[trigger] new_upload(id);
        let start = "uploads/.tmp/tmp-"@;
        assert(start =~= upload.tmp_base@.take(start.len() as int));
    }
}

} // verus!
