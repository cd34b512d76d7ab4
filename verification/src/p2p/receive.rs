//! Files coming in: chunks are gathered in a temporary file, and the whole file
//! is then stored encrypted.
use super::chunks::{chunks, joined, law_chunk_lengths, law_chunks_join_to_the_file};
use super::node::{
    chunk_request, conversation, file_requests, law_acknowledged_file_is_sent_whole, read_view,
    transfer_start, ActionView, P2PNode,
};
use super::protocol::{NearShareRequest, NearShareResponse, RequestView, ResponseView};
use crate::cipher::{
    encryptable, opened, opt_bytes, seal, sealed, EncryptionKey, OpenError, NONCE_LEN, TAG_LEN,
};
use crate::handlers::download::{download_incoming_file, incoming_request, Download};
use crate::layout::{
    gathering_dir, gathering_dir_path, gathering_location, gathering_path, incoming_location,
    incoming_path,
};
use crate::random::random_nonce;
use crate::reply::Reply;
use crate::sessions::{header_view, user_of, Sessions};
use crate::text::join_texts;
use vstd::prelude::*;

verus! {

/// A chunk that a peer sent.
#[derive(Debug, PartialEq, Eq)]
pub struct ChunkReceipt {
    pub peer: String,
    pub filename: String,
    pub chunk_index: u64,
    pub total_chunks: u64,
    pub data: Vec<u8>,
}

/// What a request calls for.
#[derive(Debug, PartialEq, Eq)]
pub enum RequestAction {
    Respond(NearShareResponse),
    /// Take in the chunk, starting with the directory [`ChunkReceipt::temp_dir`].
    Receive(ChunkReceipt),
}

/// What is to be done next to take in a chunk.
#[derive(Debug, PartialEq, Eq)]
pub enum ReceiveStep {
    /// Write the data of the chunk: to a new file in a directory to be created
    /// where needed if it is the first one, to the end of the file otherwise.
    WriteChunk { path: String, first: bool },
    /// Read the gathered file.
    ReadBack { path: String },
    /// Store the data in a directory to be created where needed, and remove the
    /// temporary file.
    Store { path: String, data: Vec<u8>, temp_path: String },
    /// Answer the peer.
    Respond(NearShareResponse),
}

/// The contents of a [`ChunkReceipt`].
pub struct ChunkView {
    pub peer: Seq<char>,
    pub filename: Seq<char>,
    pub chunk_index: u64,
    pub total_chunks: u64,
    pub data: Seq<u8>,
}

/// The contents of a [`RequestAction`].
pub enum RequestActionView {
    Respond(ResponseView),
    Receive(ChunkView),
}

/// The contents of a [`ReceiveStep`].
pub enum StepView {
    WriteChunk { path: Seq<char>, first: bool },
    ReadBack { path: Seq<char> },
    Store { path: Seq<char>, data: Seq<u8>, temp_path: Seq<char> },
    Respond(ResponseView),
}

impl View for ChunkReceipt {
    type V = ChunkView;

    open spec fn view(&self) -> ChunkView {
        ChunkView {
            peer: self.peer@,
            filename: self.filename@,
            chunk_index: self.chunk_index,
            total_chunks: self.total_chunks,
            data: self.data@,
        }
    }
}

impl View for RequestAction {
    type V = RequestActionView;

    open spec fn view(&self) -> RequestActionView {
        match self {
            RequestAction::Respond(response) => RequestActionView::Respond(response@),
            RequestAction::Receive(chunk) => RequestActionView::Receive(chunk@),
        }
    }
}

impl View for ReceiveStep {
    type V = StepView;

    open spec fn view(&self) -> StepView {
        match self {
            ReceiveStep::WriteChunk { path, first } => StepView::WriteChunk {
                path: path@,
                first: *first,
            },
            ReceiveStep::ReadBack { path } => StepView::ReadBack { path: path@ },
            ReceiveStep::Store { path, data, temp_path } => StepView::Store {
                path: path@,
                data: data@,
                temp_path: temp_path@,
            },
            ReceiveStep::Respond(response) => StepView::Respond(response@),
        }
    }
}

/// What a request calls for on a node of the given identity: a ping is answered,
/// a chunk is taken in.
pub open spec fn request_action(
    peer_id: Seq<char>,
    name: Seq<char>,
    peer: Seq<char>,
    request: RequestView,
) -> RequestActionView {
    match request {
        RequestView::Ping => RequestActionView::Respond(ResponseView::Pong { peer_id, name }),
        RequestView::SendFile { filename, chunk_index, total_chunks, data } => {
            RequestActionView::Receive(
                ChunkView { peer, filename, chunk_index, total_chunks, data },
            )
        },
    }
}

/// The answer that a chunk was taken.
pub open spec fn acknowledged(chunk: ChunkView) -> StepView {
    StepView::Respond(ResponseView::FileChunkAck { chunk_index: chunk.chunk_index })
}

/// The answer that a chunk was not taken, and why.
pub open spec fn refused(what: Seq<char>, why: Seq<char>) -> StepView {
    StepView::Respond(ResponseView::Error(what + why))
}

/// What follows the attempt to create the directory for a chunk.
pub open spec fn after_dir(chunk: ChunkView, created: Result<(), Seq<char>>) -> StepView {
    match created {
        Err(why) => refused("Dir creation failed: "@, why),
        Ok(_) => StepView::WriteChunk {
            path: gathering_location(chunk.peer, chunk.filename),
            first: chunk.chunk_index == 0,
        },
    }
}

/// What follows the attempt to write a chunk.
pub open spec fn after_write(chunk: ChunkView, written: Result<(), Seq<char>>) -> StepView {
    match written {
        Err(why) => refused("Write failed: "@, why),
        Ok(_) => if chunk.chunk_index + 1 == chunk.total_chunks {
            StepView::ReadBack { path: gathering_location(chunk.peer, chunk.filename) }
        } else {
            acknowledged(chunk)
        },
    }
}

/// What follows the encryption of the gathered file, where it succeeded.
pub open spec fn after_sealing(chunk: ChunkView, stored: Option<Seq<u8>>) -> StepView {
    match stored {
        None => refused("Encrypt failed: "@, "Error"@),
        Some(data) => StepView::Store {
            path: incoming_location(chunk.peer, chunk.filename),
            data,
            temp_path: gathering_location(chunk.peer, chunk.filename),
        },
    }
}

/// What follows the attempt to read the gathered file.
pub open spec fn after_read(
    chunk: ChunkView,
    key: Seq<u8>,
    nonce: Seq<u8>,
    read: Result<Seq<u8>, Seq<char>>,
) -> StepView {
    match read {
        Err(why) => refused("Encrypt failed: "@, why),
        Ok(data) => after_sealing(chunk, sealed(key, nonce, data)),
    }
}

/// What follows the attempt to store the file.
pub open spec fn after_store(chunk: ChunkView, stored: Result<(), Seq<char>>) -> StepView {
    match stored {
        Err(why) => refused("Encrypt failed: "@, why),
        Ok(_) => acknowledged(chunk),
    }
}

/// The text of an error, where an attempt failed.
pub open spec fn attempt_view(attempt: Result<(), String>) -> Result<(), Seq<char>> {
    match attempt {
        Ok(_) => Ok(()),
        Err(text) => Err(text@),
    }
}

impl P2PNode {
    /// Decides what a request calls for.
    pub fn handle_request(&self, peer: String, request: NearShareRequest) -> (action: RequestAction)
        ensures
            action@ == request_action(
                self.handle.local_peer_id@,
                self.handle.name@,
                peer@,
                request@,
            ),
    {
        match request {
            NearShareRequest::Ping => RequestAction::Respond(
                NearShareResponse::Pong {
                    peer_id: self.handle.local_peer_id.clone(),
                    name: self.handle.name.clone(),
                },
            ),
            NearShareRequest::SendFile { filename, chunk_index, total_chunks, data } => {
                RequestAction::Receive(
                    ChunkReceipt { peer, filename, chunk_index, total_chunks, data },
                )
            },
        }
    }
}

impl ChunkReceipt {
    /// The directory that has to exist before anything else.
    pub fn temp_dir(&self) -> (path: String)
        ensures
            path@ == gathering_dir(self@.peer),
    {
        gathering_dir_path(&self.peer)
    }

    /// The answer that the chunk was taken.
    fn acknowledge(&self) -> (step: ReceiveStep)
        ensures
            step@ == acknowledged(self@),
    {
        ReceiveStep::Respond(NearShareResponse::FileChunkAck { chunk_index: self.chunk_index })
    }

    /// Goes on after the attempt to create the directory.
    pub fn dir_created(&self, created: Result<(), String>) -> (step: ReceiveStep)
        ensures
            step@ == after_dir(self@, attempt_view(created)),
    {
        match created {
            Err(why) => refuse("Dir creation failed: ", &why),
            Ok(_) => ReceiveStep::WriteChunk {
                path: gathering_path(&self.peer, &self.filename),
                first: self.chunk_index == 0,
            },
        }
    }

    /// Goes on after the attempt to write the chunk.
    pub fn chunk_written(&self, written: Result<(), String>) -> (step: ReceiveStep)
        requires
            written is Ok ==> self.chunk_index < u64::MAX,
        ensures
            step@ == after_write(self@, attempt_view(written)),
    {
        match written {
            Err(why) => refuse("Write failed: ", &why),
            Ok(_) => if self.chunk_index + 1 == self.total_chunks {
                ReceiveStep::ReadBack { path: gathering_path(&self.peer, &self.filename) }
            } else {
                self.acknowledge()
            },
        }
    }

    /// Goes on after the attempt to read the gathered file, encrypting it under
    /// `nonce`. What is stored opens to what was read.
    pub fn read_back_with(
        &self,
        key: &EncryptionKey,
        nonce: &[u8; 12],
        read: Result<Vec<u8>, String>,
    ) -> (step: ReceiveStep)
        ensures
            step@ == after_read(self@, key@, nonce@, read_view(read)),
            step matches ReceiveStep::Store { data, .. } ==> {
                &&& read matches Ok(contents)
                &&& data@.len() == NONCE_LEN + contents@.len() + TAG_LEN
                &&& opened(key@, data@) == Ok::<Seq<u8>, OpenError>(contents@)
            },
    {
        match read {
            Err(why) => refuse("Encrypt failed: ", &why),
            Ok(contents) => self.sealed(seal(key, nonce, &contents)),
        }
    }

    /// Goes on after the encryption of the gathered file, where it succeeded.
    pub fn sealed(&self, stored: Option<Vec<u8>>) -> (step: ReceiveStep)
        ensures
            step@ == after_sealing(self@, opt_bytes(stored)),
    {
        match stored {
            None => refuse("Encrypt failed: ", "Error"),
            Some(data) => ReceiveStep::Store {
                path: incoming_path(&self.peer, &self.filename),
                data,
                temp_path: gathering_path(&self.peer, &self.filename),
            },
        }
    }

    /// Goes on after the attempt to read the gathered file, encrypting it under
    /// a nonce drawn at random. What is stored opens to what was read.
    pub fn read_back(&self, key: &EncryptionKey, read: Result<Vec<u8>, String>) -> (step:
        ReceiveStep)
        ensures
            exists|nonce: Seq<u8>|
                nonce.len() == NONCE_LEN && step@ == #[trigger] after_read(
                    self@,
                    key@,
                    nonce,
                    read_view(read),
                ),
            step matches ReceiveStep::Store { data, .. } ==> {
                &&& read matches Ok(contents)
                &&& data@.len() == NONCE_LEN + contents@.len() + TAG_LEN
                &&& opened(key@, data@) == Ok::<Seq<u8>, OpenError>(contents@)
            },
    {
        let nonce = random_nonce();
        let step = self.read_back_with(key, &nonce, read);
        assert(nonce@.len() == NONCE_LEN);
        step
    }

    /// Goes on after the attempt to store the file.
    pub fn stored(&self, stored: Result<(), String>) -> (step: ReceiveStep)
        ensures
            step@ == after_store(self@, attempt_view(stored)),
    {
        match stored {
            Err(why) => refuse("Encrypt failed: ", &why),
            Ok(_) => self.acknowledge(),
        }
    }
}

/// The answer that a chunk was not taken, and why.
fn refuse(what: &str, why: &str) -> (step: ReceiveStep)
    ensures
        step@ == refused(what@, why@),
{
    ReceiveStep::Respond(NearShareResponse::Error(join_texts(what, why)))
}

/// What the temporary file holds when the chunks of the given requests have been
/// written: the first chunk starts the file anew, any other goes to its end.
pub open spec fn gathered(requests: Seq<RequestView>) -> Seq<u8>
    decreases requests.len(),
{
    if requests.len() == 0 {
        seq![]
    } else {
        let before = gathered(requests.drop_last());
        match requests.last() {
            RequestView::Ping => before,
            RequestView::SendFile { chunk_index, data, .. } => if chunk_index == 0 {
                data
            } else {
                before + data
            },
        }
    }
}

/// Whether requests carry the given pieces, numbered from zero, whatever they say
/// of the file's name and of how many pieces there are.
pub open spec fn carries(requests: Seq<RequestView>, pieces: Seq<Seq<u8>>) -> bool {
    &&& requests.len() == pieces.len()
    &&& forall|i: int|
        0 <= i < requests.len() ==> ((#[trigger] requests[i]) matches RequestView::SendFile {
            chunk_index,
            data,
            ..
        } && chunk_index == i && data == pieces[i])
}

/// Requests that are numbered from zero gather the pieces they carry, one after
/// the other, whatever the lengths of the pieces.
pub proof fn law_numbered_pieces_are_gathered(requests: Seq<RequestView>, pieces: Seq<Seq<u8>>)
    requires
        carries(requests, pieces),
    ensures
        gathered(requests) == joined(pieces),
    decreases pieces.len(),
{
    if pieces.len() > 0 {
        let n = pieces.len() - 1;
        assert(requests[n] == requests.last());
        assert(forall|i: int| 0 <= i < n ==> requests.drop_last()[i] == #[trigger] requests[i]);
        law_numbered_pieces_are_gathered(requests.drop_last(), pieces.drop_last());
        if n == 0 {
            assert(joined(pieces.drop_last()) =~= seq![]);
            assert(joined(pieces) =~= pieces.last());
        }
    }
}

/// The first piece starts the file anew: what was gathered before leaves no trace.
pub proof fn law_first_piece_starts_anew(
    before: Seq<RequestView>,
    requests: Seq<RequestView>,
    pieces: Seq<Seq<u8>>,
)
    requires
        carries(requests, pieces),
        pieces.len() > 0,
    ensures
        gathered(before + requests) == joined(pieces),
    decreases pieces.len(),
{
    let n = pieces.len() - 1;
    let all = before + requests;
    assert(requests[n] == all.last());
    assert(all.drop_last() =~= before + requests.drop_last());
    if n == 0 {
        assert(joined(pieces.drop_last()) =~= seq![]);
        assert(joined(pieces) =~= pieces.last());
    } else {
        assert(forall|i: int| 0 <= i < n ==> requests.drop_last()[i] == #[trigger] requests[i]);
        law_first_piece_starts_anew(before, requests.drop_last(), pieces.drop_last());
    }
}

/// A file arrives as it was sent: the requests that carry its chunks, taken in
/// order, gather the file; the first chunk starts it anew and the others go to its
/// end; every chunk but the last is acknowledged once it is written, and the last
/// one calls for reading the gathered file and is acknowledged when that was
/// stored.
pub proof fn law_sent_file_is_gathered(
    local_peer_id: Seq<char>,
    name: Seq<char>,
    peer: Seq<char>,
    filename: Seq<char>,
    data: Seq<u8>,
)
    requires
        data.len() <= u64::MAX,
    ensures
        gathered(file_requests(filename, data)) == data,
        forall|i: int|
            0 <= i < chunks(data).len() ==> {
                let chunk = ChunkView {
                    peer,
                    filename,
                    chunk_index: i as u64,
                    total_chunks: chunks(data).len() as u64,
                    data: chunks(data)[i],
                };
                &&& request_action(
                    local_peer_id,
                    name,
                    peer,
                    #[trigger] file_requests(filename, data)[i],
                ) == RequestActionView::Receive(chunk)
                &&& after_dir(chunk, Ok(())) == (StepView::WriteChunk {
                    path: gathering_location(peer, filename),
                    first: i == 0,
                })
                &&& after_write(chunk, Ok(())) == if i == chunks(data).len() - 1 {
                    StepView::ReadBack { path: gathering_location(peer, filename) }
                } else {
                    acknowledged(chunk)
                }
                &&& after_store(chunk, Ok(())) == acknowledged(chunk)
            },
{
    let n = chunks(data).len();
    law_chunks_join_to_the_file(data);
    law_chunk_lengths(data);
    assert(carries(file_requests(filename, data), chunks(data))) by {
        assert(forall|i: int|
            0 <= i < n ==> #[trigger] file_requests(filename, data)[i] == chunk_request(
                filename,
                chunks(data),
                i,
            ));
    }
    law_numbered_pieces_are_gathered(file_requests(filename, data), chunks(data));
}

/// What one node stores and another gathers is the same file: the requests that
/// the sender of an uploaded file makes, when its chunks are acknowledged one by
/// one, gather the contents of that file, and the transfer ends in success.
pub proof fn law_uploaded_file_is_delivered(
    key: Seq<u8>,
    peer_id: Seq<char>,
    filename: Seq<char>,
    respond_to: u64,
    stored: Seq<u8>,
    data: Seq<u8>,
)
    requires
        data.len() <= usize::MAX,
        opened(key, stored) == Ok::<Seq<u8>, OpenError>(data),
    ensures
        ({
            let start = transfer_start(key, peer_id, filename, respond_to, Ok(stored));
            let (requests, last) = conversation(start, chunks(data).len());
            &&& gathered(requests) == data
            &&& last == ActionView::Finish { respond_to, result: Ok(()) }
        }),
{
    law_acknowledged_file_is_sent_whole(key, peer_id, filename, respond_to, stored, data);
    law_sent_file_is_gathered(seq![], seq![], seq![], filename, data);
}

/// A gathered file is stored, for every number of chunks, where a request to download
/// that file of that peer reads, and what is stored is what was read, encrypted. The
/// temporary file that is removed is the one that the chunks were written to and that
/// was read back, and it is never the file that was just stored.
pub proof fn law_gathered_file_is_kept_where_it_is_asked_for(
    sessions: Map<Seq<char>, Seq<char>>,
    header: Option<Seq<u8>>,
    chunk: ChunkView,
    key: Seq<u8>,
    nonce: Seq<u8>,
    data: Seq<u8>,
    stored: Seq<u8>,
)
    requires
        sealed(key, nonce, data) == Some(stored),
    ensures
        ({
            let path = "uploads/incoming/"@ + (chunk.peer.push('/') + chunk.filename);
            let temp = "uploads/incoming/.tmp/"@ + (chunk.peer.push('/') + chunk.filename);
            let step = StepView::Store { path, data: stored, temp_path: temp };
            &&& after_read(chunk, key, nonce, Ok(data)) == step
            &&& after_sealing(chunk, Some(stored)) == step
            &&& path != temp
            &&& user_of(sessions, header) is Some && chunk.peer.len() > 0 && chunk.filename.len()
                > 0 ==> (incoming_request(
                sessions,
                header,
                Some(chunk.peer),
                Some(chunk.filename),
            ) matches Ok(download) && download.file_path == path)
            &&& after_dir(chunk, Ok(())) == (StepView::WriteChunk {
                path: temp,
                first: chunk.chunk_index == 0,
            })
            &&& after_write(chunk, Ok(())) is ReadBack ==> after_write(chunk, Ok(())) == (
            StepView::ReadBack { path: temp })
        }),
{
    crate::layout::law_every_file_has_its_place(chunk.peer, chunk.filename);
    reveal_strlit("uploads/incoming/.tmp/");
    assert(gathering_location(chunk.peer, chunk.filename) =~= "uploads/incoming/.tmp/"@ + (
    chunk.peer.push('/') + chunk.filename));
}

/// A chunk that was written calls for reading the file back where it is the last of
/// the number that the peer announced, and is acknowledged by its own number where it
/// is not; the last one is acknowledged by its own number once the file was stored.
pub proof fn law_written_chunk_is_acknowledged(chunk: ChunkView)
    ensures
        chunk.chunk_index + 1 == chunk.total_chunks ==> after_write(chunk, Ok(())) is ReadBack,
        chunk.chunk_index + 1 != chunk.total_chunks ==> after_write(chunk, Ok(()))
            == StepView::Respond(ResponseView::FileChunkAck { chunk_index: chunk.chunk_index }),
        after_store(chunk, Ok(())) == StepView::Respond(
            ResponseView::FileChunkAck { chunk_index: chunk.chunk_index },
        ),
{
}

/// Where a step fails the peer is told which one and why, and nothing more is done for
/// the chunk.
pub proof fn law_failed_step_is_told(
    chunk: ChunkView,
    key: Seq<u8>,
    nonce: Seq<u8>,
    data: Seq<u8>,
    why: Seq<char>,
)
    ensures
        after_dir(chunk, Err(why)) == StepView::Respond(
            ResponseView::Error("Dir creation failed: "@ + why),
        ),
        after_write(chunk, Err(why)) == StepView::Respond(
            ResponseView::Error("Write failed: "@ + why),
        ),
        after_read(chunk, key, nonce, Err(why)) == StepView::Respond(
            ResponseView::Error("Encrypt failed: "@ + why),
        ),
        sealed(key, nonce, data) is None ==> after_read(chunk, key, nonce, Ok(data))
            == StepView::Respond(ResponseView::Error("Encrypt failed: "@ + "Error"@)),
        after_sealing(chunk, None) == StepView::Respond(
            ResponseView::Error("Encrypt failed: "@ + "Error"@),
        ),
        after_store(chunk, Err(why)) == StepView::Respond(
            ResponseView::Error("Encrypt failed: "@ + why),
        ),
{
}

/// A chunk is taken in as it was sent: from the peer that sent it, under the name, the
/// number and the count it was sent with, and with all its bytes. A ping is answered
/// with the identity and the name of the node.
pub proof fn law_request_is_taken_as_it_came(
    peer_id: Seq<char>,
    name: Seq<char>,
    peer: Seq<char>,
    filename: Seq<char>,
    chunk_index: u64,
    total_chunks: u64,
    data: Seq<u8>,
)
    ensures
        request_action(
            peer_id,
            name,
            peer,
            RequestView::SendFile { filename, chunk_index, total_chunks, data },
        ) == RequestActionView::Receive(
            ChunkView { peer, filename, chunk_index, total_chunks, data },
        ),
        request_action(peer_id, name, peer, RequestView::Ping) == RequestActionView::Respond(
            ResponseView::Pong { peer_id, name },
        ),
{
}

/// What is seen of chunks, of steps and of attempts is all of them.
pub proof fn law_steps_are_seen_as_they_are(
    chunk: ChunkReceipt,
    response: NearShareResponse,
    path: String,
    other: String,
    data: Vec<u8>,
    first: bool,
)
    ensures
        chunk@.peer == chunk.peer@,
        chunk@.filename == chunk.filename@,
        chunk@.chunk_index == chunk.chunk_index,
        chunk@.total_chunks == chunk.total_chunks,
        chunk@.data == chunk.data@,
        RequestAction::Receive(chunk)@ == RequestActionView::Receive(chunk@),
        RequestAction::Respond(response)@ == RequestActionView::Respond(response@),
        (ReceiveStep::WriteChunk { path, first })@ == (StepView::WriteChunk { path: path@, first }),
        (ReceiveStep::ReadBack { path })@ == (StepView::ReadBack { path: path@ }),
        (ReceiveStep::Store { path, data, temp_path: other })@ == (StepView::Store {
            path: path@,
            data: data@,
            temp_path: other@,
        }),
        ReceiveStep::Respond(response)@ == StepView::Respond(response@),
        attempt_view(Ok(())) == Ok::<(), Seq<char>>(()),
        attempt_view(Err(path)) == Err::<(), Seq<char>>(path@),
{
}

/// What a peer sent is found where it is asked for: the file that is stored when the
/// chunks were read back, under a given nonce or a fresh one, lies where a request to
/// download it reads, opens to what was read, and is not the temporary file that is
/// removed.
pub proof fn law_file_from_a_peer_is_found_again(
    header: Option<&[u8]>,
    sessions: &Sessions,
    chunk: ChunkReceipt,
    key: EncryptionKey,
    nonce: [u8; 12],
    contents: Vec<u8>,
    given: ReceiveStep,
    drawn: ReceiveStep,
    download: Result<Download, Reply>,
)
    requires
        encryptable(contents@.len()),
        call_ensures(ChunkReceipt::read_back_with, (&chunk, &key, &nonce, Ok(contents)), given),
        call_ensures(ChunkReceipt::read_back, (&chunk, &key, Ok(contents)), drawn),
        user_of(sessions@, header_view(header)) is Some,
        chunk.peer@.len() > 0,
        chunk.filename@.len() > 0,
        call_ensures(
            download_incoming_file,
            (header, sessions, Some(chunk.peer), Some(chunk.filename)),
            download,
        ),
    ensures
        download matches Ok(found) && (given matches ReceiveStep::Store { path, data, temp_path }
            && path@ == found.file_path@ && path@ == "uploads/incoming/"@ + (chunk.peer@.push('/')
            + chunk.filename@) && temp_path@ == "uploads/incoming/.tmp/"@ + (chunk.peer@.push('/')
            + chunk.filename@) && path@ != temp_path@ && opened(key@, data@) == Ok::<
            Seq<u8>,
            OpenError,
        >(contents@)),
        download matches Ok(found) && (drawn matches ReceiveStep::Store { path, data, temp_path }
            && path@ == found.file_path@ && path@ != temp_path@ && opened(key@, data@) == Ok::<
            Seq<u8>,
            OpenError,
        >(contents@)),
{
    let at = header_view(header);
    let stored = sealed(key@, nonce@, contents@)->Some_0;
    law_gathered_file_is_kept_where_it_is_asked_for(
        sessions@,
        at,
        chunk@,
        key@,
        nonce@,
        contents@,
        stored,
    );
    let fresh = choose|fresh: Seq<u8>|
        fresh.len() == NONCE_LEN && drawn@ == #[trigger] after_read(
            chunk@,
            key@,
            fresh,
            read_view(Ok(contents)),
        );
    law_gathered_file_is_kept_where_it_is_asked_for(
        sessions@,
        at,
        chunk@,
        key@,
        fresh,
        contents@,
        sealed(key@, fresh, contents@)->Some_0,
    );
}

/// Where the chunks of a file are written is one place for all of them, below the
/// directory that is made first, and that is where they are read back.
pub proof fn law_chunks_are_written_to_one_place(
    chunk: ChunkReceipt,
    dir: String,
    created: ReceiveStep,
    written: ReceiveStep,
)
    requires
        call_ensures(ChunkReceipt::temp_dir, (&chunk,), dir),
        call_ensures(ChunkReceipt::dir_created, (&chunk, Ok(())), created),
        call_ensures(ChunkReceipt::chunk_written, (&chunk, Ok(())), written),
    ensures
        dir@ == "uploads/incoming/.tmp/"@ + chunk.peer@,
        created matches ReceiveStep::WriteChunk { path, first } && path@ == dir@.push('/')
            + chunk.filename@ && (first <==> chunk.chunk_index == 0),
        chunk.chunk_index + 1 == chunk.total_chunks ==> (written matches ReceiveStep::ReadBack {
            path,
        } && path@ == dir@.push('/') + chunk.filename@),
        chunk.chunk_index + 1 != chunk.total_chunks ==> (written matches ReceiveStep::Respond(
            NearShareResponse::FileChunkAck { chunk_index },
        ) && chunk_index == chunk.chunk_index),
{
    crate::layout::law_every_file_has_its_place(chunk.peer@, chunk.filename@);
}

} // verus!
