//! Files cut into chunks and put together again.
use super::protocol::CHUNK_SIZE;
use vstd::prelude::*;

verus! {

/// How many chunks a file of the given length is cut into.
pub open spec fn chunk_count(len: nat) -> nat {
    ((len + CHUNK_SIZE - 1) / CHUNK_SIZE as int) as nat
}

/// The chunk of a file at a position: a full one, or what is left.
pub open spec fn chunk(data: Seq<u8>, i: int) -> Seq<u8> {
    let end = (i + 1) * CHUNK_SIZE;
    data.subrange(
        i * CHUNK_SIZE,
        if end < data.len() {
            end
        } else {
            data.len() as int
        },
    )
}

/// The chunks that a file is cut into.
pub open spec fn chunks(data: Seq<u8>) -> Seq<Seq<u8>> {
    Seq::new(chunk_count(data.len()), |i: int| chunk(data, i))
}

/// The pieces one after the other.
pub open spec fn joined(pieces: Seq<Seq<u8>>) -> Seq<u8>
    decreases pieces.len(),
{
    if pieces.len() == 0 {
        seq![]
    } else {
        joined(pieces.drop_last()) + pieces.last()
    }
}

/// The contents of a sequence of byte vectors.
pub open spec fn byte_seqs(pieces: Seq<Vec<u8>>) -> Seq<Seq<u8>> {
    pieces.map_values(|p: Vec<u8>| p@)
}

/// Cuts a file into chunks.
pub fn split_chunks(data: &[u8]) -> (pieces: Vec<Vec<u8>>)
    ensures
        byte_seqs(pieces@) == chunks(data@),
{
    let mut pieces: Vec<Vec<u8>> = Vec::new();
    let mut start: usize = 0;
    while start < data.len()
        invariant
            start <= data@.len(),
            start < data@.len() ==> start == pieces@.len() * CHUNK_SIZE,
            start == data@.len() ==> pieces@.len() == chunk_count(data@.len()),
            forall|i: int| 0 <= i < pieces@.len() ==> (#[trigger] pieces@[i])@ == chunk(data@, i),
        decreases data.len() - start,
    {
        let end: usize = if data.len() - start > CHUNK_SIZE {
            start + CHUNK_SIZE
        } else {
            data.len()
        };
        let piece = vstd::slice::slice_to_vec(vstd::slice::slice_subrange(data, start, end));
        pieces.push(piece);
        start = end;
    }
    assert(byte_seqs(pieces@) =~= chunks(data@));
    pieces
}

/// The first `n` chunks of a file, one after the other, are its beginning.
proof fn lemma_joined_prefix(data: Seq<u8>, n: nat)
    requires
        n <= chunk_count(data.len()),
    ensures
        joined(chunks(data).take(n as int)) == data.take(
            if n * CHUNK_SIZE < data.len() {
                n * CHUNK_SIZE
            } else {
                data.len() as int
            },
        ),
    decreases n,
{
    let first = chunks(data).take(n as int);
    if n > 0 {
        lemma_joined_prefix(data, (n - 1) as nat);
        assert(first.drop_last() == chunks(data).take(n - 1));
        assert(first.last() == chunk(data, n - 1));
    }
}

/// Cutting a file into chunks and putting the chunks together again gives the
/// file back.
pub proof fn law_chunks_join_to_the_file(data: Seq<u8>)
    ensures
        joined(chunks(data)) == data,
{
    let n = chunk_count(data.len());
    lemma_joined_prefix(data, n);
    assert(chunks(data).take(n as int) == chunks(data));
    assert(data.take(data.len() as int) == data);
}

/// No chunk is empty or longer than a full one, every chunk but the last is a
/// full one, and only an empty file has no chunks.
pub proof fn law_chunk_lengths(data: Seq<u8>)
    ensures
        chunks(data).len() == 0 <==> data.len() == 0,
        forall|i: int|
            0 <= i < chunks(data).len() ==> 0 < (#[trigger] chunks(data)[i]).len() <= CHUNK_SIZE,
        forall|i: int|
            0 <= i < chunks(data).len() - 1 ==> (#[trigger] chunks(data)[i]).len() == CHUNK_SIZE,
{
}

/// A file is cut from its start on, every 262144 bytes: the byte at a position of a
/// chunk is the one that stands in the file that far behind the chunks before it, and
/// there are just as many chunks as it takes.
pub proof fn law_chunks_are_cut_from_the_start(data: Seq<u8>, i: int, j: int)
    requires
        0 <= i < chunks(data).len(),
    ensures
        CHUNK_SIZE == 262144,
        (chunks(data).len() - 1) * 262144 < data.len() <= chunks(data).len() * 262144,
        i < chunks(data).len() - 1 ==> chunks(data)[i].len() == 262144,
        i == chunks(data).len() - 1 ==> chunks(data)[i].len() == data.len() - i * 262144,
        0 <= j < chunks(data)[i].len() ==> chunks(data)[i][j] == data[i * 262144 + j],
{
    assert(chunks(data)[i] == chunk(data, i));
}

/// The contents of pieces leave none out and change none.
pub proof fn law_pieces_are_seen_as_they_are(pieces: Seq<Vec<u8>>)
    ensures
        byte_seqs(pieces).len() == pieces.len(),
        forall|i: int| 0 <= i < pieces.len() ==> #[trigger] byte_seqs(pieces)[i] == pieces[i]@,
{
}

/// Cutting a file gives pieces that make it up again, byte for byte in their places,
/// each of 262144 bytes but for the last.
pub proof fn law_pieces_cut_make_up_the_file(data: &[u8], pieces: Vec<Vec<u8>>, i: int, j: int)
    requires
        call_ensures(split_chunks, (data,), pieces),
        0 <= i < pieces@.len(),
        0 <= j < pieces@[i]@.len(),
    ensures
        joined(byte_seqs(pieces@)) == data@,
        i < pieces@.len() - 1 ==> pieces@[i]@.len() == 262144,
        pieces@[i]@.len() <= 262144,
        pieces@[i]@[j] == data@[i * 262144 + j],
{
    law_chunks_join_to_the_file(data@);
    law_chunk_lengths(data@);
    assert(byte_seqs(pieces@).len() == pieces@.len());
    assert(byte_seqs(pieces@)[i] == pieces@[i]@);
    law_chunks_are_cut_from_the_start(data@, i, j);
}

} // verus!
