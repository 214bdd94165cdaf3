//! The chunked firmware-upload stream: a payload is split into an ordered
//! sequence of bounded chunks, each tagged with the destination name, such
//! that the receiving side reassembles exactly the original payload.
use vstd::prelude::*;
use vstd::arithmetic::div_mod::lemma_fundamental_div_mod_converse;

verus! {

/// Upper bound, in bytes, on one upload frame.
pub const CHUNK_BYTES: usize = 2 * 1024 * 1024;

/// One frame of the upload stream: the destination firmware name and a
/// bounded slice of the payload.
pub struct UploadChunk {
    pub name: String,
    pub data: Vec<u8>,
}

/// The payload slices of a chunk sequence, in transmission order.
pub open spec fn chunks_data(cs: Seq<UploadChunk>) -> Seq<Seq<u8>> {
    cs.map_values(|c: UploadChunk| c.data@)
}

/// Concatenation of byte sequences, in order.
pub open spec fn concat_bytes(cs: Seq<Seq<u8>>) -> Seq<u8>
    decreases cs.len(),
{
    if cs.len() == 0 {
        Seq::empty()
    } else {
        concat_bytes(cs.drop_last()) + cs.last()
    }
}

/// Number of chunks a payload of `len` bytes produces: `ceil(len / CHUNK_BYTES)`.
pub open spec fn chunk_count(len: nat) -> nat {
    (len + CHUNK_BYTES - 1) as nat / CHUNK_BYTES as nat
}

/// The exact payload slice carried by chunk `i` of a `len`-byte payload.
pub open spec fn chunk_slice(data: Seq<u8>, i: int) -> Seq<u8> {
    data.subrange(
        i * CHUNK_BYTES,
        if (i + 1) * CHUNK_BYTES <= data.len() {
            (i + 1) * CHUNK_BYTES
        } else {
            data.len() as int
        },
    )
}

/// Splits `data` into `ceil(|data| / CHUNK_BYTES)` chunks, in payload order,
/// each tagged with `name`, each non-empty and at most `CHUNK_BYTES` long,
/// and concatenating back to `data`. A zero-length payload yields no chunks.
pub fn chunk_payload(name: &str, data: &Vec<u8>) -> (r: Vec<UploadChunk>)
    ensures
        r@.len() == chunk_count(data@.len()),
        forall|i: int| 0 <= i < r@.len() ==> (#[trigger] r@[i]).name@ == name@,
        forall|i: int| 0 <= i < r@.len() ==> (#[trigger] r@[i]).data@ == chunk_slice(data@, i),
        forall|i: int|
            0 <= i < r@.len() ==> 0 < (#[trigger] r@[i]).data@.len() <= CHUNK_BYTES,
        concat_bytes(chunks_data(r@)) == data@,
{
    let len = data.len();
    let mut chunks: Vec<UploadChunk> = Vec::new();
    let mut pos: usize = 0;
    proof {
        assert(concat_bytes(chunks_data(chunks@)) =~= data@.subrange(0, 0));
    }
    while pos < len
        invariant
            pos <= len,
            len == data@.len(),
            pos == chunks@.len() * CHUNK_BYTES || (pos == len && chunks@.len() == chunk_count(
                len as nat,
            )),
            forall|i: int| 0 <= i < chunks@.len() ==> (#[trigger] chunks@[i]).name@ == name@,
            forall|i: int|
                0 <= i < chunks@.len() ==> (#[trigger] chunks@[i]).data@ == chunk_slice(
                    data@,
                    i,
                ),
            forall|i: int|
                0 <= i < chunks@.len() ==> 0 < (#[trigger] chunks@[i]).data@.len()
                    <= CHUNK_BYTES,
            concat_bytes(chunks_data(chunks@)) == data@.subrange(0, pos as int),
        decreases len - pos,
    {
        let ghost k = chunks@.len() as int;
        let end = if CHUNK_BYTES <= len && pos <= len - CHUNK_BYTES {
            pos + CHUNK_BYTES
        } else {
            len
        };
        let piece = crate::bytes::copy_range(data, pos, end);
        let chunk = UploadChunk { name: name.to_owned(), data: piece };
        let ghost pre = chunks@;
        let ghost pdata = chunk.data@;
        proof {
            assert(pos == k * CHUNK_BYTES);
            assert((k + 1) * CHUNK_BYTES == k * CHUNK_BYTES + CHUNK_BYTES) by (nonlinear_arith);
            assert(chunk.data@ == chunk_slice(data@, k));
        }
        chunks.push(chunk);
        proof {
            assert(chunks_data(chunks@).drop_last() =~= chunks_data(pre));
            assert(chunks_data(chunks@).last() == pdata);
            assert(concat_bytes(chunks_data(chunks@)) == concat_bytes(chunks_data(pre))
                + pdata);
            assert(concat_bytes(chunks_data(chunks@)) =~= data@.subrange(0, end as int));
            if end == len && end != (k + 1) * CHUNK_BYTES {
                assert(len + CHUNK_BYTES - 1 == (k + 1) * CHUNK_BYTES + (len - pos - 1));
                lemma_fundamental_div_mod_converse(
                    len + CHUNK_BYTES - 1,
                    CHUNK_BYTES as int,
                    k + 1,
                    len - pos - 1,
                );
            }
        }
        pos = end;
    }
    proof {
        if pos == chunks@.len() * CHUNK_BYTES {
            let k = chunks@.len() as int;
            assert(len + CHUNK_BYTES - 1 == k * CHUNK_BYTES + (CHUNK_BYTES - 1));
            lemma_fundamental_div_mod_converse(
                len + CHUNK_BYTES - 1,
                CHUNK_BYTES as int,
                k,
                CHUNK_BYTES - 1,
            );
        }
        assert(data@.subrange(0, len as int) =~= data@);
    }
    chunks
}

} // verus!
