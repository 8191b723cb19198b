//! Byte-level content comparison.
//!
//! Two files count as equal exactly when their byte sequences are equal.
//! The comparison walks both inputs in fixed-size chunks in lockstep, so a
//! caller that reads from disk can feed one chunk pair at a time through
//! [`chunk_step`] and never hold a whole file in memory.

use vstd::prelude::*;
use vstd::slice::slice_index_get;
use vstd::slice::slice_subrange;

use crate::sync::SyncData;

verus! {

/// Size of one comparison chunk, in bytes.
pub const CHUNK_SIZE: usize = 8 * 1024;

/// What one lockstep chunk pair says about the files so far.
#[derive(Clone, Copy, PartialEq, Eq, Structural, Debug)]
pub enum ChunkVerdict {
    /// The files differ; stop reading.
    Differ,
    /// Both files ended together with all chunks equal; the files are equal.
    AllRead,
    /// Equal so far; read the next chunk pair.
    KeepReading,
}

/// Judges one pair of chunks read in lockstep: `src_chunk` and `dest_chunk`
/// hold the bytes each side returned for the same read.  A length mismatch
/// or differing bytes decide the comparison; two empty chunks mean both
/// files ended together.
pub fn chunk_step(src_chunk: &[u8], dest_chunk: &[u8]) -> (r: ChunkVerdict)
    ensures
        r == ChunkVerdict::Differ <==> src_chunk@ != dest_chunk@,
        r == ChunkVerdict::AllRead <==> (src_chunk@ == dest_chunk@ && src_chunk@.len() == 0),
        r == ChunkVerdict::KeepReading <==> (src_chunk@ == dest_chunk@ && src_chunk@.len() > 0),
{
    if src_chunk.len() != dest_chunk.len() {
        proof {
            assert(src_chunk@.len() != dest_chunk@.len());
        }
        return ChunkVerdict::Differ;
    }
    let n = src_chunk.len();
    let mut i: usize = 0;
    while i < n
        invariant
            n == src_chunk@.len(),
            n == dest_chunk@.len(),
            i <= n,
            forall|j: int| 0 <= j < i ==> src_chunk@[j] == dest_chunk@[j],
        decreases n - i,
    {
        if *slice_index_get(src_chunk, i) != *slice_index_get(dest_chunk, i) {
            proof {
                assert(src_chunk@[i as int] != dest_chunk@[i as int]);
            }
            return ChunkVerdict::Differ;
        }
        i += 1;
    }
    proof {
        assert(src_chunk@ =~= dest_chunk@);
    }
    if n == 0 {
        ChunkVerdict::AllRead
    } else {
        ChunkVerdict::KeepReading
    }
}

impl SyncData {
    /// Whether two files hold the same bytes, compared chunk by chunk in
    /// lockstep as the on-disk comparison does.
    pub fn files_are_equal(&self, src_data: &Vec<u8>, dest_data: &Vec<u8>) -> (r: bool)
        ensures
            r <==> src_data@ == dest_data@,
    {
        if src_data.len() != dest_data.len() {
            proof {
                assert(src_data@.len() != dest_data@.len());
            }
            return false;
        }
        let n = src_data.len();
        let mut start: usize = 0;
        loop
            invariant
                n == src_data@.len(),
                n == dest_data@.len(),
                start <= n,
                src_data@.subrange(0, start as int) == dest_data@.subrange(0, start as int),
            decreases n - start,
        {
            let end = if n - start < CHUNK_SIZE {
                n
            } else {
                start + CHUNK_SIZE
            };
            let src_chunk = slice_subrange(src_data.as_slice(), start, end);
            let dest_chunk = slice_subrange(dest_data.as_slice(), start, end);
            match chunk_step(src_chunk, dest_chunk) {
                ChunkVerdict::Differ => {
                    proof {
                        if src_data@ == dest_data@ {
                            assert(src_chunk@ == dest_chunk@);
                            assert(false);
                        }
                    }
                    return false;
                },
                ChunkVerdict::AllRead => {
                    proof {
                        assert(src_chunk@.len() == 0);
                        assert(start == n);
                        assert(src_data@ =~= src_data@.subrange(0, n as int));
                        assert(dest_data@ =~= dest_data@.subrange(0, n as int));
                    }
                    return true;
                },
                ChunkVerdict::KeepReading => {
                    proof {
                        assert(src_data@.subrange(0, end as int) =~= src_data@.subrange(
                            0,
                            start as int,
                        ) + src_chunk@);
                        assert(dest_data@.subrange(0, end as int) =~= dest_data@.subrange(
                            0,
                            start as int,
                        ) + dest_chunk@);
                    }
                    start = end;
                },
            }
        }
    }
}

} // verus!
