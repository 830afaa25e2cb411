//! Recording bookkeeping: chunk identifiers and chunk metadata.
use vstd::prelude::*;

verus! {

/// Identifier of a recorded chunk.
#[derive(Debug, Clone, Copy, PartialEq, Eq, Hash, Structural)]
pub struct ChunkId(pub u64);

impl ChunkId {
    /// The chunk identifier `id`.
    pub fn new(id: u64) -> (r: Self)
        ensures
            r.0 == id,
    {
        ChunkId(id)
    }

    /// The identifier that follows this one.
    pub fn next(&self) -> (r: Self)
        requires
            self.0 < u64::MAX,
        ensures
            r.0 == self.0 + 1,
    {
        ChunkId(self.0 + 1)
    }
}

/// Metadata of one recorded chunk.
#[derive(Debug, Clone)]
pub struct ChunkMetadata {
    pub chunk_id: ChunkId,
    /// Microseconds from the start of the session.
    pub timestamp: u64,
    /// Size of the chunk in bytes.
    pub size: usize,
    /// Hash of the chunk's bytes, as text.
    pub hash: String,
    pub has_keyframe: bool,
}

impl ChunkMetadata {
    /// Metadata with the given fields.
    pub fn new(chunk_id: ChunkId, timestamp: u64, size: usize, hash: String, has_keyframe: bool) -> (r: Self)
        ensures
            r.chunk_id == chunk_id,
            r.timestamp == timestamp,
            r.size == size,
            r.hash == hash,
            r.has_keyframe == has_keyframe,
    {
        ChunkMetadata { chunk_id, timestamp, size, hash, has_keyframe }
    }
}

} // verus!
