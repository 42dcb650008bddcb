use vstd::prelude::*;

verus! {

/// A stored chat record.
#[derive(Debug)]
pub struct Message {
    pub id: String,
    pub session_id: String,
    pub role: String,
    pub content: String,
    pub created_at: i64,
}

/// The embedding vector of a long-term memory, stored as bytes.
#[derive(Debug)]
pub struct MemoryEmbedding {
    pub memory_id: String,
    pub model: String,
    pub dimensions: i32,
    pub embedding: Vec<u8>,
}

} // verus!
