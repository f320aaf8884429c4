use vstd::prelude::*;

verus! {

/// Default size of one transfer chunk: 10 MiB.
pub const DEFAULT_CHUNK_SIZE: usize = 10485760;

/// Default number of attempts for one chunk upload.
pub const DEFAULT_MAX_RETRIES: u32 = 3;

/// Algorithm tag recorded with every encrypted object.
pub const ENCRYPTION_TYPE: &'static str = "aes256gcm";

/// A decrypted text record with the metadata echoed by the store.
pub struct TextTrashContent {
    pub id: String,
    pub enc_trash_text: String,
    pub encryption_type: String,
    pub text_length: usize,
}

/// Caller options of an upload.
pub struct EncryptionOptions {
    pub expire_at: Option<String>,
    pub chunk_size: Option<usize>,
    pub max_retries: Option<u32>,
}

impl EncryptionOptions {
    /// No expiry, 10 MiB chunks, 3 attempts per chunk.
    pub fn new() -> (r: EncryptionOptions)
        ensures
            r.expire_at is None,
            r.chunk_size == Some(DEFAULT_CHUNK_SIZE),
            r.max_retries == Some(DEFAULT_MAX_RETRIES),
    {
        EncryptionOptions { expire_at: None, chunk_size: Some(DEFAULT_CHUNK_SIZE), max_retries: Some(DEFAULT_MAX_RETRIES) }
    }

    pub fn set_expire_at(&mut self, expire_at: Option<String>)
        ensures
            final(self).expire_at == expire_at,
            final(self).chunk_size == old(self).chunk_size,
            final(self).max_retries == old(self).max_retries,
    {
        self.expire_at = expire_at;
    }

    pub fn set_chunk_size(&mut self, chunk_size: Option<usize>)
        ensures
            final(self).chunk_size == chunk_size,
            final(self).expire_at == old(self).expire_at,
            final(self).max_retries == old(self).max_retries,
    {
        self.chunk_size = chunk_size;
    }

    pub fn set_max_retries(&mut self, max_retries: Option<u32>)
        ensures
            final(self).max_retries == max_retries,
            final(self).expire_at == old(self).expire_at,
            final(self).chunk_size == old(self).chunk_size,
    {
        self.max_retries = max_retries;
    }
}

/// Metadata of a record on the remote store.
pub struct TrashMeta {
    pub trash_id: String,
    pub encrypted: bool,
    /// `"file"` or `"text"`.
    pub trash_type: String,
    pub expire_at: Option<String>,
    pub file_ids: Option<Vec<String>>,
    pub message_ids: Option<Vec<u64>>,
    pub total_chunks: Option<u32>,
    pub total_size: Option<u64>,
}

/// Identifiers that the store assigned to one uploaded chunk.
pub struct ChunkUploadResponse {
    pub file_id: String,
    pub message_id: u32,
    pub chunk_index: u32,
}

/// Cumulative state of a transfer, reported after every chunk.
pub struct UploadProgress {
    pub total_chunks: u32,
    pub uploaded_chunks: u32,
    pub failed_chunks: Vec<u32>,
    pub completed: bool,
    pub trash_id: Option<String>,
}

} // verus!
