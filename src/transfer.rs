use vstd::prelude::*;
use crate::error::TsbinError;
use crate::codec::{open_frames, Encryptor};
use crate::keys::{hash_passphrase, passcode_hash};
use crate::types::{ChunkUploadResponse, EncryptionOptions, TrashMeta, UploadProgress, DEFAULT_CHUNK_SIZE, DEFAULT_MAX_RETRIES, ENCRYPTION_TYPE};

verus! {

/// Number of chunks of size `c` that cover `s` bytes: `ceil(s / c)`.
pub open spec fn ceil_div(s: int, c: int) -> int {
    (s + c - 1) / c
}

/// Number of transfer chunks of a source of `file_size` bytes cut into
/// pieces of `chunk_size` bytes.
pub fn total_chunks(file_size: usize, chunk_size: usize) -> (r: usize)
    requires
        chunk_size > 0,
    ensures
        r as int == ceil_div(file_size as int, chunk_size as int),
{
    let q = file_size / chunk_size;
    let m = file_size % chunk_size;
    proof {
        let s = file_size as int;
        let c = chunk_size as int;
        assert(s == (s / c) * c + s % c) by (nonlinear_arith) requires c > 0;
        if m == 0 {
            assert((s + c - 1) / c == s / c) by (nonlinear_arith) requires c > 0, s % c == 0, s == (s / c) * c + s % c;
        } else {
            assert((s + c - 1) / c == s / c + 1) by (nonlinear_arith) requires c > 0, s % c > 0, s % c < c, s == (s / c) * c + s % c;
            assert(s / c < s) by (nonlinear_arith) requires c > 1, s > 0;
        }
    }
    if m == 0 { q } else { q + 1 }
}

/// The abstract state of an upload.
pub struct UploadModel {
    pub total: nat,
    pub max_retries: nat,
    /// Index of the chunk being attempted; `total` once all were attempted.
    pub next_chunk: nat,
    /// Failed attempts of the current chunk so far.
    pub attempts: nat,
    pub uploaded: nat,
    pub failed: Seq<u32>,
    pub file_ids: Seq<Seq<char>>,
    pub message_ids: Seq<u32>,
}

/// The state after one attempt of the current chunk: `Some` carries the
/// identifiers that the store assigned, `None` stands for a failed call.
/// A chunk is given up after its `max_retries`-th failed attempt (after its
/// first when `max_retries` is 0).
pub open spec fn upload_step(s: UploadModel, outcome: Option<(Seq<char>, u32)>) -> UploadModel {
    match outcome {
        Some((file_id, message_id)) => UploadModel {
            next_chunk: s.next_chunk + 1,
            attempts: 0,
            uploaded: s.uploaded + 1,
            file_ids: s.file_ids.push(file_id),
            message_ids: s.message_ids.push(message_id),
            ..s
        },
        None => if s.attempts + 1 >= s.max_retries {
            UploadModel {
                next_chunk: s.next_chunk + 1,
                attempts: 0,
                failed: s.failed.push(s.next_chunk as u32),
                ..s
            }
        } else {
            UploadModel { attempts: s.attempts + 1, ..s }
        },
    }
}

/// The decisions of a chunked upload: which byte range to send next, when
/// to retry, and when the upload has failed or may be committed.
pub struct UploadSession {
    pub file_size: usize,
    pub chunk_size: usize,
    pub max_retries: u32,
    pub total: usize,
    pub next_chunk: usize,
    pub attempts: u32,
    pub file_ids: Vec<String>,
    pub message_ids: Vec<u32>,
    pub progress: UploadProgress,
}

impl View for UploadSession {
    type V = UploadModel;

    open spec fn view(&self) -> UploadModel {
        UploadModel {
            total: self.total as nat,
            max_retries: self.max_retries as nat,
            next_chunk: self.next_chunk as nat,
            attempts: self.attempts as nat,
            uploaded: self.progress.uploaded_chunks as nat,
            failed: self.progress.failed_chunks@,
            file_ids: self.file_ids@.map_values(|f: String| f@),
            message_ids: self.message_ids@,
        }
    }
}

impl UploadSession {
    pub open spec fn wf(&self) -> bool {
        &&& self.chunk_size > 0
        &&& self.total as int == ceil_div(self.file_size as int, self.chunk_size as int)
        &&& self.total <= u32::MAX
        &&& self.progress.total_chunks as usize == self.total
        &&& self.next_chunk <= self.total
        &&& self.progress.uploaded_chunks as int + self.progress.failed_chunks@.len() == self.next_chunk
        &&& self.file_ids@.len() == self.progress.uploaded_chunks
        &&& self.message_ids@.len() == self.progress.uploaded_chunks
        &&& (self.attempts == 0 || self.attempts < self.max_retries)
        &&& self.next_chunk == self.total ==> self.attempts == 0
    }

    /// A session for a source of `file_size` bytes with the options'
    /// chunk size and retry budget (10 MiB and 3 where unset). Fails with
    /// `Validation` for a chunk size of 0 or more than `u32::MAX` chunks.
    pub fn new(file_size: usize, options: &EncryptionOptions) -> (r: Result<UploadSession, TsbinError>)
        ensures
            ({
                let c = match options.chunk_size { Some(c) => c, None => DEFAULT_CHUNK_SIZE };
                let m = match options.max_retries { Some(m) => m, None => DEFAULT_MAX_RETRIES };
                match r {
                    Ok(s) => s.wf() && c > 0 && ceil_div(file_size as int, c as int) <= u32::MAX
                        && s.file_size == file_size && s.chunk_size == c && s.max_retries == m
                        && s@.total == ceil_div(file_size as int, c as int)
                        && s@.next_chunk == 0 && s@.attempts == 0 && s@.uploaded == 0
                        && s@.failed.len() == 0 && s@.file_ids.len() == 0 && s@.message_ids.len() == 0
                        && !s.progress.completed && s.progress.trash_id is None,
                    Err(e) => e == TsbinError::Validation
                        && (c == 0 || ceil_div(file_size as int, c as int) > u32::MAX),
                }
            }),
    {
        let chunk_size = match options.chunk_size { Some(c) => c, None => DEFAULT_CHUNK_SIZE };
        let max_retries = match options.max_retries { Some(m) => m, None => DEFAULT_MAX_RETRIES };
        if chunk_size == 0 {
            return Err(TsbinError::Validation);
        }
        let total = total_chunks(file_size, chunk_size);
        if total > u32::MAX as usize {
            return Err(TsbinError::Validation);
        }
        let progress = UploadProgress {
            total_chunks: total as u32,
            uploaded_chunks: 0,
            failed_chunks: Vec::new(),
            completed: false,
            trash_id: None,
        };
        let s = UploadSession {
            file_size,
            chunk_size,
            max_retries,
            total,
            next_chunk: 0,
            attempts: 0,
            file_ids: Vec::new(),
            message_ids: Vec::new(),
            progress,
        };
        assert(s@.file_ids =~= Seq::<Seq<char>>::empty());
        Ok(s)
    }

    /// The byte range `[start, end)` of the chunk to attempt now, or `None`
    /// once every chunk has been attempted.
    pub fn current_range(&self) -> (r: Option<(usize, usize)>)
        requires
            self.wf(),
        ensures
            match r {
                Some((start, end)) => self.next_chunk < self.total
                    && start == self.next_chunk * self.chunk_size
                    && end as int == if start + self.chunk_size < self.file_size { start + self.chunk_size } else { self.file_size as int }
                    && start < end,
                None => self.next_chunk == self.total,
            },
    {
        if self.next_chunk == self.total {
            return None;
        }
        let ghost i = self.next_chunk as int;
        let ghost c = self.chunk_size as int;
        let ghost s = self.file_size as int;
        assert(i * c < s) by (nonlinear_arith)
            requires c > 0, 0 <= i, i < (s + c - 1) / c;
        let start = self.next_chunk * self.chunk_size;
        let end = if self.file_size - start > self.chunk_size { start + self.chunk_size } else { self.file_size };
        Some((start, end))
    }

    /// Records one attempt of the current chunk: `Some` with the store's
    /// answer, `None` for a failed call. Returns whether the same chunk is
    /// to be attempted again.
    pub fn record_attempt(&mut self, outcome: Option<ChunkUploadResponse>) -> (retry: bool)
        requires
            old(self).wf(),
            old(self).next_chunk < old(self).total,
        ensures
            final(self).wf(),
            final(self)@ == upload_step(old(self)@, match outcome {
                Some(resp) => Some((resp.file_id@, resp.message_id)),
                None => None,
            }),
            retry == (final(self)@.next_chunk == old(self)@.next_chunk),
            final(self).file_size == old(self).file_size,
            final(self).chunk_size == old(self).chunk_size,
            final(self).progress.total_chunks == old(self).progress.total_chunks,
            final(self).progress.completed == old(self).progress.completed,
            final(self).progress.trash_id == old(self).progress.trash_id,
    {
        match outcome {
            Some(resp) => {
                self.file_ids.push(resp.file_id);
                self.message_ids.push(resp.message_id);
                self.progress.uploaded_chunks = self.progress.uploaded_chunks + 1;
                self.next_chunk = self.next_chunk + 1;
                self.attempts = 0;
                assert(self@.file_ids =~= old(self)@.file_ids.push(resp.file_id@));
                false
            },
            None => {
                if self.attempts + 1 >= self.max_retries {
                    self.progress.failed_chunks.push(self.next_chunk as u32);
                    self.next_chunk = self.next_chunk + 1;
                    self.attempts = 0;
                    false
                } else {
                    self.attempts = self.attempts + 1;
                    true
                }
            },
        }
    }

    /// Once every chunk was attempted: `RetriesExhausted` with the number of
    /// chunks given up, if any; else the upload may be committed. Chunks
    /// already uploaded stay on the store either way.
    pub fn finish(&self) -> (r: Result<(), TsbinError>)
        requires
            self.wf(),
            self.next_chunk == self.total,
        ensures
            match r {
                Ok(()) => self@.failed.len() == 0 && self@.uploaded == self@.total,
                Err(e) => self@.failed.len() > 0 && e == TsbinError::RetriesExhausted(self@.failed.len() as usize),
            },
    {
        if self.progress.failed_chunks.len() > 0 {
            Err(TsbinError::RetriesExhausted(self.progress.failed_chunks.len()))
        } else {
            Ok(())
        }
    }

    /// Marks the upload completed under the record id that the store assigned.
    pub fn commit(&mut self, trash_id: String)
        requires
            old(self).wf(),
        ensures
            final(self).wf(),
            final(self)@ == old(self)@,
            final(self).progress.completed,
            final(self).progress.trash_id == Some(trash_id),
            final(self).file_size == old(self).file_size,
            final(self).chunk_size == old(self).chunk_size,
    {
        self.progress.completed = true;
        self.progress.trash_id = Some(trash_id);
    }
}

/// Metadata of the file record that commits an upload.
pub struct FileRecordMeta {
    pub passcode_hash: String,
    pub expire_at: Option<String>,
    pub original_size: usize,
    pub total_chunks: usize,
    pub chunk_size: usize,
    pub encryption_type: String,
    pub filename: String,
}

impl UploadSession {
    /// The metadata sent with the chunk identifiers to create the file record.
    pub fn file_record(&self, passcode: &str, expire_at: Option<String>, filename: String) -> (r: FileRecordMeta)
        ensures
            r.passcode_hash@ == passcode_hash(passcode@),
            r.expire_at == expire_at,
            r.original_size == self.file_size,
            r.total_chunks == self.total,
            r.chunk_size == self.chunk_size,
            r.encryption_type@ == ENCRYPTION_TYPE@,
            r.filename == filename,
    {
        FileRecordMeta {
            passcode_hash: hash_passphrase(passcode),
            expire_at,
            original_size: self.file_size,
            total_chunks: self.total,
            chunk_size: self.chunk_size,
            encryption_type: ENCRYPTION_TYPE.to_owned(),
            filename,
        }
    }
}

/// The decisions of a chunked download: which chunk comes next, what each
/// downloaded chunk contributes, and whether the whole download succeeded.
/// Plaintexts are appended in chunk order.
pub struct DownloadSession {
    pub trash_id: String,
    pub file_ids: Vec<String>,
    pub next_chunk: usize,
    pub data: Vec<u8>,
    pub progress: UploadProgress,
}

impl DownloadSession {
    pub open spec fn wf(&self) -> bool {
        &&& self.file_ids@.len() <= u32::MAX
        &&& self.progress.total_chunks as int == self.file_ids@.len()
        &&& self.next_chunk <= self.file_ids@.len()
        &&& self.progress.uploaded_chunks as int + self.progress.failed_chunks@.len() == self.next_chunk
    }

    /// A session over the chunks that a record's metadata lists. Fails with
    /// `Validation` unless the record is of type `"file"`, and with
    /// `MalformedResponse` when it lists no chunk identifiers or more than
    /// `u32::MAX`.
    pub fn new(trash_id: String, meta: TrashMeta) -> (r: Result<DownloadSession, TsbinError>)
        ensures
            meta.trash_type@ != "file"@ ==> r == Err::<DownloadSession, TsbinError>(TsbinError::Validation),
            meta.trash_type@ == "file"@ ==> match meta.file_ids {
                None => r == Err::<DownloadSession, TsbinError>(TsbinError::MalformedResponse),
                Some(ids) => if ids@.len() > u32::MAX {
                    r == Err::<DownloadSession, TsbinError>(TsbinError::MalformedResponse)
                } else {
                    r matches Ok(s) && s.wf() && s.trash_id == trash_id && s.file_ids@ == ids@
                        && s.next_chunk == 0 && s.data@.len() == 0
                        && s.progress.uploaded_chunks == 0 && s.progress.failed_chunks@.len() == 0
                        && !s.progress.completed && s.progress.trash_id == Some(trash_id)
                },
            },
    {
        let file = "file".to_owned();
        if meta.trash_type != file {
            return Err(TsbinError::Validation);
        }
        let file_ids = match meta.file_ids {
            Some(ids) => ids,
            None => {
                return Err(TsbinError::MalformedResponse);
            },
        };
        if file_ids.len() > u32::MAX as usize {
            return Err(TsbinError::MalformedResponse);
        }
        let progress = UploadProgress {
            total_chunks: file_ids.len() as u32,
            uploaded_chunks: 0,
            failed_chunks: Vec::new(),
            completed: false,
            trash_id: Some(trash_id.clone()),
        };
        Ok(DownloadSession { trash_id, file_ids, next_chunk: 0, data: Vec::new(), progress })
    }

    /// Index of the chunk to download next, or `None` once all were tried.
    pub fn next_index(&self) -> (r: Option<usize>)
        requires
            self.wf(),
        ensures
            match r {
                Some(i) => i == self.next_chunk && i < self.file_ids@.len(),
                None => self.next_chunk == self.file_ids@.len(),
            },
    {
        if self.next_chunk < self.file_ids.len() { Some(self.next_chunk) } else { None }
    }

    /// Records the download of the current chunk: `Some` with its encrypted
    /// bytes, `None` for a failed call, which is recorded and passed over. A
    /// chunk that does not decrypt fails the whole download with the codec's
    /// error.
    pub fn record_download(&mut self, encryptor: &Encryptor, outcome: Option<Vec<u8>>) -> (r: Result<(), TsbinError>)
        requires
            old(self).wf(),
            old(self).next_chunk < old(self).file_ids@.len(),
        ensures
            final(self).wf(),
            final(self).file_ids == old(self).file_ids,
            final(self).progress.completed == old(self).progress.completed,
            match outcome {
                None => r is Ok && final(self).next_chunk == old(self).next_chunk + 1
                    && final(self).data == old(self).data
                    && final(self).progress.uploaded_chunks == old(self).progress.uploaded_chunks
                    && final(self).progress.failed_chunks@ == old(self).progress.failed_chunks@.push(old(self).next_chunk as u32),
                Some(bytes) => match open_frames(encryptor.key(), bytes@) {
                    Ok(p) => r is Ok && final(self).next_chunk == old(self).next_chunk + 1
                        && final(self).data@ == old(self).data@ + p
                        && final(self).progress.uploaded_chunks == old(self).progress.uploaded_chunks + 1
                        && final(self).progress.failed_chunks == old(self).progress.failed_chunks,
                    Err(e) => r == Err::<(), TsbinError>(e),
                },
            },
    {
        match outcome {
            None => {
                self.progress.failed_chunks.push(self.next_chunk as u32);
                self.next_chunk = self.next_chunk + 1;
                Ok(())
            },
            Some(bytes) => {
                match encryptor.decrypt(bytes.as_slice()) {
                    Ok(mut p) => {
                        self.data.append(&mut p);
                        self.progress.uploaded_chunks = self.progress.uploaded_chunks + 1;
                        self.next_chunk = self.next_chunk + 1;
                        Ok(())
                    },
                    Err(e) => Err(e),
                }
            },
        }
    }

    /// Once every chunk was tried: `ChunksFailed` with the number of chunks
    /// that could not be downloaded, if any; else the download is marked
    /// completed and `data` holds the plaintext.
    pub fn finish(&mut self) -> (r: Result<(), TsbinError>)
        requires
            old(self).wf(),
            old(self).next_chunk == old(self).file_ids@.len(),
        ensures
            final(self).wf(),
            final(self).data == old(self).data,
            final(self).progress.failed_chunks == old(self).progress.failed_chunks,
            final(self).progress.uploaded_chunks == old(self).progress.uploaded_chunks,
            match r {
                Ok(()) => old(self).progress.failed_chunks@.len() == 0 && final(self).progress.completed
                    && final(self).progress.uploaded_chunks as int == final(self).file_ids@.len(),
                Err(e) => old(self).progress.failed_chunks@.len() > 0
                    && e == TsbinError::ChunksFailed(old(self).progress.failed_chunks@.len() as usize)
                    && final(self).progress.completed == old(self).progress.completed,
            },
    {
        if self.progress.failed_chunks.len() > 0 {
            return Err(TsbinError::ChunksFailed(self.progress.failed_chunks.len()));
        }
        self.progress.completed = true;
        Ok(())
    }
}

/// Attempts of one chunk before it is given up.
pub open spec fn attempt_budget(max_retries: nat) -> nat {
    if max_retries == 0 { 1 } else { max_retries }
}

/// The state after `k` failed attempts in a row.
pub open spec fn fail_times(s: UploadModel, k: nat) -> UploadModel
    decreases k,
{
    if k == 0 { s } else { upload_step(fail_times(s, (k - 1) as nat), None) }
}

/// The state after one successful attempt for each identifier pair, in order.
pub open spec fn succeed_all(s: UploadModel, ids: Seq<(Seq<char>, u32)>) -> UploadModel
    decreases ids.len(),
{
    if ids.len() == 0 { s } else { upload_step(succeed_all(s, ids.drop_last()), Some(ids.last())) }
}

proof fn lemma_fail_times_below(s: UploadModel, k: nat)
    requires
        s.attempts == 0,
        k < attempt_budget(s.max_retries),
    ensures
        fail_times(s, k) == (UploadModel { attempts: k, ..s }),
    decreases k,
{
    if k > 0 {
        lemma_fail_times_below(s, (k - 1) as nat);
    }
}

/// A chunk whose every upload attempt fails is attempted exactly
/// `max_retries` times (once when that is 0): after each earlier failure the
/// same chunk is attempted again; after the last one it is recorded as failed
/// and the next chunk is taken up.
pub proof fn lemma_retry_exhaustion(s: UploadModel)
    requires
        s.attempts == 0,
    ensures
        forall|k: nat| 1 <= k < attempt_budget(s.max_retries)
            ==> #[trigger] fail_times(s, k).next_chunk == s.next_chunk,
        fail_times(s, attempt_budget(s.max_retries)).next_chunk == s.next_chunk + 1,
        fail_times(s, attempt_budget(s.max_retries)).failed == s.failed.push(s.next_chunk as u32),
        fail_times(s, attempt_budget(s.max_retries)).uploaded == s.uploaded,
        fail_times(s, attempt_budget(s.max_retries)).attempts == 0,
{
    assert forall|k: nat| 1 <= k < attempt_budget(s.max_retries)
        implies #[trigger] fail_times(s, k).next_chunk == s.next_chunk by {
        lemma_fail_times_below(s, k);
    }
    let b = attempt_budget(s.max_retries);
    lemma_fail_times_below(s, (b - 1) as nat);
}

/// When every chunk of a fresh upload succeeds, all `total` chunks are
/// counted as uploaded, none as failed, and the identifiers are kept in
/// chunk order.
pub proof fn lemma_full_success(s: UploadModel, ids: Seq<(Seq<char>, u32)>)
    requires
        s.next_chunk == 0,
        s.uploaded == 0,
        s.failed.len() == 0,
        s.file_ids.len() == 0,
        s.message_ids.len() == 0,
        ids.len() == s.total,
    ensures
        succeed_all(s, ids).next_chunk == s.total,
        succeed_all(s, ids).uploaded == s.total,
        succeed_all(s, ids).failed.len() == 0,
        succeed_all(s, ids).file_ids == ids.map_values(|p: (Seq<char>, u32)| p.0),
        succeed_all(s, ids).message_ids == ids.map_values(|p: (Seq<char>, u32)| p.1),
{
    lemma_succeed_all(s, ids);
}

proof fn lemma_succeed_all(s: UploadModel, ids: Seq<(Seq<char>, u32)>)
    requires
        s.next_chunk == 0,
        s.uploaded == 0,
        s.failed.len() == 0,
        s.file_ids.len() == 0,
        s.message_ids.len() == 0,
    ensures
        succeed_all(s, ids).next_chunk == ids.len(),
        succeed_all(s, ids).uploaded == ids.len(),
        succeed_all(s, ids).failed.len() == 0,
        succeed_all(s, ids).file_ids == ids.map_values(|p: (Seq<char>, u32)| p.0),
        succeed_all(s, ids).message_ids == ids.map_values(|p: (Seq<char>, u32)| p.1),
    decreases ids.len(),
{
    if ids.len() == 0 {
        assert(s.file_ids =~= ids.map_values(|p: (Seq<char>, u32)| p.0));
        assert(s.message_ids =~= ids.map_values(|p: (Seq<char>, u32)| p.1));
    } else {
        lemma_succeed_all(s, ids.drop_last());
        assert(succeed_all(s, ids).file_ids =~= ids.map_values(|p: (Seq<char>, u32)| p.0));
        assert(succeed_all(s, ids).message_ids =~= ids.map_values(|p: (Seq<char>, u32)| p.1));
    }
}

} // verus!
