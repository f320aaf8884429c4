use tsbin::codec::Encryptor;
use tsbin::error::TsbinError;
use tsbin::transfer::{total_chunks, DownloadSession, UploadSession};
use tsbin::types::{ChunkUploadResponse, EncryptionOptions, TrashMeta};

const MIB: usize = 1024 * 1024;

fn options(chunk_size: usize, max_retries: u32) -> EncryptionOptions {
    let mut o = EncryptionOptions::new();
    o.set_chunk_size(Some(chunk_size));
    o.set_max_retries(Some(max_retries));
    o
}

fn response(i: u32) -> ChunkUploadResponse {
    ChunkUploadResponse { file_id: format!("f{}", i), message_id: 100 + i, chunk_index: i }
}

fn file_meta(ids: Option<Vec<String>>) -> TrashMeta {
    TrashMeta {
        trash_id: "t1".to_string(),
        encrypted: true,
        trash_type: "file".to_string(),
        expire_at: None,
        file_ids: ids,
        message_ids: None,
        total_chunks: None,
        total_size: None,
    }
}

#[test]
fn chunk_counts() {
    assert_eq!(total_chunks(25 * MIB, 10 * MIB), 3);
    assert_eq!(total_chunks(0, 10), 0);
    assert_eq!(total_chunks(10, 10), 1);
    assert_eq!(total_chunks(11, 10), 2);
    assert_eq!(total_chunks(usize::MAX, 1), usize::MAX);
}

#[test]
fn zero_chunk_size_is_rejected() {
    assert!(matches!(UploadSession::new(10, &options(0, 3)), Err(TsbinError::Validation)));
}

#[test]
fn too_many_chunks_is_rejected() {
    assert!(matches!(UploadSession::new(usize::MAX, &options(1, 3)), Err(TsbinError::Validation)));
}

#[test]
fn ranges_cover_the_source() {
    let mut s = UploadSession::new(25, &options(10, 3)).ok().unwrap();
    assert_eq!(s.progress.total_chunks, 3);
    let mut ranges = Vec::new();
    while let Some(r) = s.current_range() {
        ranges.push(r);
        let i = s.next_chunk as u32;
        assert!(!s.record_attempt(Some(response(i))));
    }
    assert_eq!(ranges, vec![(0, 10), (10, 20), (20, 25)]);
    assert_eq!(s.progress.uploaded_chunks, 3);
    assert!(s.progress.failed_chunks.is_empty());
    assert_eq!(s.file_ids, vec!["f0", "f1", "f2"]);
    assert_eq!(s.message_ids, vec![100, 101, 102]);
    assert_eq!(s.finish(), Ok(()));
    s.commit("rec".to_string());
    assert!(s.progress.completed);
    assert_eq!(s.progress.trash_id, Some("rec".to_string()));
}

#[test]
fn failing_chunk_is_attempted_max_retries_times() {
    let mut s = UploadSession::new(5, &options(10, 3)).ok().unwrap();
    let mut attempts = 0;
    loop {
        attempts += 1;
        if !s.record_attempt(None) {
            break;
        }
    }
    assert_eq!(attempts, 3);
    assert_eq!(s.progress.failed_chunks, vec![0]);
    assert_eq!(s.current_range(), None);
    assert_eq!(s.finish(), Err(TsbinError::RetriesExhausted(1)));
}

#[test]
fn zero_retries_attempts_once() {
    let mut s = UploadSession::new(5, &options(10, 0)).ok().unwrap();
    assert!(!s.record_attempt(None));
    assert_eq!(s.progress.failed_chunks, vec![0]);
}

#[test]
fn retry_then_success() {
    let mut s = UploadSession::new(5, &options(10, 3)).ok().unwrap();
    assert!(s.record_attempt(None));
    assert!(s.record_attempt(None));
    assert!(!s.record_attempt(Some(response(0))));
    assert_eq!(s.progress.uploaded_chunks, 1);
    assert_eq!(s.finish(), Ok(()));
}

#[test]
fn file_record_metadata() {
    let s = UploadSession::new(25, &options(10, 3)).ok().unwrap();
    let m = s.file_record("0000", None, "a.bin".to_string());
    assert_eq!(m.passcode_hash, "0000");
    assert_eq!(m.original_size, 25);
    assert_eq!(m.total_chunks, 3);
    assert_eq!(m.chunk_size, 10);
    assert_eq!(m.encryption_type, "aes256gcm");
    assert_eq!(m.filename, "a.bin");
}

#[test]
fn download_rejects_text_record() {
    let mut meta = file_meta(Some(vec![]));
    meta.trash_type = "text".to_string();
    assert!(matches!(DownloadSession::new("t1".to_string(), meta), Err(TsbinError::Validation)));
}

#[test]
fn download_without_ids_is_malformed() {
    assert!(matches!(
        DownloadSession::new("t1".to_string(), file_meta(None)),
        Err(TsbinError::MalformedResponse)
    ));
}

#[test]
fn download_counts_failed_chunks() {
    let c = Encryptor::new("p".to_string());
    let ids = vec!["a".to_string(), "b".to_string()];
    let mut d = DownloadSession::new("t1".to_string(), file_meta(Some(ids))).ok().unwrap();
    assert_eq!(d.next_index(), Some(0));
    assert_eq!(d.record_download(&c, None), Ok(()));
    assert_eq!(d.record_download(&c, Some(c.encrypt(b"xy"))), Ok(()));
    assert_eq!(d.next_index(), None);
    assert_eq!(d.progress.failed_chunks, vec![0]);
    assert_eq!(d.progress.uploaded_chunks, 1);
    assert_eq!(d.finish(), Err(TsbinError::ChunksFailed(1)));
    assert!(!d.progress.completed);
}

#[test]
fn download_stops_on_bad_chunk() {
    let c = Encryptor::new("p".to_string());
    let other = Encryptor::new("q".to_string());
    let mut d = DownloadSession::new("t1".to_string(), file_meta(Some(vec!["a".to_string()]))).ok().unwrap();
    assert_eq!(d.record_download(&c, Some(other.encrypt(b"xy"))), Err(TsbinError::DecryptionFailed));
}

#[test]
fn file_end_to_end() {
    let source: Vec<u8> = (0..25 * MIB).map(|i| (i % 251) as u8).collect();
    let codec = Encryptor::new("correct-horse".to_string());
    let mut up = UploadSession::new(source.len(), &options(10 * MIB, 3)).ok().unwrap();
    assert_eq!(up.total, 3);
    let mut store: Vec<Vec<u8>> = Vec::new();
    while let Some((start, end)) = up.current_range() {
        let i = up.next_chunk as u32;
        store.push(codec.encrypt(&source[start..end]));
        assert!(!up.record_attempt(Some(response(i))));
    }
    assert_eq!(store.len(), 3);
    assert_eq!(up.progress.uploaded_chunks, 3);
    assert_eq!(up.finish(), Ok(()));
    let mut down = DownloadSession::new("t1".to_string(), file_meta(Some(up.file_ids.clone()))).ok().unwrap();
    while let Some(i) = down.next_index() {
        assert_eq!(down.record_download(&codec, Some(store[i].clone())), Ok(()));
    }
    assert_eq!(down.finish(), Ok(()));
    assert!(down.progress.completed);
    assert!(down.data == source);
}
