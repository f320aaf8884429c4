use vstd::prelude::*;
use vstd::slice::slice_subrange;
use crate::error::TsbinError;
use crate::transfer::ceil_div;
use aes_gcm::aead::{Aead, KeyInit};

verus! {

/// Size of one internal segment: 5 MiB.
pub const SEGMENT_SIZE: usize = 5242880;

/// Bytes of a frame header: a 12-byte nonce and a 4-byte length.
pub const FRAME_HEADER_LEN: usize = 16;

/// Bytes of the integrity tag that AES-GCM appends.
pub const TAG_LEN: usize = 16;

/// The AES-256-GCM ciphertext (with its tag) of `plaintext` under `key` and `nonce`.
pub uninterp spec fn gcm_seal(key: Seq<u8>, nonce: Seq<u8>, plaintext: Seq<u8>) -> Seq<u8>;

/// What AES-256-GCM recovers from `ciphertext`, or `None` when its tag does not verify.
pub uninterp spec fn gcm_open(key: Seq<u8>, nonce: Seq<u8>, ciphertext: Seq<u8>) -> Option<Seq<u8>>;

/// Nonce of segment `i`: big-endian `i` in 8 bytes, then 4 zero bytes.
pub open spec fn nonce_of(i: u64) -> Seq<u8> {
    seq![
        (i >> 56u64) as u8, (i >> 48u64) as u8, (i >> 40u64) as u8, (i >> 32u64) as u8,
        (i >> 24u64) as u8, (i >> 16u64) as u8, (i >> 8u64) as u8, i as u8,
        0u8, 0u8, 0u8, 0u8,
    ]
}

/// Big-endian encoding of `x` in 4 bytes.
pub open spec fn be32(x: u32) -> Seq<u8> {
    seq![(x >> 24u32) as u8, (x >> 16u32) as u8, (x >> 8u32) as u8, x as u8]
}

/// The value of 4 big-endian bytes.
pub open spec fn be32_value(b0: u8, b1: u8, b2: u8, b3: u8) -> u32 {
    ((b0 as u32) << 24u32) | ((b1 as u32) << 16u32) | ((b2 as u32) << 8u32) | (b3 as u32)
}

/// One frame: nonce, ciphertext length, ciphertext.
pub open spec fn frame(key: Seq<u8>, i: u64, segment: Seq<u8>) -> Seq<u8> {
    let ct = gcm_seal(key, nonce_of(i), segment);
    nonce_of(i) + be32(ct.len() as u32) + ct
}

/// Frames of `p`, cut into segments, the first of which has index `i`.
pub open spec fn seal_from(key: Seq<u8>, p: Seq<u8>, i: u64) -> Seq<u8>
    decreases p.len(),
{
    if p.len() == 0 {
        seq![]
    } else {
        let n: int = if p.len() < SEGMENT_SIZE { p.len() as int } else { SEGMENT_SIZE as int };
        frame(key, i, p.take(n)) + seal_from(key, p.skip(n), (i + 1) as u64)
    }
}

/// The framed encryption of `p` under `key`.
pub open spec fn sealed(key: Seq<u8>, p: Seq<u8>) -> Seq<u8> {
    seal_from(key, p, 0)
}

/// `out` put before the bytes of `r`, if `r` is a success.
pub open spec fn prepend(out: Seq<u8>, r: Result<Seq<u8>, TsbinError>) -> Result<Seq<u8>, TsbinError> {
    match r {
        Ok(rest) => Ok(out + rest),
        Err(e) => Err(e),
    }
}

/// What decryption of the framed buffer `d` yields: the plaintexts of its
/// frames in order, or the error of the first frame that fails.
pub open spec fn open_frames(key: Seq<u8>, d: Seq<u8>) -> Result<Seq<u8>, TsbinError>
    decreases d.len(),
{
    if d.len() == 0 {
        Ok(seq![])
    } else if d.len() < FRAME_HEADER_LEN {
        Err(TsbinError::TruncatedOrCorrupt)
    } else {
        let n = be32_value(d[12], d[13], d[14], d[15]) as int;
        if d.len() - FRAME_HEADER_LEN < n {
            Err(TsbinError::TruncatedOrCorrupt)
        } else {
            match gcm_open(key, d.take(12), d.subrange(16, 16 + n)) {
                None => Err(TsbinError::DecryptionFailed),
                Some(p) => prepend(p, open_frames(key, d.skip(16 + n))),
            }
        }
    }
}

/// Relies on `aes_gcm::Aes256Gcm::encrypt` (via `aead::Aead`): the ciphertext
/// is the plaintext's length plus a 16-byte tag, it fails only for plaintexts
/// over 2^36 bytes, and decrypting it with the same key and nonce gives the
/// plaintext back.
#[verifier::external_body]
fn gcm_encrypt(key: &[u8; 32], nonce: &[u8], plaintext: &[u8]) -> (r: Option<Vec<u8>>)
    requires
        nonce@.len() == 12,
    ensures
        plaintext@.len() <= 0x10_0000_0000 ==> r is Some,
        r matches Some(ct) ==> ct@ == gcm_seal(key@, nonce@, plaintext@)
            && ct@.len() == plaintext@.len() + 16
            && gcm_open(key@, nonce@, ct@) == Some(plaintext@),
{
    let cipher = aes_gcm::Aes256Gcm::new(aes_gcm::Key::<aes_gcm::Aes256Gcm>::from_slice(key));
    cipher.encrypt(aes_gcm::Nonce::from_slice(nonce), plaintext).ok()
}

/// Relies on `aes_gcm::Aes256Gcm::decrypt` (via `aead::Aead`): the plaintext,
/// or an error when the tag does not verify.
#[verifier::external_body]
fn gcm_decrypt(key: &[u8; 32], nonce: &[u8], ciphertext: &[u8]) -> (r: Option<Vec<u8>>)
    requires
        nonce@.len() == 12,
    ensures
        match r {
            Some(p) => gcm_open(key@, nonce@, ciphertext@) == Some(p@),
            None => gcm_open(key@, nonce@, ciphertext@) is None,
        },
{
    let cipher = aes_gcm::Aes256Gcm::new(aes_gcm::Key::<aes_gcm::Aes256Gcm>::from_slice(key));
    cipher.decrypt(aes_gcm::Nonce::from_slice(nonce), ciphertext).ok()
}

fn nonce_bytes(i: u64) -> (r: Vec<u8>)
    ensures
        r@ == nonce_of(i),
{
    let mut r: Vec<u8> = Vec::new();
    r.push((i >> 56u64) as u8);
    r.push((i >> 48u64) as u8);
    r.push((i >> 40u64) as u8);
    r.push((i >> 32u64) as u8);
    r.push((i >> 24u64) as u8);
    r.push((i >> 16u64) as u8);
    r.push((i >> 8u64) as u8);
    r.push(i as u8);
    r.push(0u8);
    r.push(0u8);
    r.push(0u8);
    r.push(0u8);
    assert(r@ =~= nonce_of(i));
    r
}

fn be32_bytes(x: u32) -> (r: Vec<u8>)
    ensures
        r@ == be32(x),
{
    let mut r: Vec<u8> = Vec::new();
    r.push((x >> 24u32) as u8);
    r.push((x >> 16u32) as u8);
    r.push((x >> 8u32) as u8);
    r.push(x as u8);
    assert(r@ =~= be32(x));
    r
}

proof fn lemma_be32_value(x: u32)
    ensures
        be32_value(be32(x)[0], be32(x)[1], be32(x)[2], be32(x)[3]) == x,
{
    assert(((((x >> 24u32) as u8) as u32) << 24u32) | ((((x >> 16u32) as u8) as u32) << 16u32)
        | ((((x >> 8u32) as u8) as u32) << 8u32) | ((x as u8) as u32) == x) by (bit_vector);
}

/// A single frame built from a ciphertext that opens to `segment` decodes to `segment`.
proof fn lemma_open_frame(key: Seq<u8>, i: u64, segment: Seq<u8>)
    requires
        gcm_open(key, nonce_of(i), gcm_seal(key, nonce_of(i), segment)) == Some(segment),
        gcm_seal(key, nonce_of(i), segment).len() <= u32::MAX,
    ensures
        open_frames(key, frame(key, i, segment)) == Ok::<Seq<u8>, TsbinError>(segment),
{
    let ct = gcm_seal(key, nonce_of(i), segment);
    let d = frame(key, i, segment);
    let n = ct.len() as int;
    lemma_be32_value(ct.len() as u32);
    assert(d[12] == be32(ct.len() as u32)[0]);
    assert(d[13] == be32(ct.len() as u32)[1]);
    assert(d[14] == be32(ct.len() as u32)[2]);
    assert(d[15] == be32(ct.len() as u32)[3]);
    assert(d.take(12) =~= nonce_of(i));
    assert(d.subrange(16, 16 + n) =~= ct);
    assert(d.len() == 16 + n);
    assert(be32_value(d[12], d[13], d[14], d[15]) as int == n);
    assert(d.skip(16 + n) =~= Seq::<u8>::empty());
    assert(open_frames(key, d.skip(16 + n)) == Ok::<Seq<u8>, TsbinError>(Seq::<u8>::empty()));
    assert(segment + Seq::<u8>::empty() =~= segment);
}

/// Decoding a buffer that starts with complete frames decodes those, then the rest.
proof fn lemma_open_append(key: Seq<u8>, a: Seq<u8>, b: Seq<u8>, x: Seq<u8>)
    requires
        open_frames(key, a) == Ok::<Seq<u8>, TsbinError>(x),
    ensures
        open_frames(key, a + b) == prepend(x, open_frames(key, b)),
    decreases a.len(),
{
    if a.len() == 0 {
        assert(a + b =~= b);
        assert(x =~= Seq::<u8>::empty());
        match open_frames(key, b) {
            Ok(rest) => assert(x + rest =~= rest),
            Err(_) => {},
        }
    } else {
        let d = a + b;
        let n = be32_value(a[12], a[13], a[14], a[15]) as int;
        assert(d[12] == a[12] && d[13] == a[13] && d[14] == a[14] && d[15] == a[15]);
        assert(d.take(12) =~= a.take(12));
        assert(d.subrange(16, 16 + n) =~= a.subrange(16, 16 + n));
        assert(d.skip(16 + n) =~= a.skip(16 + n) + b);
        let p = gcm_open(key, a.take(12), a.subrange(16, 16 + n))->Some_0;
        let y = open_frames(key, a.skip(16 + n))->Ok_0;
        lemma_open_append(key, a.skip(16 + n), b, y);
        match open_frames(key, b) {
            Ok(rest) => assert(p + (y + rest) =~= (p + y) + rest),
            Err(_) => {},
        }
    }
}

/// Distinct segment indices get distinct nonces, so no nonce repeats within
/// one encryption run.
pub proof fn lemma_nonces_distinct(i: u64, j: u64)
    requires
        i != j,
    ensures
        nonce_of(i) != nonce_of(j),
{
    if nonce_of(i) == nonce_of(j) {
        assert(nonce_of(i)[0] == nonce_of(j)[0] && nonce_of(i)[1] == nonce_of(j)[1]);
        assert(nonce_of(i)[2] == nonce_of(j)[2] && nonce_of(i)[3] == nonce_of(j)[3]);
        assert(nonce_of(i)[4] == nonce_of(j)[4] && nonce_of(i)[5] == nonce_of(j)[5]);
        assert(nonce_of(i)[6] == nonce_of(j)[6] && nonce_of(i)[7] == nonce_of(j)[7]);
        assert(((i >> 56u64) as u8 == (j >> 56u64) as u8 && (i >> 48u64) as u8 == (j >> 48u64) as u8
            && (i >> 40u64) as u8 == (j >> 40u64) as u8 && (i >> 32u64) as u8 == (j >> 32u64) as u8
            && (i >> 24u64) as u8 == (j >> 24u64) as u8 && (i >> 16u64) as u8 == (j >> 16u64) as u8
            && (i >> 8u64) as u8 == (j >> 8u64) as u8 && i as u8 == j as u8) ==> i == j) by (bit_vector);
    }
}

/// Encryption is deterministic: two encryptions of one plaintext under one
/// key give the same bytes.
pub proof fn lemma_encrypt_deterministic(key: Seq<u8>, p: Seq<u8>, first: Seq<u8>, second: Seq<u8>)
    requires
        first == sealed(key, p),
        second == sealed(key, p),
    ensures
        first == second,
{
}

/// A plaintext of at most one segment is sealed into a single frame; one of
/// more than one and at most two segments into two frames, the first holding
/// exactly one full segment.
pub proof fn lemma_segment_boundary(key: Seq<u8>, p: Seq<u8>)
    ensures
        0 < p.len() <= SEGMENT_SIZE ==> sealed(key, p) == frame(key, 0, p),
        SEGMENT_SIZE < p.len() <= 2 * SEGMENT_SIZE ==> sealed(key, p) == frame(key, 0, p.take(SEGMENT_SIZE as int))
            + frame(key, 1, p.skip(SEGMENT_SIZE as int)),
{
    if 0 < p.len() <= SEGMENT_SIZE {
        let n = p.len() as int;
        assert(p.take(n) =~= p);
        assert(p.skip(n).len() == 0);
        assert(seal_from(key, p.skip(n), 1) == Seq::<u8>::empty());
        assert(frame(key, 0, p) + Seq::<u8>::empty() =~= frame(key, 0, p));
    }
    if SEGMENT_SIZE < p.len() <= 2 * SEGMENT_SIZE {
        let q = p.skip(SEGMENT_SIZE as int);
        let n = q.len() as int;
        assert(q.take(n) =~= q);
        assert(q.skip(n).len() == 0);
        assert(seal_from(key, q.skip(n), 2) == Seq::<u8>::empty());
        assert(frame(key, 1, q) + Seq::<u8>::empty() =~= frame(key, 1, q));
        assert(seal_from(key, q, 1) == frame(key, 1, q));
    }
}

/// A codec holding one symmetric key, fixed at construction.
pub struct Encryptor {
    key: [u8; 32],
}

impl Encryptor {
    /// The 256-bit key this codec seals and opens with.
    pub closed spec fn key(&self) -> Seq<u8> {
        self.key@
    }

    /// A codec that uses `key` directly.
    pub fn from_key(key: [u8; 32]) -> (r: Encryptor)
        ensures
            r.key() == key@,
    {
        Encryptor { key }
    }

    /// Frames of `data`: each 5 MiB segment sealed under a counter nonce.
    /// The output is a function of the key and `data` alone, and decrypting
    /// it gives `data` back.
    pub fn encrypt(&self, data: &[u8]) -> (r: Vec<u8>)
        ensures
            r@ == sealed(self.key(), data@),
            open_frames(self.key(), r@) == Ok::<Seq<u8>, TsbinError>(data@),
            r@.len() == data@.len() + 32 * ceil_div(data@.len() as int, SEGMENT_SIZE as int),
    {
        let ghost key = self.key@;
        let mut out: Vec<u8> = Vec::new();
        let mut pos: usize = 0;
        let mut idx: u64 = 0;
        assert(data@.skip(0) =~= data@);
        assert(data@.take(0) =~= Seq::<u8>::empty());
        while pos < data.len()
            invariant
                key == self.key@,
                pos <= data@.len(),
                idx <= pos,
                sealed(key, data@) == out@ + seal_from(key, data@.skip(pos as int), idx),
                open_frames(key, out@) == Ok::<Seq<u8>, TsbinError>(data@.take(pos as int)),
                out@.len() == pos + 32 * idx,
                pos == idx * SEGMENT_SIZE || (pos == data@.len()
                    && idx == ceil_div(data@.len() as int, SEGMENT_SIZE as int)),
            decreases data@.len() - pos,
        {
            let end: usize = if data.len() - pos < SEGMENT_SIZE { data.len() } else { pos + SEGMENT_SIZE };
            let segment = slice_subrange(data, pos, end);
            let mut nonce = nonce_bytes(idx);
            let sealed_segment = gcm_encrypt(&self.key, nonce.as_slice(), segment);
            let mut ct = match sealed_segment {
                Some(ct) => ct,
                None => {
                    proof { assert(false); }
                    Vec::new()
                },
            };
            let ghost s = data@.skip(pos as int);
            let ghost rest = seal_from(key, data@.skip(end as int), (idx + 1) as u64);
            assert(s.take(end - pos) =~= segment@);
            assert(s.skip(end - pos) =~= data@.skip(end as int));
            let mut len_bytes = be32_bytes(ct.len() as u32);
            let ghost f = nonce@ + len_bytes@ + ct@;
            let ghost prev = out@;
            assert(f == frame(key, idx, segment@));
            proof {
                lemma_open_frame(key, idx, segment@);
                lemma_open_append(key, prev, f, data@.take(pos as int));
                assert(data@.take(pos as int) + segment@ =~= data@.take(end as int));
                assert(prev + (f + rest) =~= (prev + f) + rest);
                assert(open_frames(key, f) == Ok::<Seq<u8>, TsbinError>(segment@));
            }
            out.append(&mut nonce);
            out.append(&mut len_bytes);
            out.append(&mut ct);
            assert(out@ =~= prev + f);
            proof {
                let l = data@.len() as int;
                let k = idx as int;
                let c = SEGMENT_SIZE as int;
                if end == data.len() {
                    assert((l + c - 1) / c == k + 1) by (nonlinear_arith)
                        requires c == 5242880, pos == k * c, l > pos, l - pos <= c;
                }
            }
            pos = end;
            idx = idx + 1;
        }
        proof {
            let l = data@.len() as int;
            let k = idx as int;
            let c = SEGMENT_SIZE as int;
            if pos == idx * SEGMENT_SIZE {
                assert((l + c - 1) / c == k) by (nonlinear_arith)
                    requires c == 5242880, l == k * c, k >= 0;
            }
        }
        assert(data@.take(pos as int) =~= data@);
        assert(out@ + Seq::<u8>::empty() =~= out@);
        out
    }

    /// Plaintexts of the frames in `data`, in order. Fails with
    /// `TruncatedOrCorrupt` where a header or a declared ciphertext runs past
    /// the end, and with `DecryptionFailed` where a tag does not verify; the
    /// first failing frame decides.
    pub fn decrypt(&self, data: &[u8]) -> (r: Result<Vec<u8>, TsbinError>)
        ensures
            match r {
                Ok(v) => open_frames(self.key(), data@) == Ok::<Seq<u8>, TsbinError>(v@),
                Err(e) => open_frames(self.key(), data@) == Err::<Seq<u8>, TsbinError>(e),
            },
    {
        let ghost key = self.key@;
        let mut out: Vec<u8> = Vec::new();
        let mut cursor: usize = 0;
        assert(data@.skip(0) =~= data@);
        assert(Seq::<u8>::empty() + data@ =~= data@);
        proof {
            match open_frames(key, data@) {
                Ok(v) => assert(Seq::<u8>::empty() + v =~= v),
                Err(_) => {},
            }
        }
        while cursor < data.len()
            invariant
                key == self.key@,
                cursor <= data@.len(),
                open_frames(key, data@) == prepend(out@, open_frames(key, data@.skip(cursor as int))),
            decreases data@.len() - cursor,
        {
            let ghost s = data@.skip(cursor as int);
            if data.len() - cursor < FRAME_HEADER_LEN {
                return Err(TsbinError::TruncatedOrCorrupt);
            }
            let n = be32_value_exec(data[cursor + 12], data[cursor + 13], data[cursor + 14], data[cursor + 15]) as usize;
            assert(s[12] == data@[cursor + 12] && s[13] == data@[cursor + 13]);
            assert(s[14] == data@[cursor + 14] && s[15] == data@[cursor + 15]);
            if data.len() - cursor - FRAME_HEADER_LEN < n {
                return Err(TsbinError::TruncatedOrCorrupt);
            }
            let nonce = slice_subrange(data, cursor, cursor + 12);
            let ct = slice_subrange(data, cursor + 16, cursor + 16 + n);
            assert(s.take(12) =~= nonce@);
            assert(s.subrange(16, 16 + n as int) =~= ct@);
            assert(s.skip(16 + n as int) =~= data@.skip(cursor + 16 + n));
            match gcm_decrypt(&self.key, nonce, ct) {
                None => {
                    return Err(TsbinError::DecryptionFailed);
                },
                Some(mut p) => {
                    let ghost prev = out@;
                    proof {
                        match open_frames(key, data@.skip(cursor + 16 + n)) {
                            Ok(rest) => assert(prev + (p@ + rest) =~= (prev + p@) + rest),
                            Err(_) => {},
                        }
                    }
                    out.append(&mut p);
                },
            }
            cursor = cursor + 16 + n;
        }
        assert(data@.skip(cursor as int) =~= Seq::<u8>::empty());
        assert(out@ + Seq::<u8>::empty() =~= out@);
        Ok(out)
    }
}

fn be32_value_exec(b0: u8, b1: u8, b2: u8, b3: u8) -> (r: u32)
    ensures
        r == be32_value(b0, b1, b2, b3),
{
    ((b0 as u32) << 24u32) | ((b1 as u32) << 16u32) | ((b2 as u32) << 8u32) | (b3 as u32)
}

} // verus!
