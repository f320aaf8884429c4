use vstd::prelude::*;
use crate::codec::Encryptor;
use base64::Engine;
use sha2::Digest;
use vstd::utf8::encode_utf8;

verus! {

/// Fixed salt of the key derivation. A fixed salt keeps existing encrypted
/// objects readable; the same passphrase gives the same key for every object.
pub const KEY_SALT: &'static str = "tsbin_salt_2024";

/// Iterations of the key derivation.
pub const KEY_ROUNDS: u32 = 100000;

/// The 32-byte PBKDF2-HMAC-SHA-256 output for a password, a salt and a number of rounds.
pub uninterp spec fn pbkdf2_sha256(password: Seq<u8>, salt: Seq<u8>, rounds: u32) -> Seq<u8>;

/// The SHA-256 digest of `data`.
pub uninterp spec fn sha256_of(data: Seq<u8>) -> Seq<u8>;

/// The standard (padded) base64 text of `data`.
pub uninterp spec fn base64_of(data: Seq<u8>) -> Seq<char>;

/// The bytes that the standard base64 text `text` stands for, if it is valid.
pub uninterp spec fn base64_bytes(text: Seq<char>) -> Option<Seq<u8>>;

/// Relies on `pbkdf2::pbkdf2::<Hmac<Sha256>>`: fills the 32-byte output; HMAC
/// takes keys of any length, so it cannot fail.
#[verifier::external_body]
fn pbkdf2_hmac_sha256(password: &[u8], salt: &[u8], rounds: u32) -> (r: [u8; 32])
    ensures
        r@ == pbkdf2_sha256(password@, salt@, rounds),
{
    let mut key = [0u8; 32];
    let _ = pbkdf2::pbkdf2::<hmac::Hmac<sha2::Sha256>>(password, salt, rounds, &mut key);
    key
}

/// Relies on `sha2::Sha256::digest`: the 32-byte digest.
#[verifier::external_body]
fn sha256(data: &[u8]) -> (r: Vec<u8>)
    ensures
        r@ == sha256_of(data@),
        r@.len() == 32,
{
    sha2::Sha256::digest(data).to_vec()
}

/// Relies on `base64::engine::general_purpose::STANDARD.encode`.
#[verifier::external_body]
pub(crate) fn base64_encode(data: &[u8]) -> (r: String)
    ensures
        r@ == base64_of(data@),
{
    base64::engine::general_purpose::STANDARD.encode(data)
}

/// Relies on `base64::engine::general_purpose::STANDARD.decode`: the bytes, or
/// an error for text that is not valid base64.
#[verifier::external_body]
pub(crate) fn base64_decode(text: &str) -> (r: Option<Vec<u8>>)
    ensures
        match r {
            Some(b) => base64_bytes(text@) == Some(b@),
            None => base64_bytes(text@) is None,
        },
{
    base64::engine::general_purpose::STANDARD.decode(text).ok()
}

/// The key for `passphrase`: PBKDF2-HMAC-SHA-256 of its UTF-8 bytes with the
/// fixed salt and round count.
pub fn derive_key(passphrase: &str) -> (r: [u8; 32])
    ensures
        r@ == pbkdf2_sha256(encode_utf8(passphrase@), encode_utf8(KEY_SALT@), KEY_ROUNDS),
{
    pbkdf2_hmac_sha256(passphrase.as_bytes(), KEY_SALT.as_bytes(), KEY_ROUNDS)
}

/// The key that a passphrase derives.
pub open spec fn passphrase_key(passphrase: Seq<char>) -> Seq<u8> {
    pbkdf2_sha256(encode_utf8(passphrase), encode_utf8(KEY_SALT@), KEY_ROUNDS)
}

/// The lookup token of a passphrase.
pub open spec fn passcode_hash(passphrase: Seq<char>) -> Seq<char> {
    if passphrase.len() == 0 || encode_utf8(passphrase) == seq![48u8, 48u8, 48u8, 48u8] {
        "0000"@
    } else {
        base64_of(sha256_of(encode_utf8(passphrase)))
    }
}

/// The lookup token of a passphrase: `"0000"` for the empty passphrase and for
/// `"0000"` itself, else the base64 text of the SHA-256 digest of its bytes.
pub fn hash_passphrase(passphrase: &str) -> (r: String)
    ensures
        r@ == passcode_hash(passphrase@),
{
    let bytes = passphrase.as_bytes();
    if passphrase.is_empty() || (bytes.len() == 4 && bytes[0] == 48u8 && bytes[1] == 48u8
        && bytes[2] == 48u8 && bytes[3] == 48u8) {
        proof {
            if passphrase@.len() != 0 {
                assert(bytes@ =~= seq![48u8, 48u8, 48u8, 48u8]);
            }
        }
        return "0000".to_owned();
    }
    assert(bytes@ != seq![48u8, 48u8, 48u8, 48u8]);
    let digest = sha256(bytes);
    base64_encode(digest.as_slice())
}

impl Encryptor {
    /// A codec keyed by the key derived from `passphrase`.
    pub fn new(passphrase: String) -> (r: Encryptor)
        ensures
            r.key() == passphrase_key(passphrase@),
    {
        Encryptor::from_key(derive_key(passphrase.as_str()))
    }
}

} // verus!
