use vstd::prelude::*;
use vstd::utf8::{decode_utf8, encode_utf8, valid_utf8};
use crate::codec::{open_frames, sealed, Encryptor};
use crate::error::TsbinError;
use crate::keys::{base64_bytes, base64_decode, base64_encode, base64_of, hash_passphrase, passcode_hash, passphrase_key};
use crate::types::{EncryptionOptions, TextTrashContent, ENCRYPTION_TYPE};

verus! {

/// What is sent to create a text record.
pub struct TextRecordRequest {
    /// Base64 text of the framed ciphertext.
    pub enc_trash_text: String,
    pub passcode_hash: String,
    pub expire_at: Option<String>,
    /// Length of the content in bytes.
    pub original_length: usize,
    pub encryption_type: String,
}

/// The fields of a text record as the store returned them; a field that was
/// absent or of the wrong type is `None`.
pub struct TextRecord {
    pub id: Option<String>,
    pub enc_trash_text: Option<String>,
    pub encryption_type: Option<String>,
    pub text_length: Option<u64>,
}

/// Relies on `String::from_utf8`: the text when the bytes are valid UTF-8.
#[verifier::external_body]
fn utf8_text(bytes: Vec<u8>) -> (r: Option<String>)
    ensures
        match r {
            Some(s) => valid_utf8(bytes@) && s@ == decode_utf8(bytes@),
            None => !valid_utf8(bytes@),
        },
{
    String::from_utf8(bytes).ok()
}

/// The request that stores `content` encrypted under `passcode`.
pub fn text_record_request(content: &str, passcode: String, options: Option<EncryptionOptions>) -> (r: TextRecordRequest)
    ensures
        r.enc_trash_text@ == base64_of(sealed(passphrase_key(passcode@), encode_utf8(content@))),
        r.passcode_hash@ == passcode_hash(passcode@),
        r.expire_at == match options { Some(o) => o.expire_at, None => None },
        r.original_length == encode_utf8(content@).len(),
        r.encryption_type@ == ENCRYPTION_TYPE@,
{
    let expire_at = match options {
        Some(o) => o.expire_at,
        None => None,
    };
    let passcode_hash = hash_passphrase(passcode.as_str());
    let encryptor = Encryptor::new(passcode);
    let bytes = content.as_bytes();
    let encrypted = encryptor.encrypt(bytes);
    TextRecordRequest {
        enc_trash_text: base64_encode(encrypted.as_slice()),
        passcode_hash,
        expire_at,
        original_length: bytes.len(),
        encryption_type: ENCRYPTION_TYPE.to_owned(),
    }
}

/// The text that a base64 payload decrypts to under `key`.
pub open spec fn decoded_text(key: Seq<u8>, payload: Seq<char>) -> Result<Seq<char>, TsbinError> {
    match base64_bytes(payload) {
        None => Err(TsbinError::MalformedResponse),
        Some(b) => match open_frames(key, b) {
            Err(e) => Err(e),
            Ok(p) => if valid_utf8(p) { Ok(decode_utf8(p)) } else { Err(TsbinError::MalformedResponse) },
        },
    }
}

/// Decrypts a text record with `passcode`. Fails with `MalformedResponse`
/// where a field is missing, the payload is not base64 or the plaintext not
/// UTF-8, and with the codec's error where the payload does not decrypt.
pub fn open_text_record(record: TextRecord, passcode: String) -> (r: Result<TextTrashContent, TsbinError>)
    ensures
        match record.enc_trash_text {
            None => r == Err::<TextTrashContent, TsbinError>(TsbinError::MalformedResponse),
            Some(t) => match decoded_text(passphrase_key(passcode@), t@) {
                Err(e) => r == Err::<TextTrashContent, TsbinError>(e),
                Ok(text) => match (record.id, record.encryption_type, record.text_length) {
                    (Some(id), Some(ty), Some(len)) => r matches Ok(c) && c.id == id
                        && c.enc_trash_text@ == text && c.encryption_type == ty
                        && c.text_length == len as usize,
                    _ => r == Err::<TextTrashContent, TsbinError>(TsbinError::MalformedResponse),
                },
            },
        },
{
    let payload = match record.enc_trash_text {
        Some(t) => t,
        None => {
            return Err(TsbinError::MalformedResponse);
        },
    };
    let bytes = match base64_decode(payload.as_str()) {
        Some(b) => b,
        None => {
            return Err(TsbinError::MalformedResponse);
        },
    };
    let encryptor = Encryptor::new(passcode);
    let plain = match encryptor.decrypt(bytes.as_slice()) {
        Ok(p) => p,
        Err(e) => {
            return Err(e);
        },
    };
    let text = match utf8_text(plain) {
        Some(s) => s,
        None => {
            return Err(TsbinError::MalformedResponse);
        },
    };
    match (record.id, record.encryption_type, record.text_length) {
        (Some(id), Some(encryption_type), Some(len)) => Ok(TextTrashContent {
            id,
            enc_trash_text: text,
            encryption_type,
            text_length: len as usize,
        }),
        _ => Err(TsbinError::MalformedResponse),
    }
}

} // verus!
