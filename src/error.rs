use vstd::prelude::*;

verus! {

/// Every way an operation of this library can fail.
#[derive(Debug, Clone, Copy, PartialEq, Eq, Structural)]
pub enum TsbinError {
    /// A remote call failed or answered with a non-success status.
    Transport,
    /// A decoded response lacked an expected field or held a wrong type.
    MalformedResponse,
    /// An integrity tag did not match: wrong key or tampered data.
    DecryptionFailed,
    /// A framed buffer ended inside a header or a declared ciphertext.
    TruncatedOrCorrupt,
    /// A request was not of the expected kind (for example not a file record).
    Validation,
    /// This many chunks could not be uploaded within their retry budget.
    RetriesExhausted(usize),
    /// This many chunks could not be downloaded.
    ChunksFailed(usize),
}

} // verus!
