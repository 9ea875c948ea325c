//! Error taxonomy of the node.
//!
//! Every failure raised by the library carries a cause from a closed set, so
//! a contract can name the exact error an input yields. Free text appears
//! only in the variants that callers fill in themselves.

use vstd::prelude::*;

verus! {

/// Why a persistence operation could not be carried out.
#[derive(Clone, Copy, Debug, PartialEq, Eq, Structural)]
pub enum StorageFault {
    /// The device's counter already holds the largest 64-bit value.
    CounterExhausted,
    /// The record table cannot number another row.
    TableFull,
    /// The tables handed over do not form a consistent store.
    Inconsistent,
}

/// Which cipher step failed.
#[derive(Clone, Copy, Debug, PartialEq, Eq, Structural)]
pub enum CipherFault {
    /// Stage 1 refused to encrypt (the input is too long).
    Stage1Seal,
    /// Stage 1 found no valid tag, or the input is shorter than a tag.
    Stage1Open,
    /// Stage 2 refused to encrypt (the input is too long).
    Stage2Seal,
    /// Stage 2 found no valid tag, or the input is shorter than a tag.
    Stage2Open,
}

/// The step of device authentication that failed, in checking order.
#[derive(Clone, Copy, Debug, PartialEq, Eq, Structural)]
pub enum AuthFault {
    /// The public key is not a JSON Web Key.
    KeyFormat,
    /// The envelope does not have exactly three dot-separated segments.
    EnvelopeFormat,
    /// The header segment is not unpadded base64url.
    HeaderEncoding,
    /// The payload segment is not unpadded base64url.
    PayloadEncoding,
    /// The signature segment is not unpadded base64url.
    SignatureEncoding,
    /// The signed payload is not the payload being authenticated.
    PayloadMismatch,
    /// The key cannot be used to verify EdDSA signatures.
    KeyUnusable,
    /// The signature does not verify under the key.
    SignatureInvalid,
}

/// Errors of the processing core.
#[derive(Clone, Debug, PartialEq, Eq)]
pub enum LCoreError {
    Database(StorageFault),
    Encryption(CipherFault),
    DeviceAuth(AuthFault),
    Internal(String),
    InvalidInput(String),
    /// The text is not an even number of hexadecimal digits.
    HexDecode,
    /// The text is not the expected JSON document; the caller supplies the detail.
    Json(String),
    /// The bytes are not UTF-8.
    Utf8,
}

/// Coarse error type kept for callers that only distinguish two classes.
#[derive(Clone, Debug, PartialEq, Eq)]
pub enum AppError {
    Internal(String),
    InvalidInput(String),
}

impl StorageFault {
    /// Human-readable description of the fault.
    pub fn message(&self) -> (text: &'static str)
        ensures
            text@ == self.spec_message(),
    {
        match self {
            StorageFault::CounterExhausted => "device counter exhausted",
            StorageFault::TableFull => "record table full",
            StorageFault::Inconsistent => "inconsistent tables",
        }
    }

    pub open spec fn spec_message(&self) -> Seq<char> {
        match *self {
            StorageFault::CounterExhausted => "device counter exhausted"@,
            StorageFault::TableFull => "record table full"@,
            StorageFault::Inconsistent => "inconsistent tables"@,
        }
    }
}

impl CipherFault {
    /// Human-readable description of the fault.
    pub fn message(&self) -> (text: &'static str)
        ensures
            text@ == self.spec_message(),
    {
        match self {
            CipherFault::Stage1Seal => "AES encryption failed",
            CipherFault::Stage1Open => "AES decryption failed",
            CipherFault::Stage2Seal => "ChaCha encryption failed",
            CipherFault::Stage2Open => "ChaCha decryption failed",
        }
    }

    pub open spec fn spec_message(&self) -> Seq<char> {
        match *self {
            CipherFault::Stage1Seal => "AES encryption failed"@,
            CipherFault::Stage1Open => "AES decryption failed"@,
            CipherFault::Stage2Seal => "ChaCha encryption failed"@,
            CipherFault::Stage2Open => "ChaCha decryption failed"@,
        }
    }
}

impl AuthFault {
    /// Human-readable description of the fault.
    pub fn message(&self) -> (text: &'static str)
        ensures
            text@ == self.spec_message(),
    {
        match self {
            AuthFault::KeyFormat => "Failed to parse JWK",
            AuthFault::EnvelopeFormat => "Invalid JWS format",
            AuthFault::HeaderEncoding => "Failed to decode JWS header",
            AuthFault::PayloadEncoding => "Failed to decode JWS payload",
            AuthFault::SignatureEncoding => "Failed to decode JWS signature",
            AuthFault::PayloadMismatch => "Payload does not match signature",
            AuthFault::KeyUnusable => "Failed to create verifier",
            AuthFault::SignatureInvalid => "Invalid JWS signature",
        }
    }

    pub open spec fn spec_message(&self) -> Seq<char> {
        match *self {
            AuthFault::KeyFormat => "Failed to parse JWK"@,
            AuthFault::EnvelopeFormat => "Invalid JWS format"@,
            AuthFault::HeaderEncoding => "Failed to decode JWS header"@,
            AuthFault::PayloadEncoding => "Failed to decode JWS payload"@,
            AuthFault::SignatureEncoding => "Failed to decode JWS signature"@,
            AuthFault::PayloadMismatch => "Payload does not match signature"@,
            AuthFault::KeyUnusable => "Failed to create verifier"@,
            AuthFault::SignatureInvalid => "Invalid JWS signature"@,
        }
    }
}

impl LCoreError {
    /// The text shown for this error: its class, a colon, and the detail.
    pub open spec fn spec_message(&self) -> Seq<char> {
        match *self {
            LCoreError::Database(fault) => "Database error: "@ + fault.spec_message(),
            LCoreError::Encryption(fault) => "Encryption error: "@ + fault.spec_message(),
            LCoreError::DeviceAuth(fault) => "Device authentication error: "@
                + fault.spec_message(),
            LCoreError::Internal(detail) => "Internal error: "@ + detail@,
            LCoreError::InvalidInput(detail) => "Invalid input: "@ + detail@,
            LCoreError::HexDecode => "Hex decode error"@,
            LCoreError::Json(detail) => "JSON error: "@ + detail@,
            LCoreError::Utf8 => "UTF-8 error"@,
        }
    }

    /// Renders the error as text.
    pub fn message(&self) -> (text: String)
        ensures
            text@ == self.spec_message(),
    {
        match self {
            LCoreError::Database(fault) => "Database error: ".to_owned().concat(fault.message()),
            LCoreError::Encryption(fault) => "Encryption error: ".to_owned().concat(
                fault.message(),
            ),
            LCoreError::DeviceAuth(fault) => "Device authentication error: ".to_owned().concat(
                fault.message(),
            ),
            LCoreError::Internal(detail) => "Internal error: ".to_owned().concat(detail.as_str()),
            LCoreError::InvalidInput(detail) => "Invalid input: ".to_owned().concat(
                detail.as_str(),
            ),
            LCoreError::HexDecode => "Hex decode error".to_owned(),
            LCoreError::Json(detail) => "JSON error: ".to_owned().concat(detail.as_str()),
            LCoreError::Utf8 => "UTF-8 error".to_owned(),
        }
    }
}

impl AppError {
    /// The text shown for this error.
    pub open spec fn spec_message(&self) -> Seq<char> {
        match *self {
            AppError::Internal(detail) => "Internal error: "@ + detail@,
            AppError::InvalidInput(detail) => "Invalid input: "@ + detail@,
        }
    }

    /// Renders the error as text.
    pub fn message(&self) -> (text: String)
        ensures
            text@ == self.spec_message(),
    {
        match self {
            AppError::Internal(detail) => "Internal error: ".to_owned().concat(detail.as_str()),
            AppError::InvalidInput(detail) => "Invalid input: ".to_owned().concat(
                detail.as_str(),
            ),
        }
    }
}

impl AppError {
    /// Classifies a core error: always internal, with the error's own text.
    pub fn from_core(err: &LCoreError) -> (out: AppError)
        ensures
            out matches AppError::Internal(detail) && detail@ == err.spec_message(),
    {
        AppError::Internal(err.message())
    }
}

impl From<LCoreError> for AppError {
    /// Same as [`AppError::from_core`].
    fn from(err: LCoreError) -> (out: AppError) {
        AppError::from_core(&err)
    }
}

/// The converted value owns a freshly built string, which no specification
/// expression can denote, so the conversion is described by the contract of
/// [`AppError::from_core`] rather than by `from_spec`.
impl vstd::std_specs::convert::FromSpecImpl<LCoreError> for AppError {
    open spec fn obeys_from_spec() -> bool {
        false
    }

    open spec fn from_spec(err: LCoreError) -> AppError {
        AppError::Internal(arbitrary())
    }
}

} // verus!
