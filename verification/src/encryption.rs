//! Two-stage authenticated encryption with keys and nonces derived from the
//! device identifier and its message counter.
//!
//! Stage 1 is AES-256-GCM under a per-device key; stage 2 is
//! XChaCha20-Poly1305 under a key shared by all devices. The ciphers and the
//! digest come from the `aes-gcm`, `chacha20poly1305` and `sha2` crates; what
//! they compute is named here by uninterpreted functions, and everything
//! built on them is stated over those names.

use crate::codec::{u64_be_bytes, u64_to_be_bytes};
use crate::error::{CipherFault, LCoreError};
use vstd::prelude::*;
use vstd::string::StringSliceAdditionalSpecFns;

verus! {

#[verifier::external_type_specification]
#[verifier::external_body]
pub struct ExAeadError(aes_gcm::aead::Error);

/// The SHA-256 digest of `data`.
pub uninterp spec fn sha256(data: Seq<u8>) -> Seq<u8>;

/// AES-256-GCM encryption of `plaintext` under `key` and `nonce` with no
/// associated data: ciphertext followed by the tag, or `None` when the
/// cipher refuses the input.
pub uninterp spec fn aes256_gcm_seal(key: Seq<u8>, nonce: Seq<u8>, plaintext: Seq<u8>) -> Option<
    Seq<u8>,
>;

/// AES-256-GCM decryption of `sealed` under `key` and `nonce`: the plaintext,
/// or `None` when the tag does not verify.
pub uninterp spec fn aes256_gcm_open(key: Seq<u8>, nonce: Seq<u8>, sealed: Seq<u8>) -> Option<
    Seq<u8>,
>;

/// XChaCha20-Poly1305 encryption of `plaintext` under `key` and `nonce` with
/// no associated data: ciphertext followed by the tag, or `None` when the
/// cipher refuses the input.
pub uninterp spec fn xchacha20_poly1305_seal(
    key: Seq<u8>,
    nonce: Seq<u8>,
    plaintext: Seq<u8>,
) -> Option<Seq<u8>>;

/// XChaCha20-Poly1305 decryption of `sealed` under `key` and `nonce`: the
/// plaintext, or `None` when the tag does not verify.
pub uninterp spec fn xchacha20_poly1305_open(key: Seq<u8>, nonce: Seq<u8>, sealed: Seq<u8>) -> Option<
    Seq<u8>,
>;

/// Length of the authentication tag either stage appends.
pub const TAG_LEN: usize = 16;

/// Longest plaintext AES-GCM encrypts, in bytes.
pub const STAGE1_MAX_PLAINTEXT: u64 = 0x10_0000_0000;

/// Longest input XChaCha20-Poly1305 is given, in bytes: the key stream has
/// a 32-bit block counter, its first 64-byte block keys the authenticator,
/// and the 2^32 - 2 blocks that follow are all there is to encrypt with.
pub const STAGE2_MAX_PLAINTEXT: u64 = 0x3f_ffff_ff80;

/// Label whose digest is the stage-2 key.
pub const ENCRYPTION_CONTEXT: &'static str = "iot-sensor-data-v1";

/// A buffer of `len` bytes can grow by one tag.
pub open spec fn fits_with_tag(len: nat) -> bool {
    len + TAG_LEN <= isize::MAX
}

/// Stage 1 encrypts plaintexts of this length.
pub open spec fn stage1_accepts(len: nat) -> bool {
    len <= STAGE1_MAX_PLAINTEXT && fits_with_tag(len)
}

/// Stage 2 encrypts plaintexts of this length.
pub open spec fn stage2_accepts(len: nat) -> bool {
    len <= STAGE2_MAX_PLAINTEXT && fits_with_tag(len)
}

/// Stage-2 encryption of `plaintext`: the cipher's output, one tag longer
/// than the input; `None` for an input longer than the key stream.
pub open spec fn stage2_seal(key: Seq<u8>, nonce: Seq<u8>, plaintext: Seq<u8>) -> Option<Seq<u8>> {
    if plaintext.len() <= STAGE2_MAX_PLAINTEXT {
        match xchacha20_poly1305_seal(key, nonce, plaintext) {
            Some(sealed) => if sealed.len() == plaintext.len() + TAG_LEN {
                Some(sealed)
            } else {
                None
            },
            None => None,
        }
    } else {
        None
    }
}

/// Stage-2 decryption of `sealed`: the cipher's output; `None` for an input
/// longer than any stage-2 encryption.
pub open spec fn stage2_open(key: Seq<u8>, nonce: Seq<u8>, sealed: Seq<u8>) -> Option<Seq<u8>> {
    if sealed.len() <= STAGE2_MAX_PLAINTEXT + TAG_LEN {
        xchacha20_poly1305_open(key, nonce, sealed)
    } else {
        None
    }
}

/// The bytes a cipher call returned, if it returned any.
pub open spec fn cipher_output(res: Result<Vec<u8>, aes_gcm::aead::Error>) -> Option<Seq<u8>> {
    match res {
        Ok(bytes) => Some(bytes@),
        Err(_) => None,
    }
}

/// `opened` is what stage-1 decryption gives on `sealed` when it is the
/// inverse of stage-1 encryption: the plaintext of which `sealed` is the
/// encryption, and nothing within the encryption limit that does not
/// encrypt to `sealed`.
pub open spec fn stage1_inverse(
    key: Seq<u8>,
    nonce: Seq<u8>,
    sealed: Seq<u8>,
    opened: Option<Seq<u8>>,
) -> bool {
    &&& forall|p: Seq<u8>| #[trigger]
        aes256_gcm_seal(key, nonce, p) == Some(sealed) ==> opened == Some(p)
    &&& opened matches Some(p) ==> p.len() <= STAGE1_MAX_PLAINTEXT ==> aes256_gcm_seal(
        key,
        nonce,
        p,
    ) == Some(sealed)
}

/// `opened` is what stage-2 decryption gives on `sealed` when it is the
/// inverse of stage-2 encryption: the plaintext of which `sealed` is the
/// encryption, and nothing that does not encrypt to `sealed`.
pub open spec fn stage2_inverse(
    key: Seq<u8>,
    nonce: Seq<u8>,
    sealed: Seq<u8>,
    opened: Option<Seq<u8>>,
) -> bool {
    &&& forall|p: Seq<u8>| #[trigger] stage2_seal(key, nonce, p) == Some(sealed) ==> opened == Some(p)
    &&& opened matches Some(p) ==> stage2_seal(key, nonce, p) == Some(sealed)
}

/// `sha2::Sha256::digest`: the digest is a function of the data alone, named
/// [`sha256`]; it has 32 bytes.
#[verifier::external_body]
pub(crate) fn sha256_raw(data: &[u8]) -> (digest: [u8; 32])
    ensures
        digest@ == sha256(data@),
{
    <sha2::Sha256 as sha2::Digest>::digest(data).into()
}

/// `Aead::encrypt` of `aes_gcm::Aes256Gcm`, keyed by `KeyInit::new`.
///
/// The result is a function of key, nonce and plaintext, named
/// [`aes256_gcm_seal`]. The cipher refuses exactly the plaintexts longer than
/// its limit, and the output is one tag longer than the input.
#[verifier::external_body]
pub(crate) fn aes256_gcm_seal_raw(key: &[u8; 32], nonce: &[u8; 12], plaintext: &[u8]) -> (res:
    Result<Vec<u8>, aes_gcm::aead::Error>)
    requires
        fits_with_tag(plaintext@.len()),
    ensures
        cipher_output(res) == aes256_gcm_seal(key@, nonce@, plaintext@),
        res matches Ok(sealed) ==> sealed@.len() == plaintext@.len() + TAG_LEN,
        res is Ok <==> plaintext@.len() <= STAGE1_MAX_PLAINTEXT,
{
    let cipher = <aes_gcm::Aes256Gcm as aes_gcm::KeyInit>::new(key.into());
    aes_gcm::aead::Aead::encrypt(&cipher, nonce.into(), plaintext)
}

/// `Aead::decrypt` of `aes_gcm::Aes256Gcm`, keyed by `KeyInit::new`.
///
/// The result is a function of key, nonce and input, named
/// [`aes256_gcm_open`]. Decryption recomputes the tag that encryption
/// appends and undoes the same key stream, so it returns `p` on the
/// encryption of `p`; and what it accepts within the encryption limit is the
/// encryption of what it returns. The output is one tag shorter than the
/// input.
#[verifier::external_body]
pub(crate) fn aes256_gcm_open_raw(key: &[u8; 32], nonce: &[u8; 12], sealed: &[u8]) -> (res: Result<
    Vec<u8>,
    aes_gcm::aead::Error,
>)
    ensures
        cipher_output(res) == aes256_gcm_open(key@, nonce@, sealed@),
        res matches Ok(plaintext) ==> plaintext@.len() + TAG_LEN == sealed@.len(),
        stage1_inverse(key@, nonce@, sealed@, cipher_output(res)),
{
    let cipher = <aes_gcm::Aes256Gcm as aes_gcm::KeyInit>::new(key.into());
    aes_gcm::aead::Aead::decrypt(&cipher, nonce.into(), sealed)
}

/// `Aead::encrypt` of `chacha20poly1305::XChaCha20Poly1305`, keyed by
/// `KeyInit::new`.
///
/// The result is a function of key, nonce and plaintext, named
/// [`xchacha20_poly1305_seal`]. The call is made only on inputs for which
/// key stream is left: on a longer input the stream cipher panics, or the
/// cipher refuses. Within that bound the call succeeds and the output is
/// one tag longer than the input.
#[verifier::external_body]
pub(crate) fn xchacha20_poly1305_seal_raw(
    key: &[u8; 32],
    nonce: &[u8; 24],
    plaintext: &[u8],
) -> (res: Result<Vec<u8>, aes_gcm::aead::Error>)
    requires
        plaintext@.len() <= STAGE2_MAX_PLAINTEXT,
        fits_with_tag(plaintext@.len()),
    ensures
        cipher_output(res) == xchacha20_poly1305_seal(key@, nonce@, plaintext@),
        res matches Ok(sealed) ==> sealed@.len() == plaintext@.len() + TAG_LEN,
        res is Ok,
{
    let cipher = <chacha20poly1305::XChaCha20Poly1305 as chacha20poly1305::KeyInit>::new(
        key.into(),
    );
    chacha20poly1305::aead::Aead::encrypt(&cipher, nonce.into(), plaintext)
}

/// `Aead::decrypt` of `chacha20poly1305::XChaCha20Poly1305`, keyed by
/// `KeyInit::new`.
///
/// The result is a function of key, nonce and input, named
/// [`xchacha20_poly1305_open`]. The call is made only on inputs no longer
/// than an encryption can be: on a longer input with a valid tag the stream
/// cipher panics. Decryption recomputes the tag that encryption appends and
/// undoes the same key stream: it returns `p` on the encryption of `p`, and
/// whatever it accepts is the encryption of what it returns. The output is
/// one tag shorter than the input.
#[verifier::external_body]
pub(crate) fn xchacha20_poly1305_open_raw(key: &[u8; 32], nonce: &[u8; 24], sealed: &[u8]) -> (res:
    Result<Vec<u8>, aes_gcm::aead::Error>)
    requires
        sealed@.len() <= STAGE2_MAX_PLAINTEXT + TAG_LEN,
    ensures
        cipher_output(res) == xchacha20_poly1305_open(key@, nonce@, sealed@),
        res matches Ok(plaintext) ==> plaintext@.len() + TAG_LEN == sealed@.len(),
        stage2_inverse(key@, nonce@, sealed@, cipher_output(res)),
{
    let cipher = <chacha20poly1305::XChaCha20Poly1305 as chacha20poly1305::KeyInit>::new(
        key.into(),
    );
    chacha20poly1305::aead::Aead::decrypt(&cipher, nonce.into(), sealed)
}

/// The suffix that separates stage-2 nonce material from stage-1: the
/// ASCII text `stage2`.
pub open spec fn stage2_suffix() -> Seq<u8> {
    seq![0x73u8, 0x74u8, 0x61u8, 0x67u8, 0x65u8, 0x32u8]
}

/// Digest input of the stage-1 nonce: the identifier followed by the
/// big-endian counter.
pub open spec fn stage1_nonce_material(device_id: Seq<u8>, counter: u64) -> Seq<u8> {
    device_id + u64_be_bytes(counter)
}

/// Digest input of the stage-2 nonce: the stage-1 input followed by
/// [`stage2_suffix`].
pub open spec fn stage2_nonce_material(device_id: Seq<u8>, counter: u64) -> Seq<u8> {
    device_id + u64_be_bytes(counter) + stage2_suffix()
}

/// The 96-bit stage-1 nonce: the first 12 bytes of the digest of
/// [`stage1_nonce_material`].
pub open spec fn stage1_nonce(device_id: Seq<u8>, counter: u64) -> Seq<u8> {
    sha256(stage1_nonce_material(device_id, counter)).subrange(0, 12)
}

/// The 192-bit stage-2 nonce: the first 24 bytes of the digest of
/// [`stage2_nonce_material`].
pub open spec fn stage2_nonce(device_id: Seq<u8>, counter: u64) -> Seq<u8> {
    sha256(stage2_nonce_material(device_id, counter)).subrange(0, 24)
}

/// The stage-1 key of a device: the digest of its identifier.
pub open spec fn stage1_key(device_id: Seq<u8>) -> Seq<u8> {
    sha256(device_id)
}

/// The stage-2 key: the digest of the context label.
pub open spec fn stage2_key(context: Seq<u8>) -> Seq<u8> {
    sha256(context)
}

/// The first `N` bytes of a digest.
fn digest_prefix<const N: usize>(digest: &[u8; 32]) -> (out: [u8; N])
    requires
        N <= 32,
    ensures
        out@ == digest@.subrange(0, N as int),
{
    let mut out = [0u8;N];
    let mut i: usize = 0;
    while i < N
        invariant
            i <= N <= 32,
            forall|j: int| 0 <= j < i ==> out@[j] == digest@[j],
        decreases N - i,
    {
        out[i] = digest[i];
        i += 1;
    }
    out
}

/// Derives the 96-bit stage-1 nonce for one message of a device.
pub fn derive_stage1_nonce(device_id: &str, counter: u64) -> (nonce: [u8; 12])
    ensures
        nonce@ == stage1_nonce(device_id.spec_bytes(), counter),
{
    let mut material: Vec<u8> = Vec::new();
    material.extend_from_slice(device_id.as_bytes());
    let counter_bytes = u64_to_be_bytes(counter);
    material.extend_from_slice(counter_bytes.as_slice());
    assert(material@ =~= stage1_nonce_material(device_id.spec_bytes(), counter));
    let digest = sha256_raw(material.as_slice());
    digest_prefix::<12>(&digest)
}

/// Derives the 192-bit stage-2 nonce for one message of a device.
pub fn derive_stage2_nonce(device_id: &str, counter: u64) -> (nonce: [u8; 24])
    ensures
        nonce@ == stage2_nonce(device_id.spec_bytes(), counter),
{
    let mut material: Vec<u8> = Vec::new();
    material.extend_from_slice(device_id.as_bytes());
    let counter_bytes = u64_to_be_bytes(counter);
    material.extend_from_slice(counter_bytes.as_slice());
    let suffix: [u8; 6] = [0x73, 0x74, 0x61, 0x67, 0x65, 0x32];
    material.extend_from_slice(suffix.as_slice());
    assert(material@ =~= stage2_nonce_material(device_id.spec_bytes(), counter));
    let digest = sha256_raw(material.as_slice());
    digest_prefix::<24>(&digest)
}

/// Stage 1: AES-256-GCM under a per-device key.
pub struct Stage1Encryption {
    key: [u8; 32],
}

impl Stage1Encryption {
    /// The key this stage encrypts under.
    pub closed spec fn key(&self) -> Seq<u8> {
        self.key@
    }

    pub fn new(key: [u8; 32]) -> (stage: Self)
        ensures
            stage.key() == key@,
    {
        Self { key }
    }

    /// Encrypts `plaintext` under the caller's nonce; the tag is appended.
    ///
    /// Fails exactly when the plaintext is longer than the cipher or the
    /// machine can take.
    pub fn encrypt_with_nonce(&self, plaintext: &[u8], nonce_bytes: &[u8; 12]) -> (res: Result<
        Vec<u8>,
        LCoreError,
    >)
        ensures
            res is Ok <==> stage1_accepts(plaintext@.len()),
            match res {
                Ok(sealed) => aes256_gcm_seal(self.key(), nonce_bytes@, plaintext@) == Some(
                    sealed@,
                ) && sealed@.len() == plaintext@.len() + TAG_LEN,
                Err(e) => e == LCoreError::Encryption(CipherFault::Stage1Seal),
            },
    {
        if plaintext.len() > isize::MAX as usize - TAG_LEN {
            return Err(LCoreError::Encryption(CipherFault::Stage1Seal));
        }
        match aes256_gcm_seal_raw(&self.key, nonce_bytes, plaintext) {
            Ok(sealed) => Ok(sealed),
            Err(_) => Err(LCoreError::Encryption(CipherFault::Stage1Seal)),
        }
    }

    /// Decrypts what [`Self::encrypt_with_nonce`] produced under the same
    /// key and nonce, and rejects an input whose tag does not verify.
    ///
    /// The result is the plaintext of which `sealed` is the encryption, if
    /// there is one; and any plaintext returned within the encryption limit
    /// encrypts to `sealed`.
    pub fn decrypt_with_nonce(&self, sealed: &[u8], nonce_bytes: &[u8; 12]) -> (res: Result<
        Vec<u8>,
        LCoreError,
    >)
        ensures
            match res {
                Ok(plaintext) => aes256_gcm_open(self.key(), nonce_bytes@, sealed@) == Some(
                    plaintext@,
                ) && plaintext@.len() + TAG_LEN == sealed@.len(),
                Err(e) => aes256_gcm_open(self.key(), nonce_bytes@, sealed@) is None && e
                    == LCoreError::Encryption(CipherFault::Stage1Open),
            },
            stage1_inverse(
                self.key(),
                nonce_bytes@,
                sealed@,
                aes256_gcm_open(self.key(), nonce_bytes@, sealed@),
            ),
    {
        match aes256_gcm_open_raw(&self.key, nonce_bytes, sealed) {
            Ok(plaintext) => Ok(plaintext),
            Err(_) => Err(LCoreError::Encryption(CipherFault::Stage1Open)),
        }
    }

    /// The stage-1 key of a device: the digest of its identifier. Never
    /// fails.
    pub fn derive_key_from_did(did: &str) -> (res: Result<[u8; 32], LCoreError>)
        ensures
            res matches Ok(key) && key@ == stage1_key(did.spec_bytes()),
    {
        Ok(sha256_raw(did.as_bytes()))
    }
}

/// Stage 2: XChaCha20-Poly1305 under a key shared by all devices.
pub struct Stage2Encryption {
    key: [u8; 32],
}

impl Stage2Encryption {
    /// The key this stage encrypts under.
    pub closed spec fn key(&self) -> Seq<u8> {
        self.key@
    }

    pub fn new(key: [u8; 32]) -> (stage: Self)
        ensures
            stage.key() == key@,
    {
        Self { key }
    }

    /// Encrypts stage-1 output under the caller's nonce; the tag is
    /// appended.
    ///
    /// Fails exactly when the input is longer than the key stream or than
    /// the machine can take; the cipher is not called on such an input.
    pub fn encrypt_with_nonce(&self, stage1_ciphertext: &[u8], nonce_bytes: &[u8; 24]) -> (res:
        Result<Vec<u8>, LCoreError>)
        ensures
            res is Ok <==> stage2_accepts(stage1_ciphertext@.len()),
            match res {
                Ok(sealed) => stage2_seal(self.key(), nonce_bytes@, stage1_ciphertext@) == Some(
                    sealed@,
                ) && sealed@.len() == stage1_ciphertext@.len() + TAG_LEN,
                Err(e) => e == LCoreError::Encryption(CipherFault::Stage2Seal),
            },
    {
        if stage1_ciphertext.len() > isize::MAX as usize - TAG_LEN || stage1_ciphertext.len() as u64
            > STAGE2_MAX_PLAINTEXT {
            return Err(LCoreError::Encryption(CipherFault::Stage2Seal));
        }
        match xchacha20_poly1305_seal_raw(&self.key, nonce_bytes, stage1_ciphertext) {
            Ok(sealed) => Ok(sealed),
            Err(_) => Err(LCoreError::Encryption(CipherFault::Stage2Seal)),
        }
    }

    /// Decrypts what [`Self::encrypt_with_nonce`] produced under the same
    /// key and nonce, and rejects an input whose tag does not verify.
    ///
    /// The result is the plaintext of which `sealed` is the encryption, if
    /// there is one; and any plaintext returned encrypts to `sealed`. An
    /// input longer than any encryption is rejected without calling the
    /// cipher.
    pub fn decrypt_with_nonce(&self, stage2_ciphertext: &[u8], nonce_bytes: &[u8; 24]) -> (res:
        Result<Vec<u8>, LCoreError>)
        ensures
            match res {
                Ok(plaintext) => stage2_open(self.key(), nonce_bytes@, stage2_ciphertext@) == Some(
                    plaintext@,
                ) && plaintext@.len() + TAG_LEN == stage2_ciphertext@.len(),
                Err(e) => stage2_open(self.key(), nonce_bytes@, stage2_ciphertext@) is None && e
                    == LCoreError::Encryption(CipherFault::Stage2Open),
            },
            stage2_inverse(
                self.key(),
                nonce_bytes@,
                stage2_ciphertext@,
                stage2_open(self.key(), nonce_bytes@, stage2_ciphertext@),
            ),
    {
        if stage2_ciphertext.len() as u64 > STAGE2_MAX_PLAINTEXT + TAG_LEN as u64 {
            return Err(LCoreError::Encryption(CipherFault::Stage2Open));
        }
        match xchacha20_poly1305_open_raw(&self.key, nonce_bytes, stage2_ciphertext) {
            Ok(plaintext) => Ok(plaintext),
            Err(_) => Err(LCoreError::Encryption(CipherFault::Stage2Open)),
        }
    }

    /// The stage-2 key: the digest of the context label. Never fails.
    pub fn derive_key_from_context(context: &str) -> (res: Result<[u8; 32], LCoreError>)
        ensures
            res matches Ok(key) && key@ == stage2_key(context.spec_bytes()),
    {
        Ok(sha256_raw(context.as_bytes()))
    }
}

/// The two stages in series, keyed and nonced from a device identifier and
/// a message counter.
pub struct DualCipher;

/// The context label as bytes.
pub open spec fn context_bytes() -> Seq<u8> {
    ENCRYPTION_CONTEXT.spec_bytes()
}

/// Stage-2 encryption of the stage-1 encryption of `plaintext`, for message
/// `counter` of device `device_id`.
pub open spec fn dual_seal(device_id: Seq<u8>, counter: u64, plaintext: Seq<u8>) -> Option<
    Seq<u8>,
> {
    match aes256_gcm_seal(stage1_key(device_id), stage1_nonce(device_id, counter), plaintext) {
        Some(inner) => stage2_seal(
            stage2_key(context_bytes()),
            stage2_nonce(device_id, counter),
            inner,
        ),
        None => None,
    }
}

/// Stage-1 decryption of the stage-2 decryption of `sealed`, for message
/// `counter` of device `device_id`.
pub open spec fn dual_open(device_id: Seq<u8>, counter: u64, sealed: Seq<u8>) -> Option<Seq<u8>> {
    match stage2_open(stage2_key(context_bytes()), stage2_nonce(device_id, counter), sealed) {
        Some(inner) => aes256_gcm_open(
            stage1_key(device_id),
            stage1_nonce(device_id, counter),
            inner,
        ),
        None => None,
    }
}

/// `opened` recovers every plaintext whose two-stage encryption, under the
/// same identifier and counter, is `sealed`.
pub open spec fn dual_round_trip(
    device_id: Seq<u8>,
    counter: u64,
    sealed: Seq<u8>,
    opened: Option<Seq<u8>>,
) -> bool {
    forall|p: Seq<u8>| #[trigger]
        dual_seal(device_id, counter, p) == Some(sealed) ==> opened == Some(p)
}

/// Both stages encrypt a plaintext of this length.
pub open spec fn dual_accepts(len: nat) -> bool {
    stage1_accepts(len) && stage2_accepts(len + TAG_LEN as nat)
}

/// The error with which the composition refuses a plaintext of this length.
pub open spec fn dual_seal_error(len: nat) -> LCoreError {
    if stage1_accepts(len) {
        LCoreError::Encryption(CipherFault::Stage2Seal)
    } else {
        LCoreError::Encryption(CipherFault::Stage1Seal)
    }
}

/// The error with which the composition rejects `sealed`.
pub open spec fn dual_open_error(device_id: Seq<u8>, counter: u64, sealed: Seq<u8>) -> LCoreError {
    if stage2_open(stage2_key(context_bytes()), stage2_nonce(device_id, counter), sealed) is Some {
        LCoreError::Encryption(CipherFault::Stage1Open)
    } else {
        LCoreError::Encryption(CipherFault::Stage2Open)
    }
}

/// Lower-case hexadecimal digest of a key, kept with each record for audit.
pub fn key_fingerprint(key: &[u8; 32]) -> (text: String)
    ensures
        text@ == crate::codec::spec_hex_encode(sha256(key@)),
{
    let digest = sha256_raw(key.as_slice());
    crate::codec::hex_encode_raw(digest.as_slice())
}

impl DualCipher {
    /// Encrypts `plaintext` as message `counter` of device `device_id`:
    /// stage 1, then stage 2.
    ///
    /// The caller must have allocated `counter` for this one encryption.
    pub fn encrypt(device_id: &str, counter: u64, plaintext: &[u8]) -> (res: Result<
        Vec<u8>,
        LCoreError,
    >)
        ensures
            res is Ok <==> dual_accepts(plaintext@.len()),
            match res {
                Ok(sealed) => dual_seal(device_id.spec_bytes(), counter, plaintext@) == Some(
                    sealed@,
                ) && sealed@.len() == plaintext@.len() + 2 * TAG_LEN,
                Err(e) => e == dual_seal_error(plaintext@.len()),
            },
    {
        let key1 = sha256_raw(device_id.as_bytes());
        let stage1 = Stage1Encryption::new(key1);
        let nonce1 = derive_stage1_nonce(device_id, counter);
        let inner = match stage1.encrypt_with_nonce(plaintext, &nonce1) {
            Ok(inner) => inner,
            Err(e) => {
                return Err(e);
            },
        };
        let key2 = sha256_raw(ENCRYPTION_CONTEXT.as_bytes());
        let stage2 = Stage2Encryption::new(key2);
        let nonce2 = derive_stage2_nonce(device_id, counter);
        stage2.encrypt_with_nonce(inner.as_slice(), &nonce2)
    }

    /// Reverses [`Self::encrypt`]: stage 2, then stage 1, with the counter
    /// stored beside the ciphertext.
    ///
    /// Whatever `sealed` is, the result is [`dual_open`]; on the encryption
    /// of `p` under the same identifier and counter it is `p`.
    pub fn decrypt(device_id: &str, counter: u64, sealed: &[u8]) -> (res: Result<
        Vec<u8>,
        LCoreError,
    >)
        ensures
            match res {
                Ok(plaintext) => dual_open(device_id.spec_bytes(), counter, sealed@) == Some(
                    plaintext@,
                ) && plaintext@.len() + 2 * TAG_LEN == sealed@.len(),
                Err(e) => dual_open(device_id.spec_bytes(), counter, sealed@) is None && e
                    == dual_open_error(device_id.spec_bytes(), counter, sealed@),
            },
            dual_round_trip(
                device_id.spec_bytes(),
                counter,
                sealed@,
                dual_open(device_id.spec_bytes(), counter, sealed@),
            ),
    {
        let key2 = sha256_raw(ENCRYPTION_CONTEXT.as_bytes());
        let stage2 = Stage2Encryption::new(key2);
        let nonce2 = derive_stage2_nonce(device_id, counter);
        let inner = match stage2.decrypt_with_nonce(sealed, &nonce2) {
            Ok(inner) => inner,
            Err(e) => {
                return Err(e);
            },
        };
        let key1 = sha256_raw(device_id.as_bytes());
        let stage1 = Stage1Encryption::new(key1);
        let nonce1 = derive_stage1_nonce(device_id, counter);
        stage1.decrypt_with_nonce(inner.as_slice(), &nonce1)
    }
}

/// A stage-1 input that differs from the encryption of `plaintext` never
/// decrypts to `plaintext`: within the encryption limit, whatever stage 1
/// accepts is the encryption of what it returns.
pub proof fn lemma_stage1_altered_input_opens_to_something_else(
    key: Seq<u8>,
    nonce: Seq<u8>,
    plaintext: Seq<u8>,
    sealed: Seq<u8>,
    altered: Seq<u8>,
    opened: Option<Seq<u8>>,
)
    requires
        aes256_gcm_seal(key, nonce, plaintext) == Some(sealed),
        altered != sealed,
        plaintext.len() <= STAGE1_MAX_PLAINTEXT,
        stage1_inverse(key, nonce, altered, opened),
    ensures
        opened != Some(plaintext),
{
}

/// A stage-2 input that differs from the encryption of `plaintext` never
/// decrypts to `plaintext`: whatever stage 2 accepts is the encryption of
/// what it returns.
pub proof fn lemma_stage2_altered_input_opens_to_something_else(
    key: Seq<u8>,
    nonce: Seq<u8>,
    plaintext: Seq<u8>,
    sealed: Seq<u8>,
    altered: Seq<u8>,
    opened: Option<Seq<u8>>,
)
    requires
        stage2_seal(key, nonce, plaintext) == Some(sealed),
        altered != sealed,
        stage2_inverse(key, nonce, altered, opened),
    ensures
        opened != Some(plaintext),
{
}

/// Nonce derivation is a function of the identifier and the counter alone:
/// equal inputs give equal nonces, whenever and wherever they are derived.
pub proof fn lemma_nonce_deterministic(id_a: Seq<u8>, counter_a: u64, id_b: Seq<u8>, counter_b: u64)
    requires
        id_a == id_b,
        counter_a == counter_b,
    ensures
        stage1_nonce(id_a, counter_a) == stage1_nonce(id_b, counter_b),
        stage2_nonce(id_a, counter_a) == stage2_nonce(id_b, counter_b),
{
}

/// For one identifier and counter the two stages never digest the same
/// bytes: the stage-2 input carries the suffix, so it is six bytes longer.
pub proof fn lemma_nonce_domains_separate(device_id: Seq<u8>, counter: u64)
    ensures
        stage1_nonce_material(device_id, counter) != stage2_nonce_material(device_id, counter),
        stage2_nonce_material(device_id, counter) == stage1_nonce_material(device_id, counter)
            + stage2_suffix(),
{
    assert(stage2_nonce_material(device_id, counter).len() == stage1_nonce_material(
        device_id,
        counter,
    ).len() + 6);
}

/// The big-endian bytes of a counter determine it.
pub proof fn lemma_be_bytes_injective(a: u64, b: u64)
    requires
        u64_be_bytes(a) == u64_be_bytes(b),
    ensures
        a == b,
{
    let x = u64_be_bytes(a);
    let y = u64_be_bytes(b);
    assert(x[0] == y[0] && x[1] == y[1] && x[2] == y[2] && x[3] == y[3]);
    assert(x[4] == y[4] && x[5] == y[5] && x[6] == y[6] && x[7] == y[7]);
    assert(a == b) by (bit_vector)
        requires
            (a >> 56) as u8 == (b >> 56) as u8,
            ((a >> 48) & 0xff) as u8 == ((b >> 48) & 0xff) as u8,
            ((a >> 40) & 0xff) as u8 == ((b >> 40) & 0xff) as u8,
            ((a >> 32) & 0xff) as u8 == ((b >> 32) & 0xff) as u8,
            ((a >> 24) & 0xff) as u8 == ((b >> 24) & 0xff) as u8,
            ((a >> 16) & 0xff) as u8 == ((b >> 16) & 0xff) as u8,
            ((a >> 8) & 0xff) as u8 == ((b >> 8) & 0xff) as u8,
            (a & 0xff) as u8 == (b & 0xff) as u8,
    ;
}

/// Two messages of one device digest different bytes into their nonces
/// unless they carry the same counter: a counter allocated once yields
/// nonce material used once.
pub proof fn lemma_nonce_material_per_counter(device_id: Seq<u8>, counter_a: u64, counter_b: u64)
    requires
        counter_a != counter_b,
    ensures
        stage1_nonce_material(device_id, counter_a) != stage1_nonce_material(device_id, counter_b),
        stage2_nonce_material(device_id, counter_a) != stage2_nonce_material(device_id, counter_b),
{
    let n = device_id.len() as int;
    let a1 = stage1_nonce_material(device_id, counter_a);
    let b1 = stage1_nonce_material(device_id, counter_b);
    let a2 = stage2_nonce_material(device_id, counter_a);
    let b2 = stage2_nonce_material(device_id, counter_b);
    assert(a1.subrange(n, n + 8) == u64_be_bytes(counter_a));
    assert(b1.subrange(n, n + 8) == u64_be_bytes(counter_b));
    assert(a2.subrange(n, n + 8) == u64_be_bytes(counter_a));
    assert(b2.subrange(n, n + 8) == u64_be_bytes(counter_b));
    if a1 == b1 || a2 == b2 {
        lemma_be_bytes_injective(counter_a, counter_b);
    }
}

} // verus!
