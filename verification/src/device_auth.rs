//! Device authentication: a compact, three-segment signature envelope is
//! checked against the payload it claims to sign and against the device's
//! public key.
//!
//! Key parsing and EdDSA verification come from the `josekit` crate, base64
//! decoding from `base64`. Their results are functions of the bytes handed
//! in and are named here; the order of the checks, and which failure each
//! input yields, is this module's own and is stated exactly.

use crate::codec::{base64url_decode, base64url_decode_raw};
use crate::error::{AuthFault, LCoreError};
use crate::text::{bytes_eq, find_byte, find_from};
use vstd::prelude::*;
use vstd::slice::slice_subrange;
use vstd::string::StringSliceAdditionalSpecFns;

verus! {

#[verifier::external_type_specification]
#[verifier::external_body]
pub struct ExJwk(josekit::jwk::Jwk);

#[verifier::external_type_specification]
#[verifier::external_body]
pub struct ExEddsaJwsVerifier(josekit::jws::alg::eddsa::EddsaJwsVerifier);

#[verifier::external_type_specification]
#[verifier::external_body]
pub struct ExJoseError(josekit::JoseError);

/// Whether `json` parses as a JSON Web Key.
pub uninterp spec fn jwk_parses(json: Seq<u8>) -> bool;

/// Whether the key parsed from `json` can verify EdDSA signatures.
pub uninterp spec fn eddsa_key_usable(json: Seq<u8>) -> bool;

/// Whether `signature` is a valid EdDSA signature of `message` under the
/// key parsed from `json`.
pub uninterp spec fn eddsa_signature_valid(
    json: Seq<u8>,
    message: Seq<u8>,
    signature: Seq<u8>,
) -> bool;

/// A parsed public key. The key itself is opaque; the text it was parsed
/// from is remembered as a ghost value, so that what is done with the key
/// can be stated as a function of that text.
pub struct DeviceKey {
    jwk: josekit::jwk::Jwk,
    source: Ghost<Seq<u8>>,
}

/// A signature verifier built from a key. It remembers, as a ghost value,
/// the text its key was parsed from.
pub struct DeviceVerifier {
    verifier: josekit::jws::alg::eddsa::EddsaJwsVerifier,
    source: Ghost<Seq<u8>>,
}

impl DeviceKey {
    /// The JSON text this key was parsed from.
    pub closed spec fn source(&self) -> Seq<u8> {
        self.source@
    }
}

impl DeviceVerifier {
    /// The JSON text of the key this verifier was built from.
    pub closed spec fn source(&self) -> Seq<u8> {
        self.source@
    }
}

/// `Jwk::from_bytes`: whether it succeeds is a function of the text, named
/// [`jwk_parses`]; the key it returns is remembered as parsed from that
/// text.
#[verifier::external_body]
fn parse_device_key(json: &[u8]) -> (res: Result<DeviceKey, josekit::JoseError>)
    ensures
        res is Ok <==> jwk_parses(json@),
        res matches Ok(key) ==> key.source() == json@,
{
    match josekit::jwk::Jwk::from_bytes(json) {
        Ok(jwk) => Ok(DeviceKey { jwk, source: Ghost(json@) }),
        Err(e) => Err(e),
    }
}

/// `EddsaJwsAlgorithm::verifier_from_jwk` of `josekit::jws::EdDSA`: whether
/// it succeeds is a function of the key, hence of the text the key was
/// parsed from, named [`eddsa_key_usable`].
#[verifier::external_body]
fn build_verifier(key: &DeviceKey) -> (res: Result<DeviceVerifier, josekit::JoseError>)
    ensures
        res is Ok <==> eddsa_key_usable(key.source()),
        res matches Ok(verifier) ==> verifier.source() == key.source(),
{
    match josekit::jws::EdDSA.verifier_from_jwk(&key.jwk) {
        Ok(verifier) => Ok(DeviceVerifier { verifier, source: Ghost(key.source@) }),
        Err(e) => Err(e),
    }
}

/// `JwsVerifier::verify` of `EddsaJwsVerifier`: whether it succeeds is a
/// function of the key, the message and the signature, named
/// [`eddsa_signature_valid`].
#[verifier::external_body]
fn check_signature(verifier: &DeviceVerifier, message: &[u8], signature: &[u8]) -> (res: Result<
    (),
    josekit::JoseError,
>)
    ensures
        res is Ok <==> eddsa_signature_valid(verifier.source(), message@, signature@),
{
    josekit::jws::JwsVerifier::verify(&verifier.verifier, message, signature)
}

/// The byte that separates the segments of an envelope.
pub const DOT: u8 = 0x2e;

/// An envelope cut at its separators.
pub struct EnvelopeView {
    pub header: Seq<u8>,
    pub payload: Seq<u8>,
    pub signature: Seq<u8>,
}

/// The three segments of `jws`, or `None` unless it holds exactly two
/// separators.
pub open spec fn envelope_parts(jws: Seq<u8>) -> Option<EnvelopeView> {
    let first = find_byte(jws, DOT, 0);
    let second = find_byte(jws, DOT, first + 1);
    let third = find_byte(jws, DOT, second + 1);
    if first < jws.len() && second < jws.len() && third == jws.len() {
        Some(
            EnvelopeView {
                header: jws.subrange(0, first),
                payload: jws.subrange(first + 1, second),
                signature: jws.subrange(second + 1, jws.len() as int),
            },
        )
    } else {
        None
    }
}

/// What a well-formed envelope that carries the expected payload asks the
/// verifier to check.
pub struct SignedMessageView {
    /// Header segment, separator, payload segment: the encoded text as
    /// received, not the decoded bytes.
    pub message: Seq<u8>,
    /// The decoded signature segment.
    pub signature: Seq<u8>,
}

/// The checks that need no key: three segments, each of them unpadded
/// base64url, and a payload segment that decodes to `payload`. The first
/// check that fails names the fault.
pub open spec fn checked_envelope(jws: Seq<u8>, payload: Seq<u8>) -> Result<
    SignedMessageView,
    AuthFault,
> {
    match envelope_parts(jws) {
        None => Err(AuthFault::EnvelopeFormat),
        Some(parts) => if base64url_decode(parts.header) is None {
            Err(AuthFault::HeaderEncoding)
        } else if base64url_decode(parts.payload) is None {
            Err(AuthFault::PayloadEncoding)
        } else if base64url_decode(parts.signature) is None {
            Err(AuthFault::SignatureEncoding)
        } else if base64url_decode(parts.payload).unwrap() != payload {
            Err(AuthFault::PayloadMismatch)
        } else {
            Ok(
                SignedMessageView {
                    message: parts.header + seq![DOT] + parts.payload,
                    signature: base64url_decode(parts.signature).unwrap(),
                },
            )
        },
    }
}

/// Outcome of authenticating `payload` with envelope `jws` under the key
/// `key_json`: the key must parse, the envelope must pass
/// [`checked_envelope`], the key must be usable for EdDSA, and the signature
/// must verify over the encoded header and payload. The first step that
/// fails names the fault.
pub open spec fn signature_verdict(jws: Seq<u8>, payload: Seq<u8>, key_json: Seq<u8>) -> Result<
    (),
    AuthFault,
> {
    if !jwk_parses(key_json) {
        Err(AuthFault::KeyFormat)
    } else {
        match checked_envelope(jws, payload) {
            Err(fault) => Err(fault),
            Ok(signed) => if !eddsa_key_usable(key_json) {
                Err(AuthFault::KeyUnusable)
            } else if !eddsa_signature_valid(key_json, signed.message, signed.signature) {
                Err(AuthFault::SignatureInvalid)
            } else {
                Ok(())
            },
        }
    }
}

/// The message and signature an envelope asks to have verified.
pub struct SignedMessage {
    pub message: Vec<u8>,
    pub signature: Vec<u8>,
}

impl View for SignedMessage {
    type V = SignedMessageView;

    open spec fn view(&self) -> SignedMessageView {
        SignedMessageView { message: self.message@, signature: self.signature@ }
    }
}

/// Runs the checks of an envelope that need no key.
pub fn check_envelope(jws: &[u8], payload: &[u8]) -> (res: Result<SignedMessage, AuthFault>)
    ensures
        match res {
            Ok(signed) => checked_envelope(jws@, payload@) == Ok::<SignedMessageView, AuthFault>(
                signed@,
            ),
            Err(fault) => checked_envelope(jws@, payload@) == Err::<SignedMessageView, AuthFault>(
                fault,
            ),
        },
{
    let len = jws.len();
    let first = find_from(jws, DOT, 0);
    if first >= len {
        return Err(AuthFault::EnvelopeFormat);
    }
    let second = find_from(jws, DOT, first + 1);
    if second >= len {
        return Err(AuthFault::EnvelopeFormat);
    }
    let third = find_from(jws, DOT, second + 1);
    if third < len {
        return Err(AuthFault::EnvelopeFormat);
    }
    let header = slice_subrange(jws, 0, first);
    let body = slice_subrange(jws, first + 1, second);
    let tail = slice_subrange(jws, second + 1, len);
    if base64url_decode_raw(header).is_err() {
        return Err(AuthFault::HeaderEncoding);
    }
    let signed_payload = match base64url_decode_raw(body) {
        Ok(bytes) => bytes,
        Err(_) => {
            return Err(AuthFault::PayloadEncoding);
        },
    };
    let signature = match base64url_decode_raw(tail) {
        Ok(bytes) => bytes,
        Err(_) => {
            return Err(AuthFault::SignatureEncoding);
        },
    };
    if !bytes_eq(signed_payload.as_slice(), payload) {
        return Err(AuthFault::PayloadMismatch);
    }
    let mut message: Vec<u8> = Vec::new();
    message.extend_from_slice(slice_subrange(jws, 0, second));
    assert(message@ =~= header@ + seq![DOT] + body@);
    Ok(SignedMessage { message, signature })
}

/// Authenticates `payload` as sent by the holder of the key
/// `public_jwk_json`, given the signature envelope `jws`.
///
/// A failure is an ordinary outcome: it means that the request is to be
/// rejected.
pub fn verify_device_signature(jws: &str, payload: &[u8], public_jwk_json: &str) -> (res: Result<
    (),
    LCoreError,
>)
    ensures
        match res {
            Ok(_) => signature_verdict(jws.spec_bytes(), payload@, public_jwk_json.spec_bytes())
                is Ok,
            Err(e) => signature_verdict(jws.spec_bytes(), payload@, public_jwk_json.spec_bytes())
                matches Err(fault) && e == LCoreError::DeviceAuth(fault),
        },
{
    let key = match parse_device_key(public_jwk_json.as_bytes()) {
        Ok(key) => key,
        Err(_) => {
            return Err(LCoreError::DeviceAuth(AuthFault::KeyFormat));
        },
    };
    let signed = match check_envelope(jws.as_bytes(), payload) {
        Ok(signed) => signed,
        Err(fault) => {
            return Err(LCoreError::DeviceAuth(fault));
        },
    };
    let verifier = match build_verifier(&key) {
        Ok(verifier) => verifier,
        Err(_) => {
            return Err(LCoreError::DeviceAuth(AuthFault::KeyUnusable));
        },
    };
    match check_signature(&verifier, signed.message.as_slice(), signed.signature.as_slice()) {
        Ok(_) => Ok(()),
        Err(_) => Err(LCoreError::DeviceAuth(AuthFault::SignatureInvalid)),
    }
}

/// An envelope whose payload segment decodes to anything but the expected
/// payload is rejected, and the rejection never depends on the signature:
/// the fault is settled before the key is put to use.
pub proof fn lemma_mismatch_rejected_before_verification(
    jws: Seq<u8>,
    payload: Seq<u8>,
    key_json: Seq<u8>,
)
    requires
        envelope_parts(jws) matches Some(parts) && base64url_decode(parts.payload) != Some(
            payload,
        ),
    ensures
        signature_verdict(jws, payload, key_json) matches Err(fault) && fault
            != AuthFault::KeyUnusable && fault != AuthFault::SignatureInvalid,
{
}

/// Authentication succeeds only on an envelope of three well-encoded
/// segments that carries exactly the expected payload, and only if the
/// signature verifies over the encoded header and payload as received.
pub proof fn lemma_verified_means_signed(jws: Seq<u8>, payload: Seq<u8>, key_json: Seq<u8>)
    requires
        signature_verdict(jws, payload, key_json) is Ok,
    ensures
        envelope_parts(jws) is Some,
        base64url_decode(envelope_parts(jws).unwrap().payload) == Some(payload),
        base64url_decode(envelope_parts(jws).unwrap().signature) is Some,
        eddsa_signature_valid(
            key_json,
            envelope_parts(jws).unwrap().header + seq![DOT] + envelope_parts(jws).unwrap().payload,
            base64url_decode(envelope_parts(jws).unwrap().signature).unwrap(),
        ),
{
}

} // verus!
