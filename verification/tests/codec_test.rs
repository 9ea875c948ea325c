use lcore_node::codec::{decode_hex, decode_utf8};
use lcore_node::encryption::key_fingerprint;
use lcore_node::error::{AppError, AuthFault, CipherFault, LCoreError, StorageFault};
use lcore_node::text::{bytes_eq, bytes_less, find_from, str_eq, str_less, strip_prefix, trim_hex_prefix};

#[test]
fn hex_decodes_both_cases() {
    assert_eq!(decode_hex(b""), Ok(vec![]));
    assert_eq!(decode_hex(b"00ff"), Ok(vec![0x00, 0xff]));
    assert_eq!(decode_hex(b"f9B4cA"), Ok(vec![0xf9, 0xb4, 0xca]));
    assert_eq!(
        decode_hex(b"74656d70657261747572653a32332e35"),
        Ok(b"temperature:23.5".to_vec())
    );
}

#[test]
fn hex_rejects_odd_length_and_bad_digits() {
    assert_eq!(decode_hex(b"0"), Err(LCoreError::HexDecode));
    assert_eq!(decode_hex(b"abc"), Err(LCoreError::HexDecode));
    assert_eq!(decode_hex(b"0g"), Err(LCoreError::HexDecode));
    assert_eq!(decode_hex(b"0x12"), Err(LCoreError::HexDecode));
    assert_eq!(decode_hex(b" 12 "), Err(LCoreError::HexDecode));
}

#[test]
fn fingerprint_is_lower_case_hex_of_the_digest() {
    // SHA-256 of 32 zero bytes.
    assert_eq!(
        key_fingerprint(&[0u8; 32]),
        "66687aadf862bd776c8fc18b8e9f8e20089714856ee233b3902a591d0d5f2925"
    );
    // SHA-256 of 32 bytes 0xff.
    assert_eq!(
        key_fingerprint(&[0xffu8; 32]),
        "af9613760f72635fbdb44a5a0a63c39f12af30f950a6ee5c971be188e89c4051"
    );
}

#[test]
fn utf8_accepts_text_and_rejects_broken_bytes() {
    assert_eq!(decode_utf8(b"get_latest:did:example:1"), Ok("get_latest:did:example:1"));
    assert_eq!(decode_utf8("zäh€😀".as_bytes()), Ok("zäh€😀"));
    assert_eq!(decode_utf8(&[0xff]), Err(LCoreError::Utf8));
    assert_eq!(decode_utf8(&[0xc3]), Err(LCoreError::Utf8));
    assert_eq!(decode_utf8(&[0xed, 0xa0, 0x80]), Err(LCoreError::Utf8));
}

#[test]
fn hex_marker_is_trimmed_repeatedly() {
    assert_eq!(trim_hex_prefix(b"0x1234"), b"1234");
    assert_eq!(trim_hex_prefix(b"1234"), b"1234");
    assert_eq!(trim_hex_prefix(b"0x0x12"), b"12");
    assert_eq!(trim_hex_prefix(b"0x"), b"");
    assert_eq!(trim_hex_prefix(b"0"), b"0");
    assert_eq!(trim_hex_prefix(b"0X12"), b"0X12");
    assert_eq!(trim_hex_prefix(b"00x12"), b"00x12");
    assert_eq!(trim_hex_prefix(b""), b"");
}

#[test]
fn prefix_is_stripped_once() {
    assert_eq!(strip_prefix(b"get_latest:abc", b"get_latest:"), Some(&b"abc"[..]));
    assert_eq!(strip_prefix(b"get_latest:", b"get_latest:"), Some(&b""[..]));
    assert_eq!(strip_prefix(b"get_latest", b"get_latest:"), None);
    assert_eq!(strip_prefix(b"xget_latest:abc", b"get_latest:"), None);
    assert_eq!(strip_prefix(b"abab", b"ab"), Some(&b"ab"[..]));
    assert_eq!(strip_prefix(b"abc", b""), Some(&b"abc"[..]));
}

#[test]
fn byte_strings_compare_lexicographically() {
    assert!(bytes_eq(b"", b""));
    assert!(bytes_eq(b"abc", b"abc"));
    assert!(!bytes_eq(b"abc", b"abd"));
    assert!(!bytes_eq(b"abc", b"ab"));
    assert!(bytes_less(b"", b"a"));
    assert!(!bytes_less(b"", b""));
    assert!(!bytes_less(b"a", b""));
    assert!(bytes_less(b"ab", b"abc"));
    assert!(bytes_less(b"abc", b"abd"));
    assert!(!bytes_less(b"abd", b"abc"));
    assert!(bytes_less(b"10", b"9"));
    assert!(str_less("2024-01-01T00:00:00Z", "2024-01-01T00:00:01Z"));
    assert!(!str_less("2024-01-01T00:00:00Z", "2024-01-01T00:00:00Z"));
    assert!(str_eq("did:example:1", "did:example:1"));
    assert!(!str_eq("did:example:1", "did:example:2"));
}

#[test]
fn find_from_returns_first_match_or_length() {
    assert_eq!(find_from(b"a.b.c", b'.', 0), 1);
    assert_eq!(find_from(b"a.b.c", b'.', 1), 1);
    assert_eq!(find_from(b"a.b.c", b'.', 2), 3);
    assert_eq!(find_from(b"a.b.c", b'.', 4), 5);
    assert_eq!(find_from(b"a.b.c", b'.', 5), 5);
    assert_eq!(find_from(b"", b'.', 0), 0);
}

#[test]
fn errors_render_class_and_detail() {
    assert_eq!(
        LCoreError::Encryption(CipherFault::Stage1Seal).message(),
        "Encryption error: AES encryption failed"
    );
    assert_eq!(
        LCoreError::Encryption(CipherFault::Stage1Open).message(),
        "Encryption error: AES decryption failed"
    );
    assert_eq!(
        LCoreError::Encryption(CipherFault::Stage2Seal).message(),
        "Encryption error: ChaCha encryption failed"
    );
    assert_eq!(
        LCoreError::Encryption(CipherFault::Stage2Open).message(),
        "Encryption error: ChaCha decryption failed"
    );
    assert_eq!(
        LCoreError::DeviceAuth(AuthFault::EnvelopeFormat).message(),
        "Device authentication error: Invalid JWS format"
    );
    assert_eq!(
        LCoreError::DeviceAuth(AuthFault::PayloadMismatch).message(),
        "Device authentication error: Payload does not match signature"
    );
    assert_eq!(
        LCoreError::Database(StorageFault::CounterExhausted).message(),
        "Database error: device counter exhausted"
    );
    assert_eq!(LCoreError::Internal("boom".to_string()).message(), "Internal error: boom");
    assert_eq!(LCoreError::InvalidInput("bad".to_string()).message(), "Invalid input: bad");
    assert_eq!(LCoreError::Json("eof".to_string()).message(), "JSON error: eof");
    assert_eq!(LCoreError::HexDecode.message(), "Hex decode error");
    assert_eq!(LCoreError::Utf8.message(), "UTF-8 error");
}

#[test]
fn app_error_wraps_core_error_as_internal() {
    let err = AppError::from(LCoreError::Encryption(CipherFault::Stage1Open));
    assert_eq!(
        err,
        AppError::Internal("Encryption error: AES decryption failed".to_string())
    );
    assert_eq!(err.message(), "Internal error: Encryption error: AES decryption failed");
    assert_eq!(AppError::from_core(&LCoreError::Utf8), AppError::Internal("UTF-8 error".to_string()));
    assert_eq!(AppError::InvalidInput("x".to_string()).message(), "Invalid input: x");
}
