use lcore_node::encryption::{
    derive_stage1_nonce, derive_stage2_nonce, key_fingerprint, DualCipher, Stage1Encryption,
    Stage2Encryption, ENCRYPTION_CONTEXT,
};
use lcore_node::error::{CipherFault, LCoreError};

fn unhex(text: &str) -> Vec<u8> {
    hex::decode(text).expect("test vector is hexadecimal")
}

#[test]
fn stage1_key_is_digest_of_identifier() {
    let key = Stage1Encryption::derive_key_from_did("abc").expect("Failed to derive key");
    assert_eq!(
        key.to_vec(),
        unhex("ba7816bf8f01cfea414140de5dae2223b00361a396177a9cb410ff61f20015ad")
    );
    let key = Stage1Encryption::derive_key_from_did("did:example:1").expect("Failed to derive key");
    assert_eq!(
        key.to_vec(),
        unhex("44a963c566e13bfd230d6481b3de7521e54922d0a3d075436a6e8121c2810628")
    );
}

#[test]
fn stage2_key_is_digest_of_context() {
    let key = Stage2Encryption::derive_key_from_context(ENCRYPTION_CONTEXT)
        .expect("Failed to derive key");
    assert_eq!(ENCRYPTION_CONTEXT, "iot-sensor-data-v1");
    assert_eq!(
        key.to_vec(),
        unhex("2ac0a9b8a33e4cef3dbb50f963ed1ab646113f79c3a922f0b2b66060c14d9a94")
    );
}

#[test]
fn stage1_nonce_has_exact_value() {
    let nonce = derive_stage1_nonce("did:example:1", 1);
    assert_eq!(nonce.to_vec(), unhex("426005d33fc367c893918b6d"));
    let nonce = derive_stage1_nonce("did:example:1", 2);
    assert_eq!(nonce.to_vec(), unhex("edd8a07f2ff09b0020321785"));
}

#[test]
fn stage2_nonce_has_exact_value() {
    let nonce = derive_stage2_nonce("did:example:1", 1);
    assert_eq!(nonce.to_vec(), unhex("fc472498bb4b8f5a4d015de9d400acc9c179cadda43218b4"));
    let nonce = derive_stage2_nonce("did:example:1", 2);
    assert_eq!(nonce.to_vec(), unhex("32357788ed11832f1c50cab17163883ece8d684d3c873cbf"));
}

#[test]
fn nonces_are_deterministic() {
    for counter in [0u64, 1, 2, 255, 256, u64::MAX] {
        assert_eq!(
            derive_stage1_nonce("did:example:1", counter),
            derive_stage1_nonce("did:example:1", counter)
        );
        assert_eq!(
            derive_stage2_nonce("did:example:1", counter),
            derive_stage2_nonce("did:example:1", counter)
        );
    }
}

#[test]
fn nonces_differ_between_stages_counters_and_devices() {
    let first = derive_stage1_nonce("did:example:1", 1);
    let second = derive_stage2_nonce("did:example:1", 1);
    assert_ne!(first.to_vec(), second[..12].to_vec());
    assert_ne!(first, derive_stage1_nonce("did:example:1", 2));
    assert_ne!(first, derive_stage1_nonce("did:example:2", 1));
    assert_ne!(second, derive_stage2_nonce("did:example:1", 2));
    assert_ne!(second, derive_stage2_nonce("did:example:2", 1));
    // The counter enters as eight big-endian bytes: 1 and 256 differ only in
    // which byte is set.
    assert_ne!(derive_stage1_nonce("d", 1), derive_stage1_nonce("d", 256));
}

#[test]
fn stage1_seals_to_known_ciphertext() {
    let key = Stage1Encryption::derive_key_from_did("did:example:1").expect("Failed to derive key");
    let stage1 = Stage1Encryption::new(key);
    let nonce = derive_stage1_nonce("did:example:1", 1);
    let sealed = stage1
        .encrypt_with_nonce(b"temperature:23.5", &nonce)
        .expect("Stage 1 encryption failed");
    assert_eq!(
        sealed,
        unhex("70acb56c25a0c654ccd07089cd1654a0bb5d0eb12c309ab7ec63fcae81e82f2b")
    );
    assert_eq!(sealed.len(), 16 + 16);
}

#[test]
fn stage1_round_trip() {
    let key = Stage1Encryption::derive_key_from_did("did:example:1").expect("Failed to derive key");
    let stage1 = Stage1Encryption::new(key);
    for counter in [1u64, 2, 3] {
        let nonce = derive_stage1_nonce("did:example:1", counter);
        for plaintext in [&b""[..], &b"a"[..], &b"temperature:23.5,humidity:45.2"[..]] {
            let sealed =
                stage1.encrypt_with_nonce(plaintext, &nonce).expect("Stage 1 encryption failed");
            assert_eq!(sealed.len(), plaintext.len() + 16);
            let opened =
                stage1.decrypt_with_nonce(&sealed, &nonce).expect("Stage 1 decryption failed");
            assert_eq!(opened, plaintext);
        }
    }
}

#[test]
fn stage2_round_trip() {
    let key = Stage2Encryption::derive_key_from_context("iot-sensor-data-v1")
        .expect("Failed to derive key");
    let stage2 = Stage2Encryption::new(key);
    let nonce = derive_stage2_nonce("did:example:1", 1);
    for plaintext in [&b""[..], &b"a"[..], &b"temperature:23.5,humidity:45.2"[..]] {
        let sealed =
            stage2.encrypt_with_nonce(plaintext, &nonce).expect("Stage 2 encryption failed");
        assert_eq!(sealed.len(), plaintext.len() + 16);
        let opened =
            stage2.decrypt_with_nonce(&sealed, &nonce).expect("Stage 2 decryption failed");
        assert_eq!(opened, plaintext);
    }
}

#[test]
fn stage2_seals_to_known_ciphertext() {
    let key = Stage2Encryption::derive_key_from_context("iot-sensor-data-v1")
        .expect("Failed to derive key");
    let stage2 = Stage2Encryption::new(key);
    let nonce = derive_stage2_nonce("did:example:1", 1);
    let inner = unhex("70acb56c25a0c654ccd07089cd1654a0bb5d0eb12c309ab7ec63fcae81e82f2b");
    let sealed = stage2.encrypt_with_nonce(&inner, &nonce).expect("Stage 2 encryption failed");
    assert_eq!(
        sealed,
        unhex(
            "31944c1e859d6414a0a816c46cbef5f0aab92fa382a2b08cbefc2bd5a63a264ab6082c81e2e17da125da76620e070b50"
        )
    );
}

#[test]
fn dual_cipher_known_answer() {
    let sealed =
        DualCipher::encrypt("did:example:1", 1, b"temperature:23.5").expect("encryption failed");
    assert_eq!(
        sealed,
        unhex(
            "31944c1e859d6414a0a816c46cbef5f0aab92fa382a2b08cbefc2bd5a63a264ab6082c81e2e17da125da76620e070b50"
        )
    );
    let sealed = DualCipher::encrypt("did:example:1", 2, b"").expect("encryption failed");
    assert_eq!(
        sealed,
        unhex("582c9e19a4ef759514b3db986913f05400a65e08792043a2a46aeaff385b4d40")
    );
}

#[test]
fn dual_cipher_round_trip() {
    for device in ["did:example:1", "did:example:2", ""] {
        for counter in [1u64, 7, u64::MAX] {
            for plaintext in [&b""[..], &b"temperature:23.5"[..], &[0u8, 255, 1, 254][..]] {
                let sealed =
                    DualCipher::encrypt(device, counter, plaintext).expect("encryption failed");
                assert_eq!(sealed.len(), plaintext.len() + 32);
                let opened =
                    DualCipher::decrypt(device, counter, &sealed).expect("decryption failed");
                assert_eq!(opened, plaintext);
            }
        }
    }
}

#[test]
fn dual_cipher_needs_same_device_and_counter() {
    let sealed =
        DualCipher::encrypt("did:example:1", 1, b"temperature:23.5").expect("encryption failed");
    assert_eq!(
        DualCipher::decrypt("did:example:1", 2, &sealed),
        Err(LCoreError::Encryption(CipherFault::Stage2Open))
    );
    assert_eq!(
        DualCipher::decrypt("did:example:2", 1, &sealed),
        Err(LCoreError::Encryption(CipherFault::Stage2Open))
    );
}

#[test]
fn stage1_detects_every_single_bit_flip() {
    let key = Stage1Encryption::derive_key_from_did("did:example:1").expect("Failed to derive key");
    let stage1 = Stage1Encryption::new(key);
    let nonce = derive_stage1_nonce("did:example:1", 1);
    let sealed = stage1
        .encrypt_with_nonce(b"temperature:23.5", &nonce)
        .expect("Stage 1 encryption failed");
    for byte in 0..sealed.len() {
        for bit in 0..8 {
            let mut tampered = sealed.clone();
            tampered[byte] ^= 1 << bit;
            assert_eq!(
                stage1.decrypt_with_nonce(&tampered, &nonce),
                Err(LCoreError::Encryption(CipherFault::Stage1Open))
            );
        }
    }
}

#[test]
fn stage2_detects_every_single_bit_flip() {
    let key = Stage2Encryption::derive_key_from_context("iot-sensor-data-v1")
        .expect("Failed to derive key");
    let stage2 = Stage2Encryption::new(key);
    let nonce = derive_stage2_nonce("did:example:1", 1);
    let sealed = stage2
        .encrypt_with_nonce(b"temperature:23.5", &nonce)
        .expect("Stage 2 encryption failed");
    for byte in 0..sealed.len() {
        for bit in 0..8 {
            let mut tampered = sealed.clone();
            tampered[byte] ^= 1 << bit;
            assert_eq!(
                stage2.decrypt_with_nonce(&tampered, &nonce),
                Err(LCoreError::Encryption(CipherFault::Stage2Open))
            );
        }
    }
}

#[test]
fn dual_cipher_detects_every_single_bit_flip() {
    let sealed =
        DualCipher::encrypt("did:example:1", 1, b"temperature:23.5").expect("encryption failed");
    for byte in 0..sealed.len() {
        for bit in 0..8 {
            let mut tampered = sealed.clone();
            tampered[byte] ^= 1 << bit;
            assert!(DualCipher::decrypt("did:example:1", 1, &tampered).is_err());
        }
    }
}

#[test]
fn truncated_input_is_rejected() {
    let key = Stage1Encryption::derive_key_from_did("did:example:1").expect("Failed to derive key");
    let stage1 = Stage1Encryption::new(key);
    let nonce1 = derive_stage1_nonce("did:example:1", 1);
    assert_eq!(
        stage1.decrypt_with_nonce(b"", &nonce1),
        Err(LCoreError::Encryption(CipherFault::Stage1Open))
    );
    assert_eq!(
        stage1.decrypt_with_nonce(&[0u8; 15], &nonce1),
        Err(LCoreError::Encryption(CipherFault::Stage1Open))
    );
    let stage2 = Stage2Encryption::new(key);
    let nonce2 = derive_stage2_nonce("did:example:1", 1);
    assert_eq!(
        stage2.decrypt_with_nonce(&[0u8; 15], &nonce2),
        Err(LCoreError::Encryption(CipherFault::Stage2Open))
    );
    // Stage 2 opens, stage 1 then finds no tag.
    let outer = stage2.encrypt_with_nonce(b"short", &nonce2).expect("Stage 2 encryption failed");
    let key2 = Stage2Encryption::derive_key_from_context("iot-sensor-data-v1")
        .expect("Failed to derive key");
    let real_stage2 = Stage2Encryption::new(key2);
    let outer_real =
        real_stage2.encrypt_with_nonce(b"short", &nonce2).expect("Stage 2 encryption failed");
    assert_ne!(outer, outer_real);
    assert_eq!(
        DualCipher::decrypt("did:example:1", 1, &outer_real),
        Err(LCoreError::Encryption(CipherFault::Stage1Open))
    );
}

#[test]
fn fingerprint_is_hex_digest_of_key() {
    let key = Stage1Encryption::derive_key_from_did("did:example:1").expect("Failed to derive key");
    assert_eq!(
        key_fingerprint(&key),
        "2f636cb46372d6b122cc4a2b8f960688d7884c218154ceba9f11c514ace29cfc"
    );
    let key = Stage2Encryption::derive_key_from_context("iot-sensor-data-v1")
        .expect("Failed to derive key");
    assert_eq!(
        key_fingerprint(&key),
        "1716c1ee3e02a563e18193fa1f5fae28b644001c7b4ab421cd31ea66d8a87232"
    );
}
