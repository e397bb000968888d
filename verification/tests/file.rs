use nopass::crypto::ArgonKey;
use nopass::crypto::Crypto;
use nopass::errors::VaultError;
use nopass::file::decode_encrypted_file;
use nopass::file::derive_file_key;
use nopass::file::encode_encrypted_file;
use nopass::file::encode_with_nonce;
use nopass::file::file_salt;
use nopass::file::frame_file;
use nopass::zerobyte::ZeroByte;

const TEST_BYTES: &[u8] = b"Super secret message";
const TEST_PASSWORD: &[u8] = b"correct-horse-battery-staple";

/// The key that the fixed costs give for "pw1" and a salt of sixteen ones.
const PW1_KEY: [u8; 32] = [
    0xB9, 0xB4, 0x87, 0x5D, 0x8A, 0xD4, 0x64, 0xCC, 0x92, 0xAB, 0x9C, 0x46, 0x30, 0x3F, 0xF6, 0x72,
    0x3E, 0xDF, 0xCC, 0x5A, 0xA1, 0x55, 0x9A, 0x53, 0x61, 0x78, 0xF0, 0xAB, 0x60, 0x3E, 0x94, 0xAB,
];

// Two derivations under the fixed costs take too long for one test.
fn derive_light(password: &ZeroByte) -> Result<ArgonKey, VaultError> {
    Crypto::derive_with_costs(password, None, 64, 2, 2)
}

#[test]
fn test_write_encrypted_file_create_files() {
    let bytes = ZeroByte::from_bytes(TEST_BYTES);
    let password = ZeroByte::from_bytes(TEST_PASSWORD);
    let key = Crypto::derive_argon_key(&password, None).expect("Key derivation failed");

    let contents = encode_encrypted_file(&bytes, &key).expect("Write failed");

    assert!(contents.len() > 16, "File too small to contain salt and data");
    assert_eq!(contents.len(), 16 + 12 + TEST_BYTES.len() + 16);
    assert_eq!(contents[..16].len(), 16);
    assert_eq!(&contents[..16], &key.salt);
}

#[test]
fn test_read_encrypted_file_returns_data() {
    let bytes = ZeroByte::from_bytes(TEST_BYTES);
    let password = ZeroByte::from_bytes(TEST_PASSWORD);

    let key = Crypto::derive_argon_key(&password, None).expect("Key derivation failed");
    let contents = encode_encrypted_file(&bytes, &key).expect("Write failed");

    let decrypted = decode_encrypted_file(&contents, &key).expect("Read failed");

    decrypted.with_bytes(|decrypted_slice| {
        bytes.with_bytes(|bytes_slice| {
            assert_eq!(decrypted_slice, bytes_slice);
        });
    });
}

#[test]
fn test_decrypt_with_wrong_password_fails() {
    let bytes = ZeroByte::from_bytes(TEST_BYTES);

    let correct_password = ZeroByte::from_bytes(TEST_PASSWORD);
    let correct_key = derive_light(&correct_password).expect("Key derivation failed");
    let contents = encode_encrypted_file(&bytes, &correct_key).expect("Write failed");

    let wrong_password = ZeroByte::from_bytes(b"incorrect");
    let wrong_key = derive_light(&wrong_password).expect("Key derivation failed");
    let result = decode_encrypted_file(&contents, &wrong_key);
    assert!(result.is_err(), "Decryption should fail with wrong password");
}

#[test]
fn test_invalid_file_format_fails() {
    let contents = b"short";

    let wrong_key = Crypto::derive_argon_key(&ZeroByte::from_bytes(b"incorrect"), None)
        .expect("Key derivation failed");
    let result = decode_encrypted_file(contents, &wrong_key);
    assert!(result.is_err(), "Should fail on invalid input");
    assert_eq!(result.err(), Some(VaultError::Format));
}

#[test]
fn file_written_under_a_passphrase_reopens_with_it() {
    let bytes = ZeroByte::from_bytes(TEST_BYTES);
    let key = ArgonKey { bytes: PW1_KEY, salt: [1u8; 16] };
    let contents = encode_encrypted_file(&bytes, &key).expect("Write failed");

    let again = derive_file_key(&contents[..16], &ZeroByte::from_bytes(b"pw1"))
        .expect("Key derivation failed");
    assert_eq!(again.bytes, key.bytes);
    assert_eq!(again.salt, key.salt);
    let read = decode_encrypted_file(&contents, &again).expect("Read failed");
    assert!(read.constant_time_eq(TEST_BYTES));
}

#[test]
fn file_written_under_a_passphrase_does_not_reopen_with_another() {
    let bytes = ZeroByte::from_bytes(TEST_BYTES);
    let key = ArgonKey { bytes: PW1_KEY, salt: [1u8; 16] };
    let contents = encode_encrypted_file(&bytes, &key).expect("Write failed");

    let other = derive_file_key(&contents, &ZeroByte::from_bytes(b"pw2"))
        .expect("Key derivation failed");
    assert_eq!(other.salt, key.salt);
    assert_ne!(other.bytes, key.bytes);
    assert_eq!(decode_encrypted_file(&contents, &other).err(), Some(VaultError::Authentication));
}

#[test]
fn file_layout_is_salt_then_nonce_then_ciphertext() {
    let key = ArgonKey { bytes: [1u8; 32], salt: [2u8; 16] };
    let nonce = [3u8; 12];
    let bytes = ZeroByte::from_bytes(TEST_BYTES);
    let contents = encode_with_nonce(&bytes, &key, nonce).expect("Write failed");
    let blob = Crypto::encrypt_with_nonce(&bytes, &key, nonce).expect("Encryption failed");

    assert_eq!(&contents[..16], &[2u8; 16]);
    assert_eq!(&contents[16..28], &[3u8; 12]);
    assert!(blob.constant_time_eq(&contents[16..]));
    assert_eq!(contents.len(), 64);
}

#[test]
fn frame_file_puts_the_salt_first() {
    let framed = frame_file(&[5u8; 16], &ZeroByte::from_bytes(b"xyz"));
    let mut expected = vec![5u8; 16];
    expected.extend_from_slice(b"xyz");
    assert_eq!(framed, expected);

    assert_eq!(frame_file(&[5u8; 16], &ZeroByte::with_capacity(0)), vec![5u8; 16]);
}

#[test]
fn file_salt_needs_sixteen_bytes() {
    for len in 0..16 {
        assert_eq!(file_salt(&vec![1u8; len]).err(), Some(VaultError::Format));
    }
    let mut contents: Vec<u8> = (0u8..40).collect();
    assert_eq!(file_salt(&contents).unwrap(), [0, 1, 2, 3, 4, 5, 6, 7, 8, 9, 10, 11, 12, 13, 14, 15]);
    contents.truncate(16);
    assert_eq!(file_salt(&contents).unwrap(), [0, 1, 2, 3, 4, 5, 6, 7, 8, 9, 10, 11, 12, 13, 14, 15]);
}

#[test]
fn short_files_are_malformed_and_do_not_panic() {
    let key = ArgonKey { bytes: [1u8; 32], salt: [2u8; 16] };
    for len in 0..28 {
        let contents = vec![0u8; len];
        assert_eq!(decode_encrypted_file(&contents, &key).err(), Some(VaultError::Format));
    }
    for len in 28..44 {
        let contents = vec![0u8; len];
        assert_eq!(
            decode_encrypted_file(&contents, &key).err(),
            Some(VaultError::Authentication)
        );
    }
    assert_eq!(
        derive_file_key(b"short", &ZeroByte::from_bytes(b"pw")).err(),
        Some(VaultError::Format)
    );
}

#[test]
fn file_read_ignores_the_salt_bytes() {
    let key = ArgonKey { bytes: [1u8; 32], salt: [2u8; 16] };
    let bytes = ZeroByte::from_bytes(TEST_BYTES);
    let mut contents = encode_with_nonce(&bytes, &key, [3u8; 12]).expect("Write failed");
    contents[0] ^= 0xFF;
    let read = decode_encrypted_file(&contents, &key).expect("Read failed");
    assert!(read.constant_time_eq(TEST_BYTES));
}
