//! The vault file layout, as a function on bytes:
//!
//! ```text
//! [0 .. 16)   salt
//! [16 .. 28)  nonce
//! [28 .. end) ciphertext, then its 16-byte tag
//! ```
//!
//! Reading and writing the file itself is left to the caller.

use crate::crypto::decrypts;
use crate::crypto::derives;
use crate::crypto::encrypts;
use crate::crypto::gives;
use crate::crypto::ArgonKey;
use crate::crypto::Crypto;
use crate::crypto::MAX_PLAINTEXT;
use crate::crypto::NONCE_LEN;
use crate::crypto::SALT_LEN;
use crate::crypto::TAG_LEN;
use crate::errors::VaultError;
use crate::zerobyte::ZeroByte;
use vstd::prelude::*;
use vstd::slice::slice_subrange;

verus! {

/// `contents` is the file that holds `plaintext` under `key`, whose salt
/// is `salt`, encrypted with `nonce`.
pub open spec fn stores(
    key: Seq<u8>,
    salt: Seq<u8>,
    nonce: Seq<u8>,
    plaintext: Seq<u8>,
    contents: Seq<u8>,
) -> bool {
    &&& salt.len() == SALT_LEN
    &&& contents.len() >= SALT_LEN
    &&& contents.subrange(0, SALT_LEN as int) == salt
    &&& encrypts(key, nonce, plaintext, contents.subrange(SALT_LEN as int, contents.len() as int))
}

/// `outcome` is what writing `plaintext` under `key` with `nonce` gives:
/// the file's bytes, or a refusal where the plaintext is too long.
pub open spec fn stored_as(
    key: ArgonKey,
    nonce: Seq<u8>,
    plaintext: Seq<u8>,
    outcome: Result<Vec<u8>, VaultError>,
) -> bool {
    if plaintext.len() <= MAX_PLAINTEXT {
        outcome matches Ok(contents) && stores(key.bytes@, key.salt@, nonce, plaintext, contents@)
    } else {
        outcome matches Err(e) && e == VaultError::TooLarge
    }
}

/// What reading `contents` under `key` gives: a file too short for a salt
/// is no vault file; otherwise what follows the salt is decrypted.
pub open spec fn loads(key: Seq<u8>, contents: Seq<u8>) -> Result<Seq<u8>, VaultError> {
    if contents.len() < SALT_LEN {
        Err(VaultError::Format)
    } else {
        decrypts(key, contents.subrange(SALT_LEN as int, contents.len() as int))
    }
}

/// The salt at the head of a vault file, or a format error where the file
/// is too short to hold one.
pub fn file_salt(contents: &[u8]) -> (outcome: Result<[u8; 16], VaultError>)
    ensures
        match outcome {
            Ok(salt) => contents@.len() >= SALT_LEN && salt@ == contents@.subrange(
                0,
                SALT_LEN as int,
            ),
            Err(e) => contents@.len() < SALT_LEN && e == VaultError::Format,
        },
{
    if contents.len() < SALT_LEN {
        return Err(VaultError::Format);
    }
    let mut salt = [0u8; 16];
    let mut i: usize = 0;
    while i < SALT_LEN
        invariant
            i <= SALT_LEN,
            contents@.len() >= SALT_LEN,
            forall|j: int| 0 <= j < i ==> salt@[j] == contents@[j],
        decreases SALT_LEN - i,
    {
        salt[i] = contents[i];
        i += 1;
    }
    assert(salt@ =~= contents@.subrange(0, SALT_LEN as int));
    Ok(salt)
}

/// Derive the key of an existing vault file from its first bytes and a
/// passphrase: the salt is the one the file was written with.
pub fn derive_file_key(contents: &[u8], password: &ZeroByte) -> (outcome: Result<
    ArgonKey,
    VaultError,
>)
    ensures
        contents@.len() < SALT_LEN ==> outcome is Err && outcome->Err_0 == VaultError::Format,
        contents@.len() >= SALT_LEN ==> derives(
            password@,
            contents@.subrange(0, SALT_LEN as int),
            outcome,
        ),
{
    match file_salt(contents) {
        Ok(salt) => Crypto::derive_argon_key(password, Some(salt)),
        Err(e) => Err(e),
    }
}

/// Put salt and blob together as they stand in the file.
pub fn frame_file(salt: &[u8; 16], blob: &ZeroByte) -> (contents: Vec<u8>)
    ensures
        contents@ == salt@ + blob@,
{
    let room = if blob.len() <= usize::MAX - SALT_LEN {
        SALT_LEN + blob.len()
    } else {
        blob.len()
    };
    let mut combined: Vec<u8> = Vec::with_capacity(room);
    combined.extend_from_slice(salt.as_slice());
    assert(combined@ =~= salt@);
    let with_blob = |blob_bytes: &[u8]| -> (all: Vec<u8>)
        ensures
            all@ == salt@ + blob_bytes@,
        {
            let mut all = combined;
            all.extend_from_slice(blob_bytes);
            assert(all@ =~= salt@ + blob_bytes@);
            all
        };
    blob.with_bytes(with_blob)
}

/// The bytes of the file that stores `bytes` under `key`, encrypted with
/// the given nonce.
pub fn encode_with_nonce(bytes: &ZeroByte, key: &ArgonKey, nonce: [u8; 12]) -> (outcome: Result<
    Vec<u8>,
    VaultError,
>)
    ensures
        stored_as(*key, nonce@, bytes@, outcome),
{
    match Crypto::encrypt_with_nonce(bytes, key, nonce) {
        Ok(blob) => {
            let contents = frame_file(&key.salt, &blob);
            proof {
                assert(contents@.subrange(0, SALT_LEN as int) =~= key.salt@);
                assert(contents@.subrange(SALT_LEN as int, contents@.len() as int) =~= blob@);
            }
            Ok(contents)
        },
        Err(e) => Err(e),
    }
}

/// The bytes of the file that stores `bytes` under `key`, encrypted with a
/// fresh random nonce.
pub fn encode_encrypted_file(bytes: &ZeroByte, key: &ArgonKey) -> (outcome: Result<
    Vec<u8>,
    VaultError,
>)
    ensures
        exists|nonce: Seq<u8>| stored_as(*key, nonce, bytes@, outcome),
{
    match Crypto::aes_gcm_encrypt(bytes, key) {
        Ok(blob) => {
            let contents = frame_file(&key.salt, &blob);
            let outcome = Ok(contents);
            proof {
                let nonce = choose|nonce: Seq<u8>|
                    crate::crypto::encrypted_as(key.bytes@, nonce, bytes@, Ok(blob));
                assert(contents@.subrange(0, SALT_LEN as int) =~= key.salt@);
                assert(contents@.subrange(SALT_LEN as int, contents@.len() as int) =~= blob@);
                assert(stored_as(*key, nonce, bytes@, outcome));
            }
            outcome
        },
        Err(e) => {
            let outcome = Err(e);
            proof {
                let nonce = choose|nonce: Seq<u8>|
                    crate::crypto::encrypted_as(key.bytes@, nonce, bytes@, Err(e));
                assert(stored_as(*key, nonce, bytes@, outcome));
            }
            outcome
        },
    }
}

/// Decrypt the contents of a vault file under `key`. The salt at the head
/// is skipped: the caller already holds the key.
pub fn decode_encrypted_file(contents: &[u8], key: &ArgonKey) -> (outcome: Result<
    ZeroByte,
    VaultError,
>)
    ensures
        gives(outcome, loads(key.bytes@, contents@)),
{
    if contents.len() < SALT_LEN {
        return Err(VaultError::Format);
    }
    let encrypted_data = ZeroByte::from_bytes(slice_subrange(contents, SALT_LEN, contents.len()));
    Crypto::aes_gcm_decrypt(&encrypted_data, key)
}

/// A file too short to hold a salt and a nonce is malformed, whatever the
/// key.
pub proof fn short_file_is_refused(key: Seq<u8>, contents: Seq<u8>)
    requires
        contents.len() < SALT_LEN + NONCE_LEN,
    ensures
        loads(key, contents) == Err::<Seq<u8>, VaultError>(VaultError::Format),
{
}

/// A file read back under the key it was written with gives the plaintext
/// that was written, and its first sixteen bytes are the key's salt.
pub proof fn read_inverts_write(
    key: Seq<u8>,
    salt: Seq<u8>,
    nonce: Seq<u8>,
    plaintext: Seq<u8>,
    contents: Seq<u8>,
)
    requires
        stores(key, salt, nonce, plaintext, contents),
    ensures
        loads(key, contents) == Ok::<Seq<u8>, VaultError>(plaintext),
        contents.subrange(0, SALT_LEN as int) == salt,
        contents.len() == SALT_LEN + NONCE_LEN + plaintext.len() + TAG_LEN,
{
}

/// Writing under a key derived from a passphrase, then deriving the key
/// again from the file and the same passphrase, gives a key that reads the
/// plaintext back.
pub proof fn passphrase_reopens_file(
    password: Seq<u8>,
    written_with: ArgonKey,
    nonce: Seq<u8>,
    plaintext: Seq<u8>,
    contents: Seq<u8>,
    rederived: Result<ArgonKey, VaultError>,
)
    requires
        derives(password, written_with.salt@, Ok(written_with)),
        stores(written_with.bytes@, written_with.salt@, nonce, plaintext, contents),
        derives(password, contents.subrange(0, SALT_LEN as int), rederived),
    ensures
        rederived is Ok,
        rederived->Ok_0.bytes@ == written_with.bytes@,
        loads(rederived->Ok_0.bytes@, contents) == Ok::<Seq<u8>, VaultError>(plaintext),
{
}

} // verus!
