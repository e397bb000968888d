//! Key derivation with Argon2id and authenticated encryption with
//! AES-256-GCM. The primitives themselves are called, not verified; what is
//! verified is how keys, nonces and blobs are put together and taken apart.

use crate::errors::VaultError;
use crate::zerobyte::zeros;
use crate::zerobyte::ZeroByte;
use aes_gcm::aead::rand_core::RngCore;
use aes_gcm::aead::Aead;
use aes_gcm::aead::AeadCore;
use aes_gcm::aead::KeyInit;
use aes_gcm::Aes256Gcm;
use vstd::prelude::*;
use zeroize::Zeroize;

verus! {

/// Length of a derived key in bytes.
pub const KEY_LEN: usize = 32;

/// Length of a key-derivation salt in bytes.
pub const SALT_LEN: usize = 16;

/// Length of an encryption nonce in bytes.
pub const NONCE_LEN: usize = 12;

/// Length of the authentication tag that follows the ciphertext.
pub const TAG_LEN: usize = 16;

/// Memory cost of the key derivation, in KiB blocks.
pub const MEMORY_COST: u32 = 15000;

/// Number of passes of the key derivation.
pub const TIME_COST: u32 = 50;

/// Number of lanes of the key derivation.
pub const LANES: u32 = 2;

/// The longest plaintext, in bytes, that one encryption call takes.
pub const MAX_PLAINTEXT: u64 = 0x10_0000_0000;

#[verifier::external_type_specification]
#[verifier::external_body]
pub struct ExArgon2Error(argon2::Error);

#[verifier::external_type_specification]
#[verifier::external_body]
pub struct ExAeadError(aes_gcm::Error);

/// The 32-byte Argon2id (version 0x13) tag of a password and salt under the
/// given memory cost, pass count and lane count, or `None` where the
/// derivation refuses them.
pub uninterp spec fn argon2id_tag(
    memory_cost: int,
    time_cost: int,
    lanes: int,
    password: Seq<u8>,
    salt: Seq<u8>,
) -> Option<Seq<u8>>;

/// The AES-256-GCM ciphertext of `plaintext`, followed by its tag, under
/// `key` and `nonce` with no associated data.
pub uninterp spec fn aes256gcm_seal(key: Seq<u8>, nonce: Seq<u8>, plaintext: Seq<u8>) -> Seq<u8>;

/// What AES-256-GCM decryption of `sealed` gives under `key` and `nonce`
/// with no associated data: the plaintext, or `None` where the tag does not
/// verify.
pub uninterp spec fn aes256gcm_open(key: Seq<u8>, nonce: Seq<u8>, sealed: Seq<u8>) -> Option<
    Seq<u8>,
>;

/// `sealed` is what encryption of `plaintext` gives: ciphertext of the
/// plaintext's length, then the tag; decryption under the same key and
/// nonce gives the plaintext back.
pub open spec fn seals(key: Seq<u8>, nonce: Seq<u8>, plaintext: Seq<u8>, sealed: Seq<u8>) -> bool {
    &&& sealed == aes256gcm_seal(key, nonce, plaintext)
    &&& sealed.len() == plaintext.len() + TAG_LEN
    &&& aes256gcm_open(key, nonce, sealed) == Some(plaintext)
}

/// `Params::new`, `Argon2::new` with Argon2id and version 0x13, and
/// `Argon2::hash_password_into` with a 32-byte output: the tag on success,
/// the crate's error where the parameters or inputs are refused. The
/// outcome depends on the arguments alone.
#[verifier::external_body]
fn argon2id_hash(
    password: &[u8],
    salt: &[u8; 16],
    memory_cost: u32,
    time_cost: u32,
    lanes: u32,
) -> (outcome: Result<[u8; 32], argon2::Error>)
    requires
        lanes * 8 <= u32::MAX,
    ensures
        match outcome {
            Ok(tag) => argon2id_tag(
                memory_cost as int,
                time_cost as int,
                lanes as int,
                password@,
                salt@,
            ) == Some(tag@),
            Err(_) => argon2id_tag(
                memory_cost as int,
                time_cost as int,
                lanes as int,
                password@,
                salt@,
            ) is None,
        },
{
    let params = argon2::Params::new(memory_cost, time_cost, lanes, None)?;
    let hasher = argon2::Argon2::new(argon2::Algorithm::Argon2id, argon2::Version::V0x13, params);
    let mut tag = [0u8; 32];
    hasher.hash_password_into(password, salt, &mut tag)?;
    Ok(tag)
}

/// `RngCore::fill_bytes` of the operating system's generator on a 16-byte
/// array. Nothing is promised of the bytes.
#[verifier::external_body]
fn random_salt() -> (salt: [u8; 16]) {
    let mut salt = [0u8; 16];
    argon2::password_hash::rand_core::OsRng.fill_bytes(&mut salt);
    salt
}

/// `AeadCore::generate_nonce` of AES-256-GCM with the operating system's
/// generator. Nothing is promised of the bytes.
#[verifier::external_body]
fn random_nonce() -> (nonce: [u8; 12]) {
    Aes256Gcm::generate_nonce(&mut aes_gcm::aead::OsRng).into()
}

/// `Aead::encrypt` of AES-256-GCM: fails exactly on a plaintext longer than
/// 2^36 bytes, and otherwise returns the ciphertext with the 16-byte tag
/// appended, which decrypts to the plaintext again.
#[verifier::external_body]
fn aead_encrypt(key: &[u8; 32], nonce: &[u8; 12], plaintext: &[u8]) -> (outcome: Result<
    Vec<u8>,
    aes_gcm::Error,
>)
    ensures
        outcome is Ok <==> plaintext@.len() <= MAX_PLAINTEXT,
        outcome matches Ok(sealed) ==> sealed@ == aes256gcm_seal(key@, nonce@, plaintext@),
        outcome matches Ok(sealed) ==> sealed@.len() == plaintext@.len() + TAG_LEN,
        outcome matches Ok(sealed) ==> aes256gcm_open(key@, nonce@, sealed@) == Some(plaintext@),
{
    let cipher = Aes256Gcm::new(aes_gcm::Key::<Aes256Gcm>::from_slice(key));
    cipher.encrypt(aes_gcm::Nonce::from_slice(nonce), plaintext)
}

/// `Aead::decrypt` of AES-256-GCM: the plaintext where the tag verifies,
/// the crate's error where it does not.
#[verifier::external_body]
fn aead_decrypt(key: &[u8; 32], nonce: &[u8], sealed: &[u8]) -> (outcome: Result<
    Vec<u8>,
    aes_gcm::Error,
>)
    requires
        nonce@.len() == NONCE_LEN,
    ensures
        match outcome {
            Ok(plaintext) => aes256gcm_open(key@, nonce@, sealed@) == Some(plaintext@),
            Err(_) => aes256gcm_open(key@, nonce@, sealed@) is None,
        },
{
    let cipher = Aes256Gcm::new(aes_gcm::Key::<Aes256Gcm>::from_slice(key));
    cipher.decrypt(aes_gcm::Nonce::from_slice(nonce), sealed)
}

/// `Zeroize::zeroize` on a byte array: every byte is overwritten with zero.
#[verifier::external_body]
fn wipe_array<const N: usize>(bytes: &mut [u8; N])
    ensures
        final(bytes)@ == zeros(N as nat),
    opens_invariants none
    no_unwind
{
    bytes.zeroize();
}

/// A derived key together with the salt it was derived with. Only the salt
/// is ever stored.
pub struct ArgonKey {
    pub bytes: [u8; 32],
    pub salt: [u8; 16],
}

impl ArgonKey {
    /// Overwrite key and salt with zero.
    pub fn wipe(&mut self)
        ensures
            final(self).bytes@ == zeros(KEY_LEN as nat),
            final(self).salt@ == zeros(SALT_LEN as nat),
    {
        wipe_array(&mut self.bytes);
        wipe_array(&mut self.salt);
    }
}

impl Drop for ArgonKey {
    /// Zero the key material before it is released.
    fn drop(&mut self)
        opens_invariants none
        no_unwind
    {
        wipe_array(&mut self.bytes);
        wipe_array(&mut self.salt);
    }
}

impl Clone for ArgonKey {
    fn clone(&self) -> (copy: Self)
        ensures
            copy.bytes == self.bytes,
            copy.salt == self.salt,
    {
        ArgonKey { bytes: self.bytes, salt: self.salt }
    }
}

/// The most lanes that a key derivation is tried with.
pub const MAX_LANES: u32 = 0x00FF_FFFF;

/// `hashed` is what the Argon2id call gives for `password` and `salt` under
/// the given cost parameters.
pub open spec fn hashes(
    memory_cost: u32,
    time_cost: u32,
    lanes: u32,
    password: Seq<u8>,
    salt: Seq<u8>,
    hashed: Result<[u8; 32], argon2::Error>,
) -> bool {
    match hashed {
        Ok(tag) => argon2id_tag(memory_cost as int, time_cost as int, lanes as int, password, salt)
            == Some(tag@),
        Err(_) => argon2id_tag(memory_cost as int, time_cost as int, lanes as int, password, salt)
            is None,
    }
}

/// `outcome` is what deriving a key from `password` with `salt` gives under
/// the given cost parameters: the Argon2id tag as the key, beside the salt,
/// or a derivation failure where there are too many lanes or Argon2id
/// refuses.
pub open spec fn derives_with(
    memory_cost: u32,
    time_cost: u32,
    lanes: u32,
    password: Seq<u8>,
    salt: Seq<u8>,
    outcome: Result<ArgonKey, VaultError>,
) -> bool {
    if lanes > MAX_LANES {
        outcome matches Err(e) && e == VaultError::Derivation
    } else {
        match argon2id_tag(memory_cost as int, time_cost as int, lanes as int, password, salt) {
            Some(tag) => outcome matches Ok(key) && key.bytes@ == tag && key.salt@ == salt,
            None => outcome matches Err(e) && e == VaultError::Derivation,
        }
    }
}

/// `outcome` is what deriving a key from `password` with `salt` gives under
/// the fixed cost parameters.
pub open spec fn derives(password: Seq<u8>, salt: Seq<u8>, outcome: Result<ArgonKey, VaultError>) -> bool {
    derives_with(MEMORY_COST, TIME_COST, LANES, password, salt, outcome)
}

/// `blob` is `plaintext` encrypted under `key` with `nonce`: the nonce,
/// then the ciphertext with its tag.
pub open spec fn encrypts(key: Seq<u8>, nonce: Seq<u8>, plaintext: Seq<u8>, blob: Seq<u8>) -> bool {
    &&& nonce.len() == NONCE_LEN
    &&& blob.len() >= NONCE_LEN
    &&& blob.subrange(0, NONCE_LEN as int) == nonce
    &&& seals(key, nonce, plaintext, blob.subrange(NONCE_LEN as int, blob.len() as int))
}

/// `outcome` is what encrypting `plaintext` under `key` with `nonce` gives:
/// the blob, or a refusal where the plaintext is too long.
pub open spec fn encrypted_as(
    key: Seq<u8>,
    nonce: Seq<u8>,
    plaintext: Seq<u8>,
    outcome: Result<ZeroByte, VaultError>,
) -> bool {
    if plaintext.len() <= MAX_PLAINTEXT {
        outcome matches Ok(blob) && encrypts(key, nonce, plaintext, blob@)
    } else {
        outcome matches Err(e) && e == VaultError::TooLarge
    }
}

/// What decrypting `blob` under `key` gives: a blob too short for a nonce
/// is no blob at all; otherwise the first twelve bytes are the nonce and
/// the rest is opened under it.
pub open spec fn decrypts(key: Seq<u8>, blob: Seq<u8>) -> Result<Seq<u8>, VaultError> {
    if blob.len() < NONCE_LEN {
        Err(VaultError::Format)
    } else {
        match aes256gcm_open(
            key,
            blob.subrange(0, NONCE_LEN as int),
            blob.subrange(NONCE_LEN as int, blob.len() as int),
        ) {
            Some(plaintext) => Ok(plaintext),
            None => Err(VaultError::Authentication),
        }
    }
}

/// Whether `outcome`, seen through its view, is `expected`.
pub open spec fn gives(outcome: Result<ZeroByte, VaultError>, expected: Result<Seq<u8>, VaultError>) -> bool {
    match outcome {
        Ok(buf) => expected == Ok::<Seq<u8>, VaultError>(buf@),
        Err(e) => expected == Err::<Seq<u8>, VaultError>(e),
    }
}

pub struct Crypto {}

impl Crypto {
    /// Turn what the Argon2id call returned into a key or a failure.
    pub fn key_from_hash(hashed: Result<[u8; 32], argon2::Error>, salt: [u8; 16]) -> (outcome: Result<
        ArgonKey,
        VaultError,
    >)
        ensures
            match hashed {
                Ok(tag) => outcome matches Ok(key) && key.bytes == tag && key.salt == salt,
                Err(_) => outcome matches Err(e) && e == VaultError::Derivation,
            },
    {
        match hashed {
            Ok(tag) => Ok(ArgonKey { bytes: tag, salt }),
            Err(_) => Err(VaultError::Derivation),
        }
    }

    /// Derive a key from a passphrase under the given cost parameters: the
    /// memory in KiB blocks, the number of passes and the number of lanes.
    /// With a salt the key is a function of passphrase, salt and costs;
    /// without one a fresh random salt is drawn and returned beside the
    /// key. Costs that Argon2id does not accept are a derivation failure.
    pub fn derive_with_costs(
        bytes: &ZeroByte,
        salt: Option<[u8; 16]>,
        memory_cost: u32,
        time_cost: u32,
        lanes: u32,
    ) -> (outcome: Result<ArgonKey, VaultError>)
        ensures
            match salt {
                Some(given) => derives_with(
                    memory_cost,
                    time_cost,
                    lanes,
                    bytes@,
                    given@,
                    outcome,
                ),
                None => exists|drawn: [u8; 16]|
                    derives_with(memory_cost, time_cost, lanes, bytes@, drawn@, outcome),
            },
    {
        let salt_bytes = match salt {
            Some(given) => given,
            None => random_salt(),
        };
        if lanes > MAX_LANES {
            let outcome = Err(VaultError::Derivation);
            assert(derives_with(memory_cost, time_cost, lanes, bytes@, salt_bytes@, outcome));
            return outcome;
        }
        let hash = |password: &[u8]| -> (hashed: Result<[u8; 32], argon2::Error>)
            ensures
                hashes(memory_cost, time_cost, lanes, password@, salt_bytes@, hashed),
            {
                argon2id_hash(password, &salt_bytes, memory_cost, time_cost, lanes)
            };
        let hashed = bytes.with_bytes(hash);
        let outcome = Self::key_from_hash(hashed, salt_bytes);
        assert(derives_with(memory_cost, time_cost, lanes, bytes@, salt_bytes@, outcome));
        outcome
    }

    /// Derive a key from a passphrase under the fixed cost parameters.
    pub fn derive_argon_key(bytes: &ZeroByte, salt: Option<[u8; 16]>) -> (outcome: Result<
        ArgonKey,
        VaultError,
    >)
        ensures
            match salt {
                Some(given) => derives(bytes@, given@, outcome),
                None => exists|drawn: [u8; 16]| derives(bytes@, drawn@, outcome),
            },
    {
        let outcome = Self::derive_with_costs(bytes, salt, MEMORY_COST, TIME_COST, LANES);
        proof {
            if salt is None {
                let drawn = choose|drawn: [u8; 16]|
                    derives_with(MEMORY_COST, TIME_COST, LANES, bytes@, drawn@, outcome);
                assert(derives(bytes@, drawn@, outcome));
            }
        }
        outcome
    }

    /// Encrypt under a given nonce: the nonce, then ciphertext and tag.
    pub fn encrypt_with_nonce(bytes: &ZeroByte, key: &ArgonKey, nonce: [u8; 12]) -> (outcome: Result<
        ZeroByte,
        VaultError,
    >)
        ensures
            encrypted_as(key.bytes@, nonce@, bytes@, outcome),
    {
        let seal = |plaintext: &[u8]| -> (sealed: Result<Vec<u8>, aes_gcm::Error>)
            ensures
                (sealed is Ok) == (plaintext@.len() <= MAX_PLAINTEXT),
                sealed matches Ok(s) ==> seals(key.bytes@, nonce@, plaintext@, s@),
            {
                aead_encrypt(&key.bytes, &nonce, plaintext)
            };
        let sealed = bytes.with_bytes(seal);
        match sealed {
            Ok(sealed) => {
                let mut blob = ZeroByte::from_bytes(nonce.as_slice());
                blob.extend_from_slice(sealed.as_slice());
                proof {
                    assert(blob@.subrange(0, NONCE_LEN as int) =~= nonce@);
                    assert(blob@.subrange(NONCE_LEN as int, blob@.len() as int) =~= sealed@);
                }
                Ok(blob)
            },
            Err(_) => Err(VaultError::TooLarge),
        }
    }

    /// Encrypt under a fresh random nonce.
    pub fn aes_gcm_encrypt(bytes: &ZeroByte, key: &ArgonKey) -> (outcome: Result<ZeroByte, VaultError>)
        ensures
            exists|nonce: Seq<u8>| encrypted_as(key.bytes@, nonce, bytes@, outcome),
    {
        let nonce = random_nonce();
        let outcome = Self::encrypt_with_nonce(bytes, key, nonce);
        proof {
            assert(encrypted_as(key.bytes@, nonce@, bytes@, outcome));
        }
        outcome
    }

    /// Decrypt a blob of nonce, ciphertext and tag. Nothing of the
    /// plaintext is returned unless the tag verifies.
    pub fn aes_gcm_decrypt(bytes: &ZeroByte, key: &ArgonKey) -> (outcome: Result<ZeroByte, VaultError>)
        ensures
            gives(outcome, decrypts(key.bytes@, bytes@)),
    {
        if bytes.len() < NONCE_LEN {
            return Err(VaultError::Format);
        }
        let (nonce_bytes, cipherbytes) = bytes.secure_split_at(NONCE_LEN);
        let nonce = nonce_bytes.into_vec();
        let sealed = cipherbytes.into_vec();
        match aead_decrypt(&key.bytes, nonce.as_slice(), sealed.as_slice()) {
            Ok(plaintext) => Ok(ZeroByte::from_vec(plaintext)),
            Err(_) => Err(VaultError::Authentication),
        }
    }
}

/// Deriving twice from one passphrase and one salt under the same costs
/// gives the same outcome: both fail, or both give the same key bytes and
/// salt.
pub proof fn derivation_is_deterministic(
    memory_cost: u32,
    time_cost: u32,
    lanes: u32,
    password: Seq<u8>,
    salt: Seq<u8>,
    first: Result<ArgonKey, VaultError>,
    second: Result<ArgonKey, VaultError>,
)
    requires
        derives_with(memory_cost, time_cost, lanes, password, salt, first),
        derives_with(memory_cost, time_cost, lanes, password, salt, second),
    ensures
        first is Ok <==> second is Ok,
        first is Err ==> first->Err_0 == second->Err_0,
        first is Ok ==> first->Ok_0.bytes@ == second->Ok_0.bytes@ && first->Ok_0.salt@
            == second->Ok_0.salt@,
{
}

/// Decrypting what encryption produced, under the same key, gives the
/// plaintext back, whatever the nonce was.
pub proof fn decrypt_inverts_encrypt(key: Seq<u8>, nonce: Seq<u8>, plaintext: Seq<u8>, blob: Seq<u8>)
    requires
        encrypts(key, nonce, plaintext, blob),
    ensures
        decrypts(key, blob) == Ok::<Seq<u8>, VaultError>(plaintext),
{
}

} // verus!
