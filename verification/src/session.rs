//! The vault session: at most one vault is open at a time. Creating and
//! unlocking take a locked session to an unlocked one, every change works
//! on the open vault, and closing zeroes it. The session computes the bytes
//! of the vault file; reading and writing the file is left to the caller.

use crate::crypto::argon2id_tag;
use crate::crypto::derives;
use crate::crypto::ArgonKey;
use crate::crypto::Crypto;
use crate::crypto::LANES;
use crate::crypto::MAX_PLAINTEXT;
use crate::crypto::MEMORY_COST;
use crate::crypto::SALT_LEN;
use crate::crypto::TIME_COST;
use crate::errors::VaultError;
use crate::file::decode_encrypted_file;
use crate::file::derive_file_key;
use crate::file::encode_encrypted_file;
use crate::file::loads;
use crate::file::stored_as;
use crate::file::stores;
use crate::vault::decoded;
use crate::vault::encoded;
use crate::vault::ItemText;
use crate::vault::ItemView;
use crate::vault::Vault;
use crate::vault::VaultView;
use crate::zerobyte::utf8_lossy_text;
use crate::zerobyte::ZeroByte;
use vstd::prelude::*;

verus! {

/// `outcome` is what creating a vault under a key gives when `nonce` is
/// drawn: a new vault with the key attached, beside the bytes of its file,
/// or the first failure on the way.
pub open spec fn creates_under(
    key: Seq<u8>,
    salt: Seq<u8>,
    nonce: Seq<u8>,
    outcome: Result<(Vault, Vec<u8>), VaultError>,
) -> bool {
    match encoded(VaultView::fresh()) {
        Err(e) => outcome matches Err(f) && f == e,
        Ok(plain) => if plain.len() > MAX_PLAINTEXT {
            outcome matches Err(f) && f == VaultError::TooLarge
        } else {
            &&& outcome matches Ok(made)
            &&& made.0@ == VaultView::fresh()
            &&& made.0.key matches Some(attached)
            &&& attached.bytes@ == key
            &&& attached.salt@ == salt
            &&& stores(key, salt, nonce, plain, made.1@)
        },
    }
}

/// `outcome` is what creating a vault under `password` gives when `salt`
/// and `nonce` are drawn: a derivation failure, or what creating under the
/// derived key gives.
pub open spec fn creates(
    password: Seq<u8>,
    salt: Seq<u8>,
    nonce: Seq<u8>,
    outcome: Result<(Vault, Vec<u8>), VaultError>,
) -> bool {
    match argon2id_tag(MEMORY_COST as int, TIME_COST as int, LANES as int, password, salt) {
        None => outcome matches Err(f) && f == VaultError::Derivation,
        Some(tag) => creates_under(tag, salt, nonce, outcome),
    }
}

/// What opening the file `contents` under `key` gives: the vault it holds,
/// or the first failure on the way. A file too short for salt and nonce is
/// malformed; a key that does not open the file fails authentication; a
/// payload that does not decode is malformed.
pub open spec fn opens(contents: Seq<u8>, key: Seq<u8>) -> Result<VaultView, VaultError> {
    match loads(key, contents) {
        Err(e) => Err(e),
        Ok(plain) => decoded(plain),
    }
}

/// `outcome` is what opening under `key` gives, the key attached to the
/// vault.
pub open spec fn opens_as(contents: Seq<u8>, key: ArgonKey, outcome: Result<Vault, VaultError>) -> bool {
    match outcome {
        Ok(vault) => vault.key == Some(key) && opens(contents, key.bytes@) == Ok::<
            VaultView,
            VaultError,
        >(vault@),
        Err(e) => opens(contents, key.bytes@) == Err::<VaultView, VaultError>(e),
    }
}

/// What unlocking the file `contents` with `password` gives: the vault it
/// holds, beside the key and the salt, or the first failure on the way. A
/// file too short for a salt is malformed; otherwise the key is derived
/// from the password and the file's salt, and the file is opened under it.
pub open spec fn unlocks(contents: Seq<u8>, password: Seq<u8>) -> Result<
    (VaultView, Seq<u8>, Seq<u8>),
    VaultError,
> {
    if contents.len() < SALT_LEN {
        Err(VaultError::Format)
    } else {
        let salt = contents.subrange(0, SALT_LEN as int);
        match argon2id_tag(MEMORY_COST as int, TIME_COST as int, LANES as int, password, salt) {
            None => Err(VaultError::Derivation),
            Some(tag) => match opens(contents, tag) {
                Err(e) => Err(e),
                Ok(vault) => Ok((vault, tag, salt)),
            },
        }
    }
}

/// `outcome` is what unlocking gives, the key attached to the vault.
pub open spec fn unlocks_as(
    contents: Seq<u8>,
    password: Seq<u8>,
    outcome: Result<Vault, VaultError>,
) -> bool {
    match outcome {
        Ok(vault) => vault.key matches Some(key) && unlocks(contents, password) == Ok::<
            (VaultView, Seq<u8>, Seq<u8>),
            VaultError,
        >((vault@, key.bytes@, key.salt@)),
        Err(e) => unlocks(contents, password) == Err::<(VaultView, Seq<u8>, Seq<u8>), VaultError>(e),
    }
}

/// `outcome` is what saving `vault` gives when `nonce` is drawn: the bytes
/// of the file that stores its encoding under its key.
pub open spec fn saves(vault: Vault, nonce: Seq<u8>, outcome: Result<Vec<u8>, VaultError>) -> bool {
    match encoded(vault@) {
        Err(e) => outcome matches Err(f) && f == e,
        Ok(plain) => match vault.key {
            None => outcome matches Err(f) && f == VaultError::WrongState,
            Some(key) => stored_as(key, nonce, plain, outcome),
        },
    }
}

/// Build a new vault with one placeholder record, attach `key`, and
/// compute the bytes of its file.
pub fn new_vault(key: ArgonKey) -> (outcome: Result<(Vault, Vec<u8>), VaultError>)
    ensures
        exists|nonce: Seq<u8>| creates_under(key.bytes@, key.salt@, nonce, outcome),
{
    let mut vault = Vault::new();
    let encoded_vault = match vault.encode() {
        Ok(bytes) => bytes,
        Err(e) => {
            let outcome = Err(e);
            assert(creates_under(key.bytes@, key.salt@, Seq::empty(), outcome));
            return outcome;
        },
    };
    match encode_encrypted_file(&encoded_vault, &key) {
        Ok(contents) => {
            let ghost nonce = choose|nonce: Seq<u8>|
                stored_as(key, nonce, encoded_vault@, Ok(contents));
            vault.key = Some(key);
            let outcome = Ok((vault, contents));
            assert(creates_under(key.bytes@, key.salt@, nonce, outcome));
            outcome
        },
        Err(e) => {
            let ghost nonce = choose|nonce: Seq<u8>| stored_as(key, nonce, encoded_vault@, Err(e));
            let outcome = Err(e);
            assert(creates_under(key.bytes@, key.salt@, nonce, outcome));
            outcome
        },
    }
}

/// Derive a key for a new vault under a fresh salt, build the vault, and
/// compute the bytes of its file.
pub fn create_vault(password: &ZeroByte) -> (outcome: Result<(Vault, Vec<u8>), VaultError>)
    ensures
        exists|salt: Seq<u8>, nonce: Seq<u8>| creates(password@, salt, nonce, outcome),
{
    match Crypto::derive_argon_key(password, None) {
        Ok(key) => {
            let ghost drawn = choose|drawn: [u8; 16]| derives(password@, drawn@, Ok(key));
            let ghost salt = key.salt@;
            let ghost tag = key.bytes@;
            assert(drawn@ == salt);
            let outcome = new_vault(key);
            proof {
                let nonce = choose|nonce: Seq<u8>| creates_under(tag, salt, nonce, outcome);
                assert(creates(password@, salt, nonce, outcome));
            }
            outcome
        },
        Err(e) => {
            let ghost drawn = choose|drawn: [u8; 16]| derives(password@, drawn@, Err(e));
            let outcome = Err(e);
            assert(creates(password@, drawn@, Seq::empty(), outcome));
            outcome
        },
    }
}

/// Open a vault file under a key that the caller holds: decrypt, decode,
/// and attach the key.
pub fn open_vault(contents: &[u8], key: ArgonKey) -> (outcome: Result<Vault, VaultError>)
    ensures
        opens_as(contents@, key, outcome),
{
    let bytes = match decode_encrypted_file(contents, &key) {
        Ok(bytes) => bytes,
        Err(e) => {
            return Err(e);
        },
    };
    match Vault::decode(&bytes) {
        Ok(vault) => {
            let mut vault = vault;
            vault.key = Some(key);
            Ok(vault)
        },
        Err(e) => Err(e),
    }
}

/// Open an existing vault file: derive the key from the passphrase and the
/// file's salt, then open the file under it.
pub fn unlock_vault(contents: &[u8], password: &ZeroByte) -> (outcome: Result<Vault, VaultError>)
    ensures
        unlocks_as(contents@, password@, outcome),
{
    match derive_file_key(contents, password) {
        Ok(key) => open_vault(contents, key),
        Err(e) => Err(e),
    }
}

/// Compute the bytes of the file that stores the vault as it is now: the
/// encoding without the key, encrypted under the key.
pub fn save_vault_state(vault: &Vault) -> (outcome: Result<Vec<u8>, VaultError>)
    ensures
        exists|nonce: Seq<u8>| saves(*vault, nonce, outcome),
{
    let encoded_vault = match vault.encode() {
        Ok(bytes) => bytes,
        Err(e) => {
            let outcome = Err(e);
            assert(saves(*vault, Seq::empty(), outcome));
            return outcome;
        },
    };
    match &vault.key {
        Some(key) => {
            let outcome = encode_encrypted_file(&encoded_vault, key);
            proof {
                let nonce = choose|nonce: Seq<u8>| stored_as(*key, nonce, encoded_vault@, outcome);
                assert(saves(*vault, nonce, outcome));
            }
            outcome
        },
        None => {
            let outcome = Err(VaultError::WrongState);
            assert(saves(*vault, Seq::empty(), outcome));
            outcome
        },
    }
}

/// The state of the engine: locked, with no vault in memory, or unlocked,
/// holding exactly one vault with its key attached.
pub struct VaultSession {
    vault: Option<Vault>,
}

impl VaultSession {
    /// Whether a vault is open.
    pub closed spec fn is_unlocked(&self) -> bool {
        self.vault is Some
    }

    /// The open vault.
    pub closed spec fn vault(&self) -> Vault
        recommends
            self.is_unlocked(),
    {
        self.vault->0
    }

    /// The session's invariant: an unlocked session holds a vault that
    /// has its key.
    pub closed spec fn well_formed(&self) -> bool {
        self.vault matches Some(vault) ==> vault.key is Some
    }

    /// This session is what creating a vault under `password` leaves, and
    /// `outcome` what it returns, when `salt` and `nonce` are drawn:
    /// unlocked with the new vault and the bytes of its file, or locked
    /// with the failure.
    pub open spec fn created_as(
        &self,
        password: Seq<u8>,
        salt: Seq<u8>,
        nonce: Seq<u8>,
        outcome: Result<Vec<u8>, VaultError>,
    ) -> bool {
        match outcome {
            Ok(contents) => self.is_unlocked() && creates(
                password,
                salt,
                nonce,
                Ok((self.vault(), contents)),
            ),
            Err(e) => !self.is_unlocked() && creates(password, salt, nonce, Err(e)),
        }
    }

    /// A locked session.
    pub fn new() -> (session: Self)
        ensures
            !session.is_unlocked(),
            session.well_formed(),
    {
        VaultSession { vault: None }
    }

    /// Whether a vault is open.
    pub fn is_open(&self) -> (open: bool)
        ensures
            open == self.is_unlocked(),
    {
        self.vault.is_some()
    }

    /// This session is what creating a vault under `key` leaves, and
    /// `outcome` what it returns, when `nonce` is drawn.
    pub open spec fn created_under(
        &self,
        key: ArgonKey,
        nonce: Seq<u8>,
        outcome: Result<Vec<u8>, VaultError>,
    ) -> bool {
        match outcome {
            Ok(contents) => self.is_unlocked() && creates_under(
                key.bytes@,
                key.salt@,
                nonce,
                Ok((self.vault(), contents)),
            ),
            Err(e) => !self.is_unlocked() && creates_under(key.bytes@, key.salt@, nonce, Err(e)),
        }
    }

    /// Take in a vault that was created or opened.
    fn hold(&mut self, vault: Vault)
        requires
            !old(self).is_unlocked(),
            vault.key is Some,
        ensures
            final(self).is_unlocked(),
            final(self).vault() == vault,
            final(self).well_formed(),
    {
        self.vault = Some(vault);
    }

    /// Create a new vault under a key that the caller holds and hold it
    /// unlocked. Returns the bytes to write to the vault's file. A session
    /// that already holds a vault refuses and keeps it.
    pub fn create_with_key(&mut self, key: ArgonKey) -> (outcome: Result<Vec<u8>, VaultError>)
        requires
            old(self).well_formed(),
        ensures
            final(self).well_formed(),
            old(self).is_unlocked() ==> *final(self) == *old(self) && outcome is Err
                && outcome->Err_0 == VaultError::WrongState,
            !old(self).is_unlocked() ==> exists|nonce: Seq<u8>|
                final(self).created_under(key, nonce, outcome),
    {
        if self.vault.is_some() {
            return Err(VaultError::WrongState);
        }
        match new_vault(key) {
            Ok(made) => {
                let (vault, contents) = made;
                let ghost nonce = choose|nonce: Seq<u8>|
                    creates_under(key.bytes@, key.salt@, nonce, Ok((vault, contents)));
                self.hold(vault);
                let outcome = Ok(contents);
                assert(self.created_under(key, nonce, outcome));
                outcome
            },
            Err(e) => {
                let ghost nonce = choose|nonce: Seq<u8>|
                    creates_under(key.bytes@, key.salt@, nonce, Err(e));
                let outcome = Err(e);
                assert(self.created_under(key, nonce, outcome));
                outcome
            },
        }
    }

    /// Open the vault whose file holds `contents` under a key that the
    /// caller holds. On failure the session stays locked. A session that
    /// already holds a vault refuses and keeps it.
    pub fn unlock_with_key(&mut self, contents: &[u8], key: ArgonKey) -> (outcome: Result<
        (),
        VaultError,
    >)
        requires
            old(self).well_formed(),
        ensures
            final(self).well_formed(),
            old(self).is_unlocked() ==> *final(self) == *old(self) && outcome is Err
                && outcome->Err_0 == VaultError::WrongState,
            !old(self).is_unlocked() ==> match outcome {
                Ok(_) => final(self).is_unlocked() && opens_as(
                    contents@,
                    key,
                    Ok(final(self).vault()),
                ),
                Err(e) => !final(self).is_unlocked() && opens_as(contents@, key, Err(e)),
            },
    {
        if self.vault.is_some() {
            return Err(VaultError::WrongState);
        }
        match open_vault(contents, key) {
            Ok(vault) => {
                self.hold(vault);
                Ok(())
            },
            Err(e) => Err(e),
        }
    }

    /// Create a new vault under `password` and hold it unlocked. Returns
    /// the bytes to write to the vault's file. A session that already
    /// holds a vault refuses and keeps it.
    pub fn create(&mut self, password: &ZeroByte) -> (outcome: Result<Vec<u8>, VaultError>)
        requires
            old(self).well_formed(),
        ensures
            final(self).well_formed(),
            old(self).is_unlocked() ==> *final(self) == *old(self) && outcome is Err
                && outcome->Err_0 == VaultError::WrongState,
            !old(self).is_unlocked() ==> exists|salt: Seq<u8>, nonce: Seq<u8>|
                final(self).created_as(password@, salt, nonce, outcome),
    {
        if self.vault.is_some() {
            return Err(VaultError::WrongState);
        }
        match create_vault(password) {
            Ok(made) => {
                let (vault, contents) = made;
                let ghost (salt, nonce) = choose|salt: Seq<u8>, nonce: Seq<u8>|
                    creates(password@, salt, nonce, Ok((vault, contents)));
                self.vault = Some(vault);
                let outcome = Ok(contents);
                assert(self.created_as(password@, salt, nonce, outcome));
                outcome
            },
            Err(e) => {
                let ghost (salt, nonce) = choose|salt: Seq<u8>, nonce: Seq<u8>|
                    creates(password@, salt, nonce, Err(e));
                let outcome = Err(e);
                assert(self.created_as(password@, salt, nonce, outcome));
                outcome
            },
        }
    }

    /// Unlock the vault whose file holds `contents`. On failure the
    /// session stays locked. A session that already holds a vault refuses
    /// and keeps it.
    pub fn unlock(&mut self, contents: &[u8], password: &ZeroByte) -> (outcome: Result<
        (),
        VaultError,
    >)
        requires
            old(self).well_formed(),
        ensures
            final(self).well_formed(),
            old(self).is_unlocked() ==> *final(self) == *old(self) && outcome is Err
                && outcome->Err_0 == VaultError::WrongState,
            !old(self).is_unlocked() ==> match outcome {
                Ok(_) => final(self).is_unlocked() && unlocks_as(
                    contents@,
                    password@,
                    Ok(final(self).vault()),
                ),
                Err(e) => !final(self).is_unlocked() && unlocks_as(contents@, password@, Err(e)),
            },
    {
        if self.vault.is_some() {
            return Err(VaultError::WrongState);
        }
        match unlock_vault(contents, password) {
            Ok(vault) => {
                self.vault = Some(vault);
                Ok(())
            },
            Err(e) => Err(e),
        }
    }

    /// Add a blank record to the open vault and return its id.
    pub fn add_item(&mut self) -> (outcome: Result<i32, VaultError>)
        requires
            old(self).well_formed(),
        ensures
            final(self).well_formed(),
            final(self).is_unlocked() == old(self).is_unlocked(),
            !old(self).is_unlocked() ==> outcome is Err && outcome->Err_0 == VaultError::WrongState,
            old(self).is_unlocked() ==> {
                &&& final(self).vault()@ == old(self).vault()@.added()
                &&& final(self).vault().key == old(self).vault().key
                &&& match outcome {
                    Ok(id) => old(self).vault()@.has_room() && id == old(self).vault()@.nonce,
                    Err(e) => !old(self).vault()@.has_room() && e == VaultError::IdsExhausted,
                }
            },
    {
        match self.vault.take() {
            Some(vault) => {
                let mut vault = vault;
                let outcome = vault.add_item();
                self.vault = Some(vault);
                outcome
            },
            None => Err(VaultError::WrongState),
        }
    }

    /// Delete the record with the id from the open vault. Its id is not
    /// handed out again.
    pub fn delete_item(&mut self, item_id: i32) -> (outcome: Result<(), VaultError>)
        requires
            old(self).well_formed(),
        ensures
            final(self).well_formed(),
            final(self).is_unlocked() == old(self).is_unlocked(),
            !old(self).is_unlocked() ==> outcome is Err && outcome->Err_0 == VaultError::WrongState,
            old(self).is_unlocked() ==> {
                &&& final(self).vault()@ == old(self).vault()@.deleted(item_id as int)
                &&& final(self).vault().key == old(self).vault().key
                &&& match outcome {
                    Ok(_) => old(self).vault()@.holds(item_id as int),
                    Err(e) => !old(self).vault()@.holds(item_id as int) && e
                        == VaultError::NoSuchItem,
                }
            },
    {
        match self.vault.take() {
            Some(vault) => {
                let mut vault = vault;
                let removed = vault.delete_item(item_id);
                self.vault = Some(vault);
                if removed {
                    Ok(())
                } else {
                    Err(VaultError::NoSuchItem)
                }
            },
            None => Err(VaultError::WrongState),
        }
    }

    /// Replace the text fields of the record with the id in the open
    /// vault.
    pub fn update_item(
        &mut self,
        item_id: i32,
        name: ZeroByte,
        username: ZeroByte,
        password: ZeroByte,
        url: ZeroByte,
        notes: ZeroByte,
    ) -> (outcome: Result<(), VaultError>)
        requires
            old(self).well_formed(),
        ensures
            final(self).well_formed(),
            final(self).is_unlocked() == old(self).is_unlocked(),
            !old(self).is_unlocked() ==> outcome is Err && outcome->Err_0 == VaultError::WrongState,
            old(self).is_unlocked() ==> {
                &&& final(self).vault()@ == old(self).vault()@.updated(
                    item_id as int,
                    ItemView {
                        id: item_id as int,
                        name: name@,
                        username: username@,
                        password: password@,
                        url: url@,
                        notes: notes@,
                    },
                )
                &&& final(self).vault().key == old(self).vault().key
                &&& match outcome {
                    Ok(_) => old(self).vault()@.holds(item_id as int),
                    Err(e) => !old(self).vault()@.holds(item_id as int) && e
                        == VaultError::NoSuchItem,
                }
            },
    {
        match self.vault.take() {
            Some(vault) => {
                let mut vault = vault;
                let found = vault.update_item(item_id, name, username, password, url, notes);
                self.vault = Some(vault);
                if found {
                    Ok(())
                } else {
                    Err(VaultError::NoSuchItem)
                }
            },
            None => Err(VaultError::WrongState),
        }
    }

    /// Id and display name of every record of the open vault, in order. A
    /// locked session lists nothing.
    pub fn list_items(&self) -> (listing: Vec<(i32, String)>)
        ensures
            !self.is_unlocked() ==> listing@.len() == 0,
            self.is_unlocked() ==> listing@.len() == self.vault()@.items.len() && forall|i: int|
                0 <= i < listing@.len() ==> (#[trigger] listing@[i]).0 == self.vault()@.items[i].id
                    && listing@[i].1@ == utf8_lossy_text(self.vault()@.items[i].name),
    {
        match &self.vault {
            Some(vault) => vault.list_items(),
            None => Vec::new(),
        }
    }

    /// The record with the id as text for display, if a vault is open and
    /// holds it.
    pub fn get_item(&self, item_id: i32) -> (shown: Option<ItemText>)
        ensures
            match shown {
                Some(text) => self.is_unlocked() && self.vault()@.holds(item_id as int)
                    && text.shows(self.vault()@.items[self.vault()@.place(item_id as int)]),
                None => !self.is_unlocked() || !self.vault()@.holds(item_id as int),
            },
    {
        match &self.vault {
            Some(vault) => vault.get_item(item_id),
            None => None,
        }
    }

    /// Compute the bytes of the file that stores the open vault as it is
    /// now. An unlocked session always has the key this needs.
    pub fn save_state(&self) -> (outcome: Result<Vec<u8>, VaultError>)
        requires
            self.well_formed(),
        ensures
            !self.is_unlocked() ==> outcome is Err && outcome->Err_0 == VaultError::WrongState,
            self.is_unlocked() ==> self.vault().key is Some && exists|nonce: Seq<u8>|
                saves(self.vault(), nonce, outcome),
    {
        match &self.vault {
            Some(vault) => save_vault_state(vault),
            None => Err(VaultError::WrongState),
        }
    }

    /// Lock the session: the vault, if one is open, is zeroed with its key
    /// and released.
    pub fn close(&mut self)
        requires
            old(self).well_formed(),
        ensures
            final(self).well_formed(),
            !final(self).is_unlocked(),
    {
        let held = self.vault.take();
        match held {
            Some(vault) => {
                let mut vault = vault;
                vault.wipe();
            },
            None => {},
        }
    }
}

/// A file that saving produced opens again, under the vault's key, as the
/// vault that was saved, provided the vault's encoding decodes to it.
pub proof fn saved_file_opens(vault: Vault, nonce: Seq<u8>, contents: Vec<u8>)
    requires
        saves(vault, nonce, Ok(contents)),
        encoded(vault@) is Ok,
        decoded(encoded(vault@)->Ok_0) == Ok::<VaultView, VaultError>(vault@),
    ensures
        vault.key is Some,
        opens(contents@, vault.key->0.bytes@) == Ok::<VaultView, VaultError>(vault@),
{
}

/// The file of a newly created vault unlocks, under the passphrase it was
/// created with, as a vault with exactly the one placeholder record and
/// with the same key, provided the encoding of a new vault decodes to it.
pub proof fn created_file_unlocks(
    password: Seq<u8>,
    salt: Seq<u8>,
    nonce: Seq<u8>,
    vault: Vault,
    contents: Vec<u8>,
)
    requires
        creates(password, salt, nonce, Ok((vault, contents))),
        encoded(VaultView::fresh()) is Ok,
        decoded(encoded(VaultView::fresh())->Ok_0) == Ok::<VaultView, VaultError>(
            VaultView::fresh(),
        ),
    ensures
        vault.key is Some,
        unlocks(contents@, password) == Ok::<(VaultView, Seq<u8>, Seq<u8>), VaultError>(
            (VaultView::fresh(), vault.key->0.bytes@, salt),
        ),
        VaultView::fresh().items.len() == 1,
{
}

/// A file too short to hold a salt does not unlock, whatever the
/// passphrase: it is refused as malformed before any key is derived.
pub proof fn short_file_does_not_unlock(contents: Seq<u8>, password: Seq<u8>)
    requires
        contents.len() < SALT_LEN,
    ensures
        unlocks(contents, password) == Err::<(VaultView, Seq<u8>, Seq<u8>), VaultError>(
            VaultError::Format,
        ),
{
}

} // verus!
