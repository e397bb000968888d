//! The vault: an ordered set of credential records, the counter that hands
//! out their ids, and the compact binary form in which they are encrypted.

use crate::crypto::gives;
use crate::crypto::ArgonKey;
use crate::errors::VaultError;
use crate::zerobyte::utf8_lossy_text;
use crate::zerobyte::ZeroByte;
use vstd::prelude::*;
use vstd::string::StringSliceAdditionalSpecFns;

verus! {

/// A record in the plain form that the binary encoding takes and gives:
/// id, name, username, password, url, notes.
pub type Record = (i32, Vec<u8>, Vec<u8>, Vec<u8>, Vec<u8>, Vec<u8>);

/// A key in the plain form that the binary encoding takes and gives: key
/// bytes, salt.
pub type KeyRecord = ([u8; 32], [u8; 16]);

/// The most bytes that decoding may claim for what it builds.
pub const DECODE_LIMIT: usize = 0x4000_0000;

#[verifier::external_type_specification]
#[verifier::external_body]
pub struct ExEncodeError(bincode::error::EncodeError);

#[verifier::external_type_specification]
#[verifier::external_body]
pub struct ExDecodeError(bincode::error::DecodeError);

/// The bytes that bincode's standard configuration gives for a counter, a
/// list of records and an optional key, or `None` where it refuses them.
pub uninterp spec fn bincode_encoding(
    nonce: int,
    records: Seq<(int, Seq<u8>, Seq<u8>, Seq<u8>, Seq<u8>, Seq<u8>)>,
    key: Option<(Seq<u8>, Seq<u8>)>,
) -> Option<Seq<u8>>;

/// The counter, records and optional key that bincode's standard
/// configuration, limited to `DECODE_LIMIT` bytes, reads from the head of
/// `bytes`, or `None` where they do not decode.
pub uninterp spec fn bincode_decoding(bytes: Seq<u8>) -> Option<
    (int, Seq<(int, Seq<u8>, Seq<u8>, Seq<u8>, Seq<u8>, Seq<u8>)>, Option<(Seq<u8>, Seq<u8>)>),
>;

/// A record as plain values.
pub open spec fn record_values(r: Record) -> (int, Seq<u8>, Seq<u8>, Seq<u8>, Seq<u8>, Seq<u8>) {
    (r.0 as int, r.1@, r.2@, r.3@, r.4@, r.5@)
}

/// A list of records as plain values.
pub open spec fn records_values(records: Seq<Record>) -> Seq<
    (int, Seq<u8>, Seq<u8>, Seq<u8>, Seq<u8>, Seq<u8>),
> {
    records.map_values(|r: Record| record_values(r))
}

/// An optional key as plain values.
pub open spec fn key_values(key: Option<KeyRecord>) -> Option<(Seq<u8>, Seq<u8>)> {
    match key {
        Some(k) => Some((k.0@, k.1@)),
        None => None,
    }
}

/// `bincode::encode_to_vec` with the standard configuration on the tuple of
/// counter, records and optional key: the bytes on success, the crate's
/// error otherwise. The outcome depends on the arguments alone.
#[verifier::external_body]
fn bincode_encode(nonce: i32, records: &Vec<Record>, key: Option<KeyRecord>) -> (outcome: Result<
    Vec<u8>,
    bincode::error::EncodeError,
>)
    ensures
        match outcome {
            Ok(bytes) => bincode_encoding(nonce as int, records_values(records@), key_values(key))
                == Some(bytes@),
            Err(_) => bincode_encoding(nonce as int, records_values(records@), key_values(key))
                is None,
        },
{
    bincode::encode_to_vec((nonce, records, key), bincode::config::standard())
}

/// `bincode::decode_from_slice` with the standard configuration and a byte
/// limit, into the tuple of counter, records and optional key: the tuple on
/// success, the crate's error otherwise. Bytes after the tuple are left
/// unread. The outcome depends on the bytes alone.
#[verifier::external_body]
fn bincode_decode(bytes: &[u8]) -> (outcome: Result<
    (i32, Vec<Record>, Option<KeyRecord>),
    bincode::error::DecodeError,
>)
    ensures
        match outcome {
            Ok(decoded) => bincode_decoding(bytes@) == Some(
                (decoded.0 as int, records_values(decoded.1@), key_values(decoded.2)),
            ),
            Err(_) => bincode_decoding(bytes@) is None,
        },
{
    let config = bincode::config::standard().with_limit::<DECODE_LIMIT>();
    let (decoded, _) = bincode::decode_from_slice(bytes, config)?;
    Ok(decoded)
}

/// One credential record. Every text field is a secret.
pub struct Item {
    pub id: i32,
    pub name: ZeroByte,
    pub username: ZeroByte,
    pub password: ZeroByte,
    pub url: ZeroByte,
    pub notes: ZeroByte,
}

/// What a record holds.
pub ghost struct ItemView {
    pub id: int,
    pub name: Seq<u8>,
    pub username: Seq<u8>,
    pub password: Seq<u8>,
    pub url: Seq<u8>,
    pub notes: Seq<u8>,
}

impl View for Item {
    type V = ItemView;

    open spec fn view(&self) -> ItemView {
        ItemView {
            id: self.id as int,
            name: self.name@,
            username: self.username@,
            password: self.password@,
            url: self.url@,
            notes: self.notes@,
        }
    }
}

impl ItemView {
    /// The record that a new id starts out with.
    pub open spec fn blank(id: int) -> ItemView {
        ItemView {
            id,
            name: "New Item".spec_bytes(),
            username: Seq::empty(),
            password: Seq::empty(),
            url: Seq::empty(),
            notes: Seq::empty(),
        }
    }

    /// The record as the binary encoding sees it.
    pub open spec fn values(self) -> (int, Seq<u8>, Seq<u8>, Seq<u8>, Seq<u8>, Seq<u8>) {
        (self.id, self.name, self.username, self.password, self.url, self.notes)
    }

    /// The record that the binary encoding's values stand for.
    pub open spec fn of_values(v: (int, Seq<u8>, Seq<u8>, Seq<u8>, Seq<u8>, Seq<u8>)) -> ItemView {
        ItemView { id: v.0, name: v.1, username: v.2, password: v.3, url: v.4, notes: v.5 }
    }
}

impl Item {
    /// The record that a new id starts out with.
    pub fn blank(id: i32) -> (item: Item)
        ensures
            item@ == ItemView::blank(id as int),
    {
        Item {
            id,
            name: ZeroByte::from_text("New Item"),
            username: ZeroByte::with_capacity(0),
            password: ZeroByte::with_capacity(0),
            url: ZeroByte::with_capacity(0),
            notes: ZeroByte::with_capacity(0),
        }
    }

    /// An explicit copy of the record.
    pub fn secure_clone(&self) -> (copy: Item)
        ensures
            copy@ == self@,
    {
        Item {
            id: self.id,
            name: self.name.secure_clone(),
            username: self.username.secure_clone(),
            password: self.password.secure_clone(),
            url: self.url.secure_clone(),
            notes: self.notes.secure_clone(),
        }
    }

    /// The record in the plain form that is encoded.
    pub fn to_record(&self) -> (record: Record)
        ensures
            record_values(record) == self@.values(),
    {
        (
            self.id,
            self.name.secure_clone().into_vec(),
            self.username.secure_clone().into_vec(),
            self.password.secure_clone().into_vec(),
            self.url.secure_clone().into_vec(),
            self.notes.secure_clone().into_vec(),
        )
    }

    /// The record that a decoded plain form stands for.
    pub fn from_record(record: Record) -> (item: Item)
        ensures
            item@.values() == record_values(record),
    {
        Item {
            id: record.0,
            name: ZeroByte::from_vec(record.1),
            username: ZeroByte::from_vec(record.2),
            password: ZeroByte::from_vec(record.3),
            url: ZeroByte::from_vec(record.4),
            notes: ZeroByte::from_vec(record.5),
        }
    }

    /// Zero every field.
    pub fn wipe(&mut self)
        ensures
            final(self)@ == (ItemView {
                id: 0,
                name: Seq::empty(),
                username: Seq::empty(),
                password: Seq::empty(),
                url: Seq::empty(),
                notes: Seq::empty(),
            }),
    {
        self.id = 0;
        self.name.clear();
        self.username.clear();
        self.password.clear();
        self.url.clear();
        self.notes.clear();
    }
}

/// A record as text for display.
pub struct ItemText {
    pub id: i32,
    pub name: String,
    pub username: String,
    pub password: String,
    pub url: String,
    pub notes: String,
}

impl ItemText {
    /// Whether this is the display form of `item`.
    pub open spec fn shows(&self, item: ItemView) -> bool {
        &&& self.id == item.id
        &&& self.name@ == utf8_lossy_text(item.name)
        &&& self.username@ == utf8_lossy_text(item.username)
        &&& self.password@ == utf8_lossy_text(item.password)
        &&& self.url@ == utf8_lossy_text(item.url)
        &&& self.notes@ == utf8_lossy_text(item.notes)
    }
}

/// What a vault holds, apart from its key: the next id to hand out and the
/// records in insertion order.
pub ghost struct VaultView {
    pub nonce: int,
    pub items: Seq<ItemView>,
}

impl VaultView {
    /// A new vault: one placeholder record with id 0, next id 1.
    pub open spec fn fresh() -> VaultView {
        VaultView { nonce: 1, items: seq![ItemView::blank(0)] }
    }

    /// Every id in use lies below the counter, and no id is used twice.
    pub open spec fn well_formed(self) -> bool {
        &&& forall|i: int| 0 <= i < self.items.len() ==> (#[trigger] self.items[i]).id < self.nonce
        &&& forall|i: int, j: int|
            0 <= i < j < self.items.len() ==> (#[trigger] self.items[i]).id != (
            #[trigger] self.items[j]).id
    }

    /// Whether some record has the id.
    pub open spec fn holds(self, id: int) -> bool {
        exists|i: int| 0 <= i < self.items.len() && (#[trigger] self.items[i]).id == id
    }

    /// Whether `at` is the place of the first record with the id.
    pub open spec fn first_at(self, id: int, at: int) -> bool {
        &&& 0 <= at < self.items.len()
        &&& self.items[at].id == id
        &&& forall|i: int| 0 <= i < at ==> (#[trigger] self.items[i]).id != id
    }

    /// The place of the first record with the id.
    pub open spec fn place(self, id: int) -> int {
        choose|at: int| self.first_at(id, at)
    }

    /// Whether one more id can be handed out.
    pub open spec fn has_room(self) -> bool {
        self.nonce < i32::MAX
    }

    /// The vault after a record was added: the counter's value becomes
    /// the id of a new blank record at the end, and the counter moves on.
    /// A vault without room stays as it is.
    pub open spec fn added(self) -> VaultView {
        if self.has_room() {
            VaultView { nonce: self.nonce + 1, items: self.items.push(ItemView::blank(self.nonce)) }
        } else {
            self
        }
    }

    /// The vault after the first record with the id was taken out. The
    /// counter stays, so the id is not handed out again.
    pub open spec fn deleted(self, id: int) -> VaultView {
        if self.holds(id) {
            VaultView { nonce: self.nonce, items: self.items.remove(self.place(id)) }
        } else {
            self
        }
    }

    /// The vault after the text fields of the first record with the id
    /// were replaced by those of `fields`.
    pub open spec fn updated(self, id: int, fields: ItemView) -> VaultView {
        if self.holds(id) {
            VaultView {
                nonce: self.nonce,
                items: self.items.update(self.place(id), ItemView { id, ..fields }),
            }
        } else {
            self
        }
    }

    /// The records as the binary encoding sees them.
    pub open spec fn values(self) -> Seq<(int, Seq<u8>, Seq<u8>, Seq<u8>, Seq<u8>, Seq<u8>)> {
        self.items.map_values(|item: ItemView| item.values())
    }
}

/// An id at some place has a first place at or before it.
proof fn first_place_before(v: VaultView, id: int, at: int)
    requires
        0 <= at < v.items.len(),
        v.items[at].id == id,
    ensures
        exists|first: int| v.first_at(id, first),
    decreases at,
{
    if forall|i: int| 0 <= i < at ==> (#[trigger] v.items[i]).id != id {
        assert(v.first_at(id, at));
    } else {
        let earlier = choose|i: int| 0 <= i < at && (#[trigger] v.items[i]).id == id;
        first_place_before(v, id, earlier);
    }
}

/// An id that the vault holds has a first place.
pub proof fn held_id_has_first_place(v: VaultView, id: int)
    requires
        v.holds(id),
    ensures
        v.first_at(id, v.place(id)),
{
    let at = choose|i: int| 0 <= i < v.items.len() && (#[trigger] v.items[i]).id == id;
    first_place_before(v, id, at);
}

/// The first place of an id is unique.
pub proof fn first_place_is_unique(v: VaultView, id: int, at: int)
    requires
        v.first_at(id, at),
    ensures
        v.holds(id),
        v.place(id) == at,
{
    let chosen = v.place(id);
    assert(v.first_at(id, chosen));
    if chosen < at {
        assert(v.items[chosen].id != id);
    }
    if at < chosen {
        assert(v.items[at].id != id);
    }
}

/// `found` is what decoding `stored` gives.
pub open spec fn reads_as(
    stored: Seq<u8>,
    found: Result<(i32, Vec<Record>, Option<KeyRecord>), bincode::error::DecodeError>,
) -> bool {
    match found {
        Ok(decoded) => bincode_decoding(stored) == Some(
            (decoded.0 as int, records_values(decoded.1@), key_values(decoded.2)),
        ),
        Err(_) => bincode_decoding(stored) is None,
    }
}

/// The stored form of a vault: the encoding of its counter and records,
/// with no key.
pub open spec fn encoded(v: VaultView) -> Result<Seq<u8>, VaultError> {
    match bincode_encoding(v.nonce, v.values(), None) {
        Some(bytes) => Ok(bytes),
        None => Err(VaultError::Encoding),
    }
}

/// The vault that stored bytes stand for. A key found among them is left
/// aside. Bytes that do not decode are a format error.
pub open spec fn decoded(bytes: Seq<u8>) -> Result<VaultView, VaultError> {
    match bincode_decoding(bytes) {
        Some(found) => Ok(
            VaultView {
                nonce: found.0,
                items: found.1.map_values(
                    |v: (int, Seq<u8>, Seq<u8>, Seq<u8>, Seq<u8>, Seq<u8>)| ItemView::of_values(v),
                ),
            },
        ),
        None => Err(VaultError::Format),
    }
}

/// Zero the plain copies of the records' fields.
fn wipe_records(records: Vec<Record>) {
    let mut records = records;
    while records.len() > 0
        decreases records@.len(),
    {
        match records.pop() {
            Some(record) => {
                let _ = Item::from_record(record);
            },
            None => {},
        }
    }
}

/// A vault in memory. The key is attached while the vault is unlocked and
/// is never part of what is stored.
pub struct Vault {
    pub nonce: i32,
    pub items: Vec<Item>,
    pub key: Option<ArgonKey>,
}

impl View for Vault {
    type V = VaultView;

    open spec fn view(&self) -> VaultView {
        VaultView { nonce: self.nonce as int, items: self.items@.map_values(|item: Item| item@) }
    }
}

impl Vault {
    /// A new vault with one placeholder record and no key.
    pub fn new() -> (vault: Self)
        ensures
            vault@ == VaultView::fresh(),
            vault@.well_formed(),
            vault.key is None,
    {
        let mut items: Vec<Item> = Vec::new();
        items.push(Item::blank(0));
        let vault = Self { nonce: 1, items, key: None };
        assert(vault@.items =~= seq![ItemView::blank(0)]);
        vault
    }

    /// The place of the first record with the id, if there is one.
    pub fn position(&self, item_id: i32) -> (found: Option<usize>)
        ensures
            match found {
                Some(at) => self@.first_at(item_id as int, at as int),
                None => !self@.holds(item_id as int),
            },
    {
        let mut i: usize = 0;
        while i < self.items.len()
            invariant
                i <= self.items@.len(),
                forall|j: int| 0 <= j < i ==> (#[trigger] self@.items[j]).id != item_id,
            decreases self.items@.len() - i,
        {
            if self.items[i].id == item_id {
                return Some(i);
            }
            i += 1;
        }
        None
    }

    /// Add a blank record under the next id and return that id. Where the
    /// counter has reached its end nothing changes.
    pub fn add_item(&mut self) -> (outcome: Result<i32, VaultError>)
        ensures
            final(self)@ == old(self)@.added(),
            final(self).key == old(self).key,
            match outcome {
                Ok(id) => old(self)@.has_room() && id == old(self).nonce,
                Err(e) => !old(self)@.has_room() && e == VaultError::IdsExhausted,
            },
    {
        if self.nonce == i32::MAX {
            return Err(VaultError::IdsExhausted);
        }
        let new_id = self.nonce;
        self.items.push(Item::blank(new_id));
        self.nonce = new_id + 1;
        assert(self@.items =~= old(self)@.items.push(ItemView::blank(new_id as int)));
        Ok(new_id)
    }

    /// Take out the first record with the id. Returns whether there was
    /// one.
    pub fn delete_item(&mut self, item_id: i32) -> (removed: bool)
        ensures
            final(self)@ == old(self)@.deleted(item_id as int),
            final(self).key == old(self).key,
            removed == old(self)@.holds(item_id as int),
    {
        match self.position(item_id) {
            Some(pos) => {
                proof {
                    first_place_is_unique(self@, item_id as int, pos as int);
                }
                let mut gone = self.items.remove(pos);
                gone.wipe();
                assert(self@.items =~= old(self)@.items.remove(pos as int));
                true
            },
            None => false,
        }
    }

    /// Replace the text fields of the first record with the id. Returns
    /// whether there was one; if not, nothing changes.
    pub fn update_item(
        &mut self,
        item_id: i32,
        name: ZeroByte,
        username: ZeroByte,
        password: ZeroByte,
        url: ZeroByte,
        notes: ZeroByte,
    ) -> (found: bool)
        ensures
            final(self)@ == old(self)@.updated(
                item_id as int,
                ItemView {
                    id: item_id as int,
                    name: name@,
                    username: username@,
                    password: password@,
                    url: url@,
                    notes: notes@,
                },
            ),
            final(self).key == old(self).key,
            found == old(self)@.holds(item_id as int),
    {
        match self.position(item_id) {
            Some(pos) => {
                proof {
                    first_place_is_unique(self@, item_id as int, pos as int);
                }
                let item = Item { id: item_id, name, username, password, url, notes };
                let ghost shown = item@;
                self.items[pos] = item;
                assert(self@.items =~= old(self)@.items.update(pos as int, shown));
                true
            },
            None => false,
        }
    }

    /// Id and display name of every record, in order.
    pub fn list_items(&self) -> (listing: Vec<(i32, String)>)
        ensures
            listing@.len() == self@.items.len(),
            forall|i: int|
                0 <= i < listing@.len() ==> (#[trigger] listing@[i]).0 == self@.items[i].id
                    && listing@[i].1@ == utf8_lossy_text(self@.items[i].name),
    {
        let mut listing: Vec<(i32, String)> = Vec::new();
        let mut i: usize = 0;
        while i < self.items.len()
            invariant
                i <= self.items@.len(),
                listing@.len() == i,
                forall|j: int|
                    0 <= j < i ==> (#[trigger] listing@[j]).0 == self@.items[j].id
                        && listing@[j].1@ == utf8_lossy_text(self@.items[j].name),
            decreases self.items@.len() - i,
        {
            let item = &self.items[i];
            listing.push((item.id, item.name.to_string_secure()));
            i += 1;
        }
        listing
    }

    /// The first record with the id as text for display.
    pub fn get_item(&self, item_id: i32) -> (shown: Option<ItemText>)
        ensures
            match shown {
                Some(text) => self@.holds(item_id as int) && text.shows(
                    self@.items[self@.place(item_id as int)],
                ),
                None => !self@.holds(item_id as int),
            },
    {
        match self.position(item_id) {
            Some(pos) => {
                proof {
                    first_place_is_unique(self@, item_id as int, pos as int);
                }
                let item = &self.items[pos];
                Some(
                    ItemText {
                        id: item.id,
                        name: item.name.to_string_secure(),
                        username: item.username.to_string_secure(),
                        password: item.password.to_string_secure(),
                        url: item.url.to_string_secure(),
                        notes: item.notes.to_string_secure(),
                    },
                )
            },
            None => None,
        }
    }

    /// Zero everything the vault holds: every record, the counter and the
    /// key.
    pub fn wipe(&mut self)
        ensures
            final(self)@ == (VaultView { nonce: 0, items: Seq::empty() }),
            final(self).key is None,
    {
        while self.items.len() > 0
            decreases self.items@.len(),
        {
            let last = self.items.pop();
            match last {
                Some(item) => {
                    let mut item = item;
                    item.wipe();
                },
                None => {},
            }
        }
        self.nonce = 0;
        match &mut self.key {
            Some(key) => {
                key.wipe();
            },
            None => {},
        }
        self.key = None;
        assert(self@.items =~= Seq::empty());
    }

    /// The stored form of the vault: counter and records in the binary
    /// encoding. The key is never part of it.
    pub fn encode(&self) -> (outcome: Result<ZeroByte, VaultError>)
        ensures
            gives(outcome, encoded(self@)),
    {
        let mut records: Vec<Record> = Vec::new();
        let mut i: usize = 0;
        while i < self.items.len()
            invariant
                i <= self.items@.len(),
                records@.len() == i,
                forall|j: int|
                    0 <= j < i ==> record_values(#[trigger] records@[j]) == self@.items[j].values(),
            decreases self.items@.len() - i,
        {
            records.push(self.items[i].to_record());
            i += 1;
        }
        assert(records_values(records@) =~= self@.values());
        let outcome = match bincode_encode(self.nonce, &records, None) {
            Ok(bytes) => Ok(ZeroByte::from_vec(bytes)),
            Err(_) => Err(VaultError::Encoding),
        };
        wipe_records(records);
        outcome
    }

    /// The vault that stored bytes stand for, without a key.
    pub fn decode(bytes: &ZeroByte) -> (outcome: Result<Vault, VaultError>)
        ensures
            match outcome {
                Ok(vault) => decoded(bytes@) == Ok::<VaultView, VaultError>(vault@) && vault.key
                    is None,
                Err(e) => decoded(bytes@) == Err::<VaultView, VaultError>(e),
            },
    {
        let read = |stored: &[u8]| -> (found: Result<
            (i32, Vec<Record>, Option<KeyRecord>),
            bincode::error::DecodeError,
        >)
            ensures
                reads_as(stored@, found),
            {
                bincode_decode(stored)
            };
        match bytes.with_bytes(read) {
            Ok(found) => {
                let (nonce, records, _) = found;
                Ok(Self::from_records(nonce, records))
            },
            Err(_) => Err(VaultError::Format),
        }
    }

    /// The vault with the given counter and the records in the given
    /// order, without a key.
    pub fn from_records(nonce: i32, records: Vec<Record>) -> (vault: Vault)
        ensures
            vault@.nonce == nonce,
            vault@.items == records_values(records@).map_values(
                |v: (int, Seq<u8>, Seq<u8>, Seq<u8>, Seq<u8>, Seq<u8>)| ItemView::of_values(v),
            ),
            vault.key is None,
    {
        let ghost all = records@;
        let ghost n = all.len() as int;
        let mut records = records;
        let mut backwards: Vec<Item> = Vec::new();
        while records.len() > 0
            invariant
                n == all.len(),
                records@.len() + backwards@.len() == n,
                records@ =~= all.subrange(0, records@.len() as int),
                forall|k: int|
                    0 <= k < backwards@.len() ==> (#[trigger] backwards@[k])@.values()
                        == record_values(all[n - 1 - k]),
            decreases records@.len(),
        {
            match records.pop() {
                Some(record) => {
                    backwards.push(Item::from_record(record));
                },
                None => {},
            }
        }
        let ghost turned = backwards@;
        let mut items: Vec<Item> = Vec::new();
        while backwards.len() > 0
            invariant
                n == all.len(),
                turned.len() == n,
                backwards@.len() + items@.len() == n,
                backwards@ =~= turned.subrange(0, backwards@.len() as int),
                forall|k: int|
                    0 <= k < n ==> (#[trigger] turned[k])@.values() == record_values(
                        all[n - 1 - k],
                    ),
                forall|k: int|
                    0 <= k < items@.len() ==> (#[trigger] items@[k])@.values() == record_values(
                        all[k],
                    ),
            decreases backwards@.len(),
        {
            match backwards.pop() {
                Some(item) => {
                    items.push(item);
                },
                None => {},
            }
        }
        let vault = Vault { nonce, items, key: None };
        assert(vault@.items =~= records_values(all).map_values(
            |v: (int, Seq<u8>, Seq<u8>, Seq<u8>, Seq<u8>, Seq<u8>)| ItemView::of_values(v),
        )) by {
            assert forall|k: int| 0 <= k < n implies vault@.items[k] == ItemView::of_values(
                record_values(all[k]),
            ) by {
                assert(items@[k]@.values() == record_values(all[k]));
            }
        }
        vault
    }
}

/// One change to a vault.
pub ghost enum Step {
    Add,
    Delete(int),
    Update(int, ItemView),
}

impl VaultView {
    /// The vault after one change.
    pub open spec fn after(self, step: Step) -> VaultView {
        match step {
            Step::Add => self.added(),
            Step::Delete(id) => self.deleted(id),
            Step::Update(id, fields) => self.updated(id, fields),
        }
    }

    /// The vault after a run of changes, first to last.
    pub open spec fn after_all(self, steps: Seq<Step>) -> VaultView
        decreases steps.len(),
    {
        if steps.len() == 0 {
            self
        } else {
            self.after(steps[0]).after_all(steps.drop_first())
        }
    }

    /// The ids that a run of changes hands out, in the order of handing
    /// out: one for each addition that finds room.
    pub open spec fn issued(self, steps: Seq<Step>) -> Seq<int>
        decreases steps.len(),
    {
        if steps.len() == 0 {
            Seq::empty()
        } else {
            let rest = self.after(steps[0]).issued(steps.drop_first());
            if steps[0] is Add && self.has_room() {
                seq![self.nonce] + rest
            } else {
                rest
            }
        }
    }
}

/// A new vault is well formed.
pub proof fn fresh_is_well_formed()
    ensures
        VaultView::fresh().well_formed(),
{
}

/// No change moves the counter back, and only an addition that finds room
/// moves it on, by one.
pub proof fn counter_never_goes_back(v: VaultView, step: Step)
    ensures
        v.after(step).nonce == if step is Add && v.has_room() {
            v.nonce + 1
        } else {
            v.nonce
        },
{
}

/// Every change keeps a well-formed vault well formed: ids stay below the
/// counter and distinct.
pub proof fn change_keeps_well_formed(v: VaultView, step: Step)
    requires
        v.well_formed(),
    ensures
        v.after(step).well_formed(),
{
    let w = v.after(step);
    match step {
        Step::Add => {
            if v.has_room() {
                assert forall|i: int| 0 <= i < w.items.len() implies (#[trigger] w.items[i]).id
                    < w.nonce by {
                    if i < v.items.len() {
                        assert(w.items[i] == v.items[i]);
                    }
                }
                assert forall|i: int, j: int| 0 <= i < j < w.items.len() implies (
                #[trigger] w.items[i]).id != (#[trigger] w.items[j]).id by {
                    assert(w.items[i] == v.items[i]);
                    if j < v.items.len() {
                        assert(w.items[j] == v.items[j]);
                    }
                }
            }
        },
        Step::Delete(id) => {
            if v.holds(id) {
                let at = v.place(id);
                held_id_has_first_place(v, id);
                assert forall|i: int| 0 <= i < w.items.len() implies (#[trigger] w.items[i]).id
                    < w.nonce by {
                    if i < at {
                        assert(w.items[i] == v.items[i]);
                    } else {
                        assert(w.items[i] == v.items[i + 1]);
                    }
                }
                assert forall|i: int, j: int| 0 <= i < j < w.items.len() implies (
                #[trigger] w.items[i]).id != (#[trigger] w.items[j]).id by {
                    let oi = if i < at { i } else { i + 1 };
                    let oj = if j < at { j } else { j + 1 };
                    assert(w.items[i] == v.items[oi]);
                    assert(w.items[j] == v.items[oj]);
                }
            }
        },
        Step::Update(id, fields) => {
            if v.holds(id) {
                let at = v.place(id);
                held_id_has_first_place(v, id);
                assert forall|i: int| 0 <= i < w.items.len() implies (#[trigger] w.items[i]).id
                    < w.nonce by {
                    assert(w.items[i].id == v.items[i].id);
                }
                assert forall|i: int, j: int| 0 <= i < j < w.items.len() implies (
                #[trigger] w.items[i]).id != (#[trigger] w.items[j]).id by {
                    assert(w.items[i].id == v.items[i].id);
                    assert(w.items[j].id == v.items[j].id);
                }
            }
        },
    }
}

/// A run of changes keeps a well-formed vault well formed.
pub proof fn changes_keep_well_formed(v: VaultView, steps: Seq<Step>)
    requires
        v.well_formed(),
    ensures
        v.after_all(steps).well_formed(),
    decreases steps.len(),
{
    if steps.len() > 0 {
        change_keeps_well_formed(v, steps[0]);
        changes_keep_well_formed(v.after(steps[0]), steps.drop_first());
    }
}

/// The ids handed out over any run of additions, deletions and updates
/// are strictly increasing, so pairwise distinct, and none lies below the
/// counter the run started with. In a well-formed vault none therefore
/// equals an id that was in use at the start, deleted since or not.
pub proof fn issued_ids_increase(v: VaultView, steps: Seq<Step>)
    ensures
        forall|i: int| 0 <= i < v.issued(steps).len() ==> v.nonce <= #[trigger] v.issued(steps)[i],
        forall|i: int, j: int|
            0 <= i < j < v.issued(steps).len() ==> #[trigger] v.issued(steps)[i]
                < #[trigger] v.issued(steps)[j],
        v.well_formed() ==> forall|i: int, k: int|
            0 <= i < v.issued(steps).len() && 0 <= k < v.items.len() ==> #[trigger] v.issued(
                steps,
            )[i] != (#[trigger] v.items[k]).id,
    decreases steps.len(),
{
    if steps.len() > 0 {
        let next = v.after(steps[0]);
        let rest = next.issued(steps.drop_first());
        counter_never_goes_back(v, steps[0]);
        issued_ids_increase(next, steps.drop_first());
        let all = v.issued(steps);
        if steps[0] is Add && v.has_room() {
            assert(all == seq![v.nonce] + rest);
            assert forall|i: int| 0 <= i < all.len() implies v.nonce <= #[trigger] all[i] by {
                if i > 0 {
                    assert(all[i] == rest[i - 1]);
                }
            }
            assert forall|i: int, j: int| 0 <= i < j < all.len() implies #[trigger] all[i]
                < #[trigger] all[j] by {
                assert(all[j] == rest[j - 1]);
                if i > 0 {
                    assert(all[i] == rest[i - 1]);
                }
            }
        } else {
            assert(all == rest);
        }
    }
}

/// Adding a record and then deleting it leaves the records as they were,
/// and the next id handed out is a new one.
pub proof fn add_then_delete_restores_records(v: VaultView)
    requires
        v.well_formed(),
        v.has_room(),
    ensures
        v.added().deleted(v.nonce).items == v.items,
        v.added().deleted(v.nonce).nonce == v.nonce + 1,
{
    let w = v.added();
    let at = v.items.len() as int;
    assert(w.items[at].id == v.nonce);
    assert forall|i: int| 0 <= i < at implies (#[trigger] w.items[i]).id != v.nonce by {
        assert(w.items[i] == v.items[i]);
    }
    assert(w.first_at(v.nonce, at));
    first_place_is_unique(w, v.nonce, at);
    assert(w.items.remove(at) =~= v.items);
}

} // verus!
