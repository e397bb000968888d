use nopass::errors::VaultError;
use nopass::vault::Item;
use nopass::vault::Vault;
use nopass::zerobyte::ZeroByte;

fn buf(text: &str) -> ZeroByte {
    ZeroByte::from_text(text)
}

fn ids(vault: &Vault) -> Vec<i32> {
    vault.items.iter().map(|item| item.id).collect()
}

#[test]
fn new_vault_has_one_placeholder_and_counter_one() {
    let vault = Vault::new();
    assert_eq!(vault.nonce, 1);
    assert_eq!(vault.items.len(), 1);
    assert_eq!(vault.items[0].id, 0);
    assert!(vault.items[0].name.constant_time_eq(b"New Item"));
    assert!(vault.items[0].username.is_empty());
    assert!(vault.items[0].password.is_empty());
    assert!(vault.items[0].url.is_empty());
    assert!(vault.items[0].notes.is_empty());
    assert!(vault.key.is_none());
}

#[test]
fn added_ids_increase_across_interleaved_deletes() {
    let mut vault = Vault::new();
    let mut handed_out = Vec::new();
    for round in 0..20 {
        let id = vault.add_item().unwrap();
        handed_out.push(id);
        if round % 3 == 0 {
            assert!(vault.delete_item(id));
        }
        if round % 5 == 0 {
            vault.delete_item(0);
        }
    }
    assert_eq!(handed_out, (1..=20).collect::<Vec<i32>>());
    for pair in handed_out.windows(2) {
        assert!(pair[0] < pair[1]);
    }
    assert_eq!(vault.nonce, 21);
    let held = ids(&vault);
    for id in &held {
        assert!(*id < vault.nonce);
    }
    let mut unique = held.clone();
    unique.dedup();
    assert_eq!(unique, held);
}

#[test]
fn add_then_delete_keeps_the_count_and_does_not_reuse_the_id() {
    let mut vault = Vault::new();
    let before = vault.items.len();
    let id = vault.add_item().unwrap();
    assert_eq!(id, 1);
    assert_eq!(vault.items.len(), before + 1);
    assert!(vault.delete_item(id));
    assert_eq!(vault.items.len(), before);
    let next = vault.add_item().unwrap();
    assert_eq!(next, 2);
    assert_ne!(next, id);
}

#[test]
fn added_item_is_blank_and_goes_last() {
    let mut vault = Vault::new();
    vault.add_item().unwrap();
    let id = vault.add_item().unwrap();
    assert_eq!(ids(&vault), vec![0, 1, 2]);
    let last = &vault.items[2];
    assert_eq!(last.id, id);
    assert!(last.name.constant_time_eq(b"New Item"));
    assert!(last.password.is_empty());
}

#[test]
fn add_item_refuses_when_ids_run_out() {
    let mut vault = Vault::new();
    vault.nonce = i32::MAX - 1;
    assert_eq!(vault.add_item(), Ok(i32::MAX - 1));
    assert_eq!(vault.nonce, i32::MAX);
    assert_eq!(vault.add_item(), Err(VaultError::IdsExhausted));
    assert_eq!(vault.nonce, i32::MAX);
    assert_eq!(vault.items.len(), 2);
}

#[test]
fn delete_removes_only_the_first_match_and_reports_a_miss() {
    let mut vault = Vault::new();
    vault.add_item().unwrap();
    vault.add_item().unwrap();
    vault.items.push(Item::blank(1));
    assert_eq!(ids(&vault), vec![0, 1, 2, 1]);

    assert!(vault.delete_item(1));
    assert_eq!(ids(&vault), vec![0, 2, 1]);
    assert!(!vault.delete_item(7));
    assert_eq!(ids(&vault), vec![0, 2, 1]);
    assert_eq!(vault.nonce, 3);
}

#[test]
fn position_finds_the_first_place() {
    let mut vault = Vault::new();
    vault.add_item().unwrap();
    vault.items.push(Item::blank(1));
    assert_eq!(vault.position(0), Some(0));
    assert_eq!(vault.position(1), Some(1));
    assert_eq!(vault.position(2), None);
    assert_eq!(vault.position(-1), None);
}

#[test]
fn update_replaces_the_fields_and_keeps_id_and_order() {
    let mut vault = Vault::new();
    vault.add_item().unwrap();
    vault.add_item().unwrap();
    assert!(vault.update_item(1, buf("mail"), buf("me"), buf("hunter2"), buf("https://x"), buf("n")));
    assert_eq!(ids(&vault), vec![0, 1, 2]);
    let item = &vault.items[1];
    assert!(item.name.constant_time_eq(b"mail"));
    assert!(item.username.constant_time_eq(b"me"));
    assert!(item.password.constant_time_eq(b"hunter2"));
    assert!(item.url.constant_time_eq(b"https://x"));
    assert!(item.notes.constant_time_eq(b"n"));
    assert!(vault.items[0].name.constant_time_eq(b"New Item"));
    assert_eq!(vault.nonce, 3);

    assert!(!vault.update_item(9, buf("a"), buf("b"), buf("c"), buf("d"), buf("e")));
    assert!(vault.items[1].name.constant_time_eq(b"mail"));
}

#[test]
fn list_and_get_show_lossy_text() {
    let mut vault = Vault::new();
    vault.add_item().unwrap();
    assert!(vault.update_item(
        1,
        ZeroByte::from_bytes(&[b'a', 0xFF, b'b']),
        buf("user"),
        buf("pw"),
        buf("url"),
        buf("notes")
    ));
    let listing = vault.list_items();
    assert_eq!(
        listing,
        vec![(0, String::from("New Item")), (1, String::from("a\u{FFFD}b"))]
    );

    let shown = vault.get_item(1).unwrap();
    assert_eq!(shown.id, 1);
    assert_eq!(shown.name, "a\u{FFFD}b");
    assert_eq!(shown.username, "user");
    assert_eq!(shown.password, "pw");
    assert_eq!(shown.url, "url");
    assert_eq!(shown.notes, "notes");
    assert!(vault.get_item(5).is_none());
}

#[test]
fn encoding_of_a_new_vault_is_the_compact_form() {
    let encoded = Vault::new().encode().unwrap();
    let mut expected = vec![2u8, 1, 0, 8];
    expected.extend_from_slice(b"New Item");
    expected.extend_from_slice(&[0, 0, 0, 0, 0]);
    assert!(encoded.constant_time_eq(&expected));
}

#[test]
fn encoding_leaves_the_key_out() {
    let mut vault = Vault::new();
    let without = vault.encode().unwrap();
    vault.key = Some(nopass::crypto::ArgonKey { bytes: [9u8; 32], salt: [8u8; 16] });
    let with = vault.encode().unwrap();
    assert!(with == without);
    with.with_bytes(|bytes| assert_eq!(bytes.last(), Some(&0u8)));
}

#[test]
fn decode_inverts_encode() {
    let mut vault = Vault::new();
    vault.add_item().unwrap();
    vault.add_item().unwrap();
    vault.delete_item(1);
    assert!(vault.update_item(2, buf("bank"), buf("me"), buf("s3cret"), buf("https://b"), buf("")));
    let encoded = vault.encode().unwrap();

    let back = Vault::decode(&encoded).unwrap();
    assert_eq!(back.nonce, 3);
    assert_eq!(ids(&back), vec![0, 2]);
    assert!(back.items[0].name.constant_time_eq(b"New Item"));
    assert!(back.items[1].name.constant_time_eq(b"bank"));
    assert!(back.items[1].username.constant_time_eq(b"me"));
    assert!(back.items[1].password.constant_time_eq(b"s3cret"));
    assert!(back.items[1].url.constant_time_eq(b"https://b"));
    assert!(back.items[1].notes.is_empty());
    assert!(back.key.is_none());
}

#[test]
fn decode_drops_a_stored_key_and_ignores_trailing_bytes() {
    let mut bytes = vec![10u8, 0, 1];
    bytes.extend_from_slice(&[1u8; 32]);
    bytes.extend_from_slice(&[2u8; 16]);
    bytes.extend_from_slice(b"trailing");
    let vault = Vault::decode(&ZeroByte::from_vec(bytes)).unwrap();
    assert_eq!(vault.nonce, 5);
    assert!(vault.items.is_empty());
    assert!(vault.key.is_none());
}

#[test]
fn decode_reports_malformed_bytes_as_format_error() {
    assert_eq!(Vault::decode(&ZeroByte::with_capacity(0)).err(), Some(VaultError::Format));
    assert_eq!(Vault::decode(&ZeroByte::from_bytes(&[2, 1])).err(), Some(VaultError::Format));
    assert_eq!(Vault::decode(&ZeroByte::from_bytes(&[2, 0, 7])).err(), Some(VaultError::Format));
    let huge = [2u8, 253, 255, 255, 255, 255, 255, 255, 255, 127];
    assert_eq!(Vault::decode(&ZeroByte::from_bytes(&huge)).err(), Some(VaultError::Format));
}

#[test]
fn from_records_keeps_the_order() {
    let records = vec![
        (4, b"a".to_vec(), b"b".to_vec(), b"c".to_vec(), b"d".to_vec(), b"e".to_vec()),
        (2, b"f".to_vec(), vec![], vec![], vec![], vec![]),
        (9, b"g".to_vec(), vec![], vec![], vec![], vec![]),
    ];
    let vault = Vault::from_records(12, records);
    assert_eq!(vault.nonce, 12);
    assert_eq!(ids(&vault), vec![4, 2, 9]);
    assert!(vault.items[0].notes.constant_time_eq(b"e"));
    assert!(vault.items[2].name.constant_time_eq(b"g"));
}

#[test]
fn item_record_round_trip() {
    let mut item = Item::blank(3);
    item.password = buf("pw");
    let record = item.to_record();
    assert_eq!(record, (3, b"New Item".to_vec(), vec![], b"pw".to_vec(), vec![], vec![]));
    let back = Item::from_record(record);
    assert_eq!(back.id, 3);
    assert!(back.password.constant_time_eq(b"pw"));
    let copy = back.secure_clone();
    assert_eq!(copy.id, 3);
    assert!(copy.name == back.name);
}

#[test]
fn wiping_a_vault_leaves_nothing() {
    let mut vault = Vault::new();
    vault.add_item().unwrap();
    vault.key = Some(nopass::crypto::ArgonKey { bytes: [9u8; 32], salt: [8u8; 16] });
    vault.wipe();
    assert_eq!(vault.nonce, 0);
    assert!(vault.items.is_empty());
    assert!(vault.key.is_none());

    let mut item = Item::blank(4);
    item.wipe();
    assert_eq!(item.id, 0);
    assert!(item.name.is_empty());
}
