use nopass::zerobyte::ZeroByte;

#[test]
fn test_zerobyte_drops_without_panic() {
    {
        let zero_byte = ZeroByte::from_bytes(b"secret");
        assert_eq!(zero_byte.len(), 6);
    }
}

#[test]
fn test_manual_zeroization() {
    let mut zero_byte = ZeroByte::from_bytes(b"secret");

    assert_eq!(zero_byte.len(), 6);
    zero_byte.with_bytes(|bytes| {
        assert_eq!(bytes, b"secret");
    });

    zero_byte.clear();

    assert_eq!(zero_byte.len(), 0);
    assert!(zero_byte.is_empty());
}

#[test]
fn test_memory_is_zeroed() {
    let data = b"secret";
    let mut memory_locations = Vec::new();

    {
        let zero_byte = ZeroByte::from_bytes(data);

        zero_byte.with_bytes(|bytes| {
            memory_locations.push(bytes.as_ptr());
        });

        zero_byte.with_bytes(|bytes| {
            assert_eq!(bytes, data);
        });
    }

    // The allocation is gone by now, so only its address can still be shown.
    for ptr in &memory_locations {
        println!("Memory after drop: {:?}", ptr);
    }
}

#[test]
fn test_truncate_zeroizes_removed_data() {
    let mut zero_byte = ZeroByte::from_bytes(b"secret");
    assert_eq!(zero_byte.len(), 6);

    zero_byte.truncate(3);
    assert_eq!(zero_byte.len(), 3);

    zero_byte.with_bytes(|bytes| {
        assert_eq!(bytes, b"sec");
    });
}

#[test]
fn test_resize_zeroize_removed_data() {
    let mut zero_byte = ZeroByte::from_bytes(b"secret");
    assert_eq!(zero_byte.len(), 6);

    zero_byte.resize(4, 0);
    assert_eq!(zero_byte.len(), 4);

    zero_byte.with_bytes(|bytes| {
        assert_eq!(bytes, b"secr");
    });

    zero_byte.resize(8, b'X');
    assert_eq!(zero_byte.len(), 8);

    zero_byte.with_bytes(|bytes| {
        assert_eq!(bytes, b"secrXXXX");
    });
}

#[test]
fn test_from_vec_takes_ownership() {
    let original_data = vec![1, 2, 3, 4, 5];
    let data_ptr = original_data.as_ptr();

    let zero_byte = ZeroByte::from_vec(original_data);

    zero_byte.with_bytes(|bytes| {
        assert_eq!(bytes, &[1, 2, 3, 4, 5]);
    });

    zero_byte.with_bytes(|bytes| {
        assert_eq!(bytes.as_ptr(), data_ptr);
    });
}

#[test]
fn constructors_hold_what_they_were_given() {
    assert!(ZeroByte::with_capacity(32).is_empty());
    assert!(ZeroByte::with_capacity(32).capacity() >= 32);
    assert_eq!(ZeroByte::with_capacity(0).len(), 0);
    assert!(ZeroByte::from_text("héllo").constant_time_eq("héllo".as_bytes()));
    assert_eq!(ZeroByte::from_text("héllo").len(), 6);
    assert!(ZeroByte::from_bytes(&[]).is_empty());
    assert!(!ZeroByte::from_vec(vec![0]).is_empty());
}

#[test]
fn capacity_is_never_below_length_and_reserve_keeps_contents() {
    let mut buf = ZeroByte::from_bytes(b"abc");
    assert!(buf.capacity() >= 3);
    buf.reserve(100);
    assert!(buf.capacity() >= 103);
    assert!(buf.constant_time_eq(b"abc"));
}

#[test]
fn with_bytes_returns_what_the_closure_returns() {
    let buf = ZeroByte::from_bytes(&[1, 2, 3]);
    let sum: u32 = buf.with_bytes(|bytes| bytes.iter().map(|b| *b as u32).sum());
    assert_eq!(sum, 6);
}

#[test]
fn with_bytes_mut_changes_bytes_in_place() {
    let mut buf = ZeroByte::from_bytes(&[1, 2, 3]);
    let first = buf.with_bytes_mut(|bytes| {
        bytes[1] = 9;
        bytes[0]
    });
    assert_eq!(first, 1);
    assert!(buf.constant_time_eq(&[1, 9, 3]));
    assert_eq!(buf.len(), 3);
}

#[test]
fn constant_time_equality_compares_every_byte() {
    let buf = ZeroByte::from_bytes(b"secret");
    assert!(buf.constant_time_eq(b"secret"));
    assert!(!buf.constant_time_eq(b"secreT"));
    assert!(!buf.constant_time_eq(b"Secret"));
    assert!(!buf.constant_time_eq(b"secre"));
    assert!(!buf.constant_time_eq(b"secrets"));
    assert!(!buf.constant_time_eq(b""));
    assert!(ZeroByte::with_capacity(0).constant_time_eq(b""));

    let same = ZeroByte::from_bytes(b"secret");
    let other = ZeroByte::from_bytes(b"secreu");
    assert!(buf.constant_time_eq_zero_byte(&same));
    assert!(!buf.constant_time_eq_zero_byte(&other));
    assert!(buf == same);
    assert!(buf != other);
}

#[test]
fn copy_range_and_split_leave_the_source_whole() {
    let buf = ZeroByte::from_bytes(b"secret");
    assert!(buf.secure_copy_range(1, 4).constant_time_eq(b"ecr"));
    assert!(buf.secure_copy_range(0, 6).constant_time_eq(b"secret"));
    assert!(buf.secure_copy_range(3, 3).is_empty());

    let (left, right) = buf.secure_split_at(2);
    assert!(left.constant_time_eq(b"se"));
    assert!(right.constant_time_eq(b"cret"));
    let (all, none) = buf.secure_split_at(6);
    assert!(all.constant_time_eq(b"secret"));
    assert!(none.is_empty());
    let (none, all) = buf.secure_split_at(0);
    assert!(none.is_empty());
    assert!(all.constant_time_eq(b"secret"));
    assert!(buf.constant_time_eq(b"secret"));
}

#[test]
fn extending_and_appending_add_at_the_end() {
    let mut buf = ZeroByte::from_bytes(b"ab");
    buf.extend_from_slice(b"cd");
    assert!(buf.constant_time_eq(b"abcd"));
    buf.extend_from_slice(b"");
    assert!(buf.constant_time_eq(b"abcd"));

    let other = ZeroByte::from_bytes(b"ef");
    buf.extend_from_zero_byte(&other);
    assert!(buf.constant_time_eq(b"abcdef"));
    assert!(other.constant_time_eq(b"ef"));

    buf.append(other);
    assert!(buf.constant_time_eq(b"abcdefef"));
    buf.append(ZeroByte::with_capacity(4));
    assert_eq!(buf.len(), 8);
}

#[test]
fn truncate_beyond_the_length_changes_nothing() {
    let mut buf = ZeroByte::from_bytes(b"secret");
    buf.truncate(6);
    assert!(buf.constant_time_eq(b"secret"));
    buf.truncate(100);
    assert!(buf.constant_time_eq(b"secret"));
    buf.truncate(0);
    assert!(buf.is_empty());
}

#[test]
fn resize_to_the_same_length_changes_nothing() {
    let mut buf = ZeroByte::from_bytes(b"secret");
    buf.resize(6, b'X');
    assert!(buf.constant_time_eq(b"secret"));
    buf.resize(0, b'X');
    assert!(buf.is_empty());
    buf.resize(3, 7);
    assert!(buf.constant_time_eq(&[7, 7, 7]));
}

#[test]
fn clear_can_be_followed_by_new_contents() {
    let mut buf = ZeroByte::from_bytes(b"secret");
    buf.clear();
    assert_eq!(buf.len(), 0);
    buf.with_bytes(|bytes| assert!(bytes.is_empty()));
    buf.push(b'x');
    assert!(buf.constant_time_eq(b"x"));
}

#[test]
fn push_and_pop_work_at_the_end() {
    let mut buf = ZeroByte::with_capacity(2);
    assert_eq!(buf.pop(), None);
    buf.push(1);
    buf.push(2);
    assert!(buf.constant_time_eq(&[1, 2]));
    assert_eq!(buf.pop(), Some(2));
    assert_eq!(buf.pop(), Some(1));
    assert_eq!(buf.pop(), None);
    assert!(buf.is_empty());
}

#[test]
fn get_and_set_check_the_index() {
    let mut buf = ZeroByte::from_bytes(b"abc");
    assert_eq!(buf.get(0), Some(b'a'));
    assert_eq!(buf.get(2), Some(b'c'));
    assert_eq!(buf.get(3), None);
    assert_eq!(buf.set(1, b'X'), Ok(()));
    assert!(buf.constant_time_eq(b"aXc"));
    assert_eq!(buf.set(3, b'Y'), Err("Index out of bounds"));
    assert!(buf.constant_time_eq(b"aXc"));
}

#[test]
fn starts_with_and_ends_with() {
    let buf = ZeroByte::from_bytes(b"secret");
    assert!(buf.secure_starts_with(b"sec"));
    assert!(buf.secure_starts_with(b""));
    assert!(buf.secure_starts_with(b"secret"));
    assert!(!buf.secure_starts_with(b"ret"));
    assert!(!buf.secure_starts_with(b"secrets"));

    assert!(buf.secure_ends_with(b"ret"));
    assert!(buf.secure_ends_with(b""));
    assert!(buf.secure_ends_with(b"secret"));
    assert!(!buf.secure_ends_with(b"sec"));
    assert!(!buf.secure_ends_with(b"a secret"));
}

#[test]
fn clones_are_equal_and_independent() {
    let buf = ZeroByte::from_bytes(b"secret");
    let mut copy = buf.secure_clone();
    let other = buf.clone();
    assert!(copy == buf);
    assert!(other == buf);
    copy.push(b'!');
    assert!(buf.constant_time_eq(b"secret"));
    assert!(copy.constant_time_eq(b"secret!"));
}

#[test]
fn into_vec_hands_the_bytes_out() {
    assert_eq!(ZeroByte::from_bytes(b"secret").into_vec(), b"secret".to_vec());
    assert_eq!(ZeroByte::with_capacity(3).into_vec(), Vec::<u8>::new());
}

#[test]
fn display_text_falls_back_to_lossy_decoding() {
    assert_eq!(ZeroByte::from_text("pässword").to_string_secure(), "pässword");
    assert_eq!(ZeroByte::from_bytes(&[b'a', 0xFF, b'b']).to_string_secure(), "a\u{FFFD}b");
    assert_eq!(ZeroByte::from_bytes(&[0xC3]).to_string_secure(), "\u{FFFD}");
    assert_eq!(ZeroByte::with_capacity(0).to_string_secure(), "");
}
