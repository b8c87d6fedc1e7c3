use kernel_oss::ulid::base32::{DecodeError, EncodeError};
use kernel_oss::ulid::ULID;
use std::str::FromStr;

#[test]
fn test_static() {
    let s = ULID(0x41414141414141414141414141414141).to_string();
    let u = ULID::from_string(&s).unwrap();
    assert_eq!(&s, "21850M2GA1850M2GA1850M2GA1");
    assert_eq!(u.0, 0x41414141414141414141414141414141);
}

#[test]
fn test_increment() {
    let ulid = ULID::from_string("01BX5ZZKBKAZZZZZZZZZZZZZZZ").unwrap();
    let ulid = ulid.increment().unwrap();
    assert_eq!("01BX5ZZKBKB000000000000000", ulid.to_string());

    let ulid = ULID::from_string("01BX5ZZKBKZZZZZZZZZZZZZZZX").unwrap();
    let ulid = ulid.increment().unwrap();
    assert_eq!("01BX5ZZKBKZZZZZZZZZZZZZZZY", ulid.to_string());
    let ulid = ulid.increment().unwrap();
    assert_eq!("01BX5ZZKBKZZZZZZZZZZZZZZZZ", ulid.to_string());
    assert!(ulid.increment().is_none());
}

#[test]
fn test_increment_overflow() {
    let ulid = ULID(u128::max_value());
    assert!(ulid.increment().is_none());
}

#[test]
fn can_into_thing() {
    let ulid = ULID::from_str("01FKMG6GAG0PJANMWFN84TNXCD").unwrap();
    let s: String = ulid.into();
    let u: u128 = ulid.into();
    let uu: (u64, u64) = ulid.into();
    let bytes: [u8; 16] = ulid.into();

    assert_eq!(ULID::from_str(&s).unwrap(), ulid);
    assert_eq!(ULID::from(u), ulid);
    assert_eq!(ULID::from(uu), ulid);
    assert_eq!(ULID::from(bytes), ulid);
}

#[test]
fn default_is_nil() {
    assert_eq!(ULID::default(), ULID::nil());
}

#[test]
fn can_display_things() {
    println!("{}", ULID::nil().to_string());
    println!("{}", EncodeError::BufferTooSmall.to_string());
    println!("{}", DecodeError::InvalidLength.to_string());
    println!("{}", DecodeError::InvalidChar.to_string());
}

#[test]
fn nil_identity() {
    assert_eq!(ULID::nil().to_string(), "00000000000000000000000000");
    assert!(ULID::nil().is_nil());
    assert_eq!(ULID::nil().0, 0);
    assert!(!ULID(1).is_nil());
    assert!(!ULID(u128::MAX).is_nil());
}

#[test]
fn from_parts_lays_out_time_above_random() {
    let id = ULID::from_parts(1, 2);
    assert_eq!(id.0, (1u128 << 80) | 2);
    assert_eq!(id.random(), 2);
    let id = ULID::from_parts(0x0000_1234_5678_9abc, 0x0000_0000_0000_ffff_eeee_dddd_cccc_bbbb);
    assert_eq!(id.0, 0x1234_5678_9abc_ffff_eeee_dddd_cccc_bbbb);
}

#[test]
fn from_parts_drops_bits_beyond_the_fields() {
    let id = ULID::from_parts(u64::MAX, u128::MAX);
    assert_eq!(id.0, u128::MAX);
    let id = ULID::from_parts(1u64 << 48, 1u128 << 80);
    assert_eq!(id.0, 0);
    let id = ULID::from_parts((1u64 << 48) | 5, (1u128 << 80) | 9);
    assert_eq!(id, ULID::from_parts(5, 9));
    assert_eq!(id.random(), 9);
    assert_eq!(
        ULID::from_parts(1234567890123456789, 12345678901234567890123456789012345678),
        ULID::from_parts(1234567890123456789, 12345678901234567890123456789012345678)
    );
}

#[test]
fn random_is_the_low_80_bits() {
    assert_eq!(ULID(u128::MAX).random(), (1u128 << 80) - 1);
    assert_eq!(ULID(1u128 << 80).random(), 0);
    assert_eq!(ULID((7u128 << 80) | 42).random(), 42);
    let ulid = ULID::from_string("01D39ZY06FGSCTVN4T2V9PKHFZ").unwrap();
    let next = ulid.increment().unwrap();
    assert_eq!(ulid.random() + 1, next.random());
}

#[test]
fn increment_follows_from_parts() {
    let max = (1u128 << 80) - 1;
    for t in [0u64, 1, 1_700_000_000_000, (1u64 << 48) - 1] {
        for r in [0u128, 1, 31, 1u128 << 79, max - 1] {
            assert_eq!(ULID::from_parts(t, r).increment(), Some(ULID::from_parts(t, r + 1)));
        }
        assert_eq!(ULID::from_parts(t, max).increment(), None);
    }
}

#[test]
fn increment_never_changes_the_time() {
    let id = ULID::from_parts(77, (1u128 << 80) - 2);
    let next = id.increment().unwrap();
    assert_eq!(next.0 >> 80, 77);
    assert_eq!(next.random(), (1u128 << 80) - 1);
    assert!(next.increment().is_none());
}

#[test]
fn from_string_passes_errors_on() {
    assert_eq!(ULID::from_string(""), Err(DecodeError::InvalidLength));
    assert_eq!(ULID::from_string("01D39ZY06FGSCTVN4T2V9PKHF"), Err(DecodeError::InvalidLength));
    assert_eq!(ULID::from_string("01D39ZY06FGSCTVN4T2V9PKHFU"), Err(DecodeError::InvalidChar));
    assert_eq!(ULID::from_str("01D39ZY06FGSCTVN4T2V9PKHFU"), Err(DecodeError::InvalidChar));
    assert_eq!(ULID::try_from("01D39ZY06FGSCTVN4T2V9PKHFZZ"), Err(DecodeError::InvalidLength));
    let text = "01D39ZY06FGSCTVN4T2V9PKHFZ";
    assert_eq!(ULID::from_string(text).unwrap().to_string(), text);
    assert_eq!(ULID::try_from(text), ULID::from_string(text));
}

#[test]
fn bytes_are_big_endian() {
    assert_eq!(ULID::from_bytes([0xFF; 16]).to_string(), "7ZZZZZZZZZZZZZZZZZZZZZZZZZ");
    assert_eq!(ULID::from_string("7ZZZZZZZZZZZZZZZZZZZZZZZZZ").unwrap().to_bytes(), [0xFF; 16]);
    let bytes: [u8; 16] = [1, 2, 3, 4, 5, 6, 7, 8, 9, 10, 11, 12, 13, 14, 15, 16];
    let id = ULID::from_bytes(bytes);
    assert_eq!(id.0, 0x0102030405060708090a0b0c0d0e0f10);
    assert_eq!(id.0, u128::from_be_bytes(bytes));
    assert_eq!(id.to_bytes(), bytes);
    assert_eq!(ULID(1).to_bytes()[15], 1);
    assert_eq!(ULID(1u128 << 120).to_bytes()[0], 1);
    assert_eq!(ULID::from_parts(0xab00_0000_0000, 0).to_bytes()[0], 0xab);
    assert_eq!(ULID(0x0123456789abcdef0011223344556677).to_bytes(), 0x0123456789abcdef0011223344556677u128.to_be_bytes());
}

#[test]
fn halves_are_high_then_low() {
    let id = ULID::from((0x0123456789abcdefu64, 0xfedcba9876543210u64));
    assert_eq!(id.0, 0x0123456789abcdeffedcba9876543210);
    let halves: (u64, u64) = id.into();
    assert_eq!(halves, (0x0123456789abcdef, 0xfedcba9876543210));
    let halves: (u64, u64) = ULID(u128::MAX).into();
    assert_eq!(halves, (u64::MAX, u64::MAX));
}

#[test]
fn identifiers_order_by_time_then_random() {
    let early = ULID::from_parts(1, (1u128 << 80) - 1);
    let late = ULID::from_parts(2, 0);
    assert!(early < late);
    assert!(late > early);
    assert!(early.to_string() < late.to_string());
    assert!(ULID::from_parts(2, 0) < ULID::from_parts(2, 1));
    assert!(ULID::from_parts(2, 1) <= ULID::from_parts(2, 1));
    assert_eq!(ULID(5).partial_cmp(&ULID(5)), Some(std::cmp::Ordering::Equal));
    assert_eq!(ULID(5).cmp(&ULID(6)), std::cmp::Ordering::Less);
    assert_eq!(ULID(7).partial_cmp(&ULID(6)), Some(std::cmp::Ordering::Greater));
    let mut ids = vec![ULID(3), ULID(1), ULID(2)];
    ids.sort();
    assert_eq!(ids, vec![ULID(1), ULID(2), ULID(3)]);
}
