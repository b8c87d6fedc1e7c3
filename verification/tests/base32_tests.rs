use kernel_oss::ulid::base32::{
    decode, encode, encode_to, encode_to_array, DecodeError, EncodeError, ALPHABET, LOOKUP,
    NO_VALUE, ULID_LEN,
};

/// Generator code for `LOOKUP`
#[test]
fn test_lookup_table() {
    let mut lookup = [NO_VALUE; 256];
    for (i, &c) in ALPHABET.iter().enumerate() {
        lookup[c as usize] = i as u8;
        if !(c as char).is_numeric() {
            //lowercase
            lookup[(c + 32) as usize] = i as u8;
        }
    }
    assert_eq!(LOOKUP, lookup);
}

#[test]
fn test_valid() {
    let val = 0x41414141414141414141414141414141;
    assert_eq!(decode("21850M2GA1850M2GA1850M2GA1").unwrap(), val);
    assert_eq!(encode(val), "21850M2GA1850M2GA1850M2GA1");

    let val = 0x4d4e385051444a59454234335a413756;
    let enc = "2D9RW50MA499CMAGHM6DD42DTP";
    let lower = enc.to_lowercase();
    assert_eq!(encode(val), enc);
    assert_eq!(decode(enc).unwrap(), val);
    assert_eq!(decode(&lower).unwrap(), val);
}

#[test]
fn test_length() {
    assert_eq!(encode(0xffffffffffffffffffffffffffffffff).len(), ULID_LEN);
    assert_eq!(encode(0x0f0f0f0f0f0f0f0f0f0f0f0f0f0f0f0f).len(), ULID_LEN);
    assert_eq!(encode(0x00000000000000000000000000000000).len(), ULID_LEN);

    assert_eq!(decode(""), Err(DecodeError::InvalidLength));
    assert_eq!(
        decode("2D9RW50MA499CMAGHM6DD42DT"),
        Err(DecodeError::InvalidLength)
    );
    assert_eq!(
        decode("2D9RW50MA499CMAGHM6DD42DTPP"),
        Err(DecodeError::InvalidLength)
    );
}

#[test]
fn test_chars() {
    for ref c in encode(0xffffffffffffffffffffffffffffffff).bytes() {
        assert!(ALPHABET.contains(c));
    }
    for ref c in encode(0x0f0f0f0f0f0f0f0f0f0f0f0f0f0f0f0f).bytes() {
        assert!(ALPHABET.contains(c));
    }
    for ref c in encode(0x00000000000000000000000000000000).bytes() {
        assert!(ALPHABET.contains(c));
    }

    assert_eq!(
        decode("2D9RW50[A499CMAGHM6DD42DTP"),
        Err(DecodeError::InvalidChar)
    );
    assert_eq!(
        decode("2D9RW50LA499CMAGHM6DD42DTP"),
        Err(DecodeError::InvalidChar)
    );
    assert_eq!(
        decode("2D9RW50IA499CMAGHM6DD42DTP"),
        Err(DecodeError::InvalidChar)
    );
}

#[test]
fn alphabet_is_crockford() {
    assert_eq!(&ALPHABET, b"0123456789ABCDEFGHJKMNPQRSTVWXYZ");
    assert_eq!(ULID_LEN, 26);
    assert_eq!(NO_VALUE, 255);
}

#[test]
fn encode_extremes() {
    assert_eq!(encode(0), "00000000000000000000000000");
    assert_eq!(encode(1), "00000000000000000000000001");
    assert_eq!(encode(31), "0000000000000000000000000Z");
    assert_eq!(encode(32), "00000000000000000000000010");
    assert_eq!(encode(u128::MAX), "7ZZZZZZZZZZZZZZZZZZZZZZZZZ");
    assert_eq!(encode(1u128 << 125), "10000000000000000000000000");
}

#[test]
fn round_trip_value_text_value() {
    let samples: [u128; 8] = [
        0,
        1,
        31,
        32,
        0x0123456789abcdef0123456789abcdef,
        0x41414141414141414141414141414141,
        u128::MAX - 1,
        u128::MAX,
    ];
    for v in samples {
        assert_eq!(decode(&encode(v)), Ok(v));
    }
    let mut v: u128 = 1;
    for _ in 0..127 {
        v = v.wrapping_mul(3).wrapping_add(0x9e3779b97f4a7c15);
        assert_eq!(decode(&encode(v)), Ok(v));
    }
}

#[test]
fn round_trip_text_value_text() {
    let texts = [
        "01BX5ZZKBKAZZZZZZZZZZZZZZZ",
        "7ZZZZZZZZZZZZZZZZZZZZZZZZZ",
        "00000000000000000000000000",
        "01fkmg6gag0pjanmwfn84tnxcd",
        "2d9rw50ma499cmaghm6dd42dtp",
    ];
    for s in texts {
        assert_eq!(encode(decode(s).unwrap()), s.to_uppercase());
    }
}

#[test]
fn decode_ignores_case() {
    let mixed = "01bX5zZkBkAzZzZzZzZzZzZzZz";
    assert_eq!(decode(mixed), decode(&mixed.to_uppercase()));
    assert_eq!(decode(mixed), decode(&mixed.to_lowercase()));
    assert_eq!(decode(mixed), decode("01BX5ZZKBKAZZZZZZZZZZZZZZZ"));
}

#[test]
fn decode_rejects_excluded_letters_in_either_case() {
    for c in ["I", "L", "O", "U", "i", "l", "o", "u", "[", "@", " ", "-", "~", "`", "{", "/", ":"] {
        let text = format!("2D9RW50{}A499CMAGHM6DD42DTP", c);
        assert_eq!(text.len(), 26);
        assert_eq!(decode(&text), Err(DecodeError::InvalidChar));
    }
}

#[test]
fn decode_judges_length_before_characters() {
    assert_eq!(decode("IIII"), Err(DecodeError::InvalidLength));
    assert_eq!(decode("[[[[[[[[[[[[[[[[[[[[[[[[[[["), Err(DecodeError::InvalidLength));
    assert_eq!(decode("0"), Err(DecodeError::InvalidLength));
}

#[test]
fn decode_counts_bytes_not_characters() {
    let text = "é000000000000000000000000";
    assert_eq!(text.chars().count(), 25);
    assert_eq!(text.len(), 26);
    assert_eq!(decode(text), Err(DecodeError::InvalidChar));
    let text = "é0000000000000000000000000";
    assert_eq!(text.chars().count(), 26);
    assert_eq!(decode(text), Err(DecodeError::InvalidLength));
}

/// A leading digit above 7 needs more than 128 bits. This is a deliberate
/// choice: decoding does not reject such a text, and the two bits that do
/// not fit are lost.
#[test]
fn decode_drops_bits_beyond_128_of_an_overlong_text() {
    assert_eq!(decode("80000000000000000000000000"), Ok(0));
    assert_eq!(decode("ZZZZZZZZZZZZZZZZZZZZZZZZZZ"), Ok(u128::MAX));
    assert_eq!(decode("G0000000000000000000000001"), Ok(1));
    assert_eq!(decode("90000000000000000000000000"), Ok(1u128 << 125));
    assert_eq!(encode(decode("ZZZZZZZZZZZZZZZZZZZZZZZZZZ").unwrap()), "7ZZZZZZZZZZZZZZZZZZZZZZZZZ");
}

#[test]
fn text_order_is_value_order() {
    let values: [u128; 9] = [
        0,
        1,
        31,
        32,
        1023,
        1024,
        0x0123456789abcdef0123456789abcdef,
        u128::MAX - 1,
        u128::MAX,
    ];
    for a in values {
        for b in values {
            assert_eq!(a < b, encode(a) < encode(b));
            assert_eq!(a < b, encode(a).as_bytes() < encode(b).as_bytes());
        }
    }
}

#[test]
fn encode_to_array_fills_the_buffer() {
    let mut buffer = [0u8; ULID_LEN];
    encode_to_array(0x41414141414141414141414141414141, &mut buffer);
    assert_eq!(&buffer, b"21850M2GA1850M2GA1850M2GA1");
    encode_to_array(0, &mut buffer);
    assert_eq!(&buffer, b"00000000000000000000000000");
}

#[test]
fn encode_to_reports_a_short_buffer() {
    let mut short = [7u8; 25];
    assert_eq!(encode_to(1, &mut short), Err(EncodeError::BufferTooSmall));
    assert_eq!(short, [7u8; 25]);
    let mut empty: [u8; 0] = [];
    assert_eq!(encode_to(1, &mut empty), Err(EncodeError::BufferTooSmall));
}

#[test]
fn encode_to_writes_the_first_26_bytes() {
    let mut exact = [0u8; 26];
    assert_eq!(encode_to(0x4d4e385051444a59454234335a413756, &mut exact), Ok(26));
    assert_eq!(&exact, b"2D9RW50MA499CMAGHM6DD42DTP");
    let mut long = [b'#'; 30];
    assert_eq!(encode_to(u128::MAX, &mut long), Ok(26));
    assert_eq!(&long[..26], b"7ZZZZZZZZZZZZZZZZZZZZZZZZZ");
    assert_eq!(&long[26..], b"####");
}

#[test]
fn error_descriptions() {
    assert_eq!(DecodeError::InvalidLength.to_string(), "invalid length");
    assert_eq!(DecodeError::InvalidChar.to_string(), "invalid character");
    assert_eq!(EncodeError::BufferTooSmall.to_string(), "buffer too small");
}
