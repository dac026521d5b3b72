use cel_value::text::{base64_encode, i64_text, u64_text};

#[test]
fn unsigned_numerals_match_the_standard_ones() {
    let samples: [u64; 14] = [
        0,
        1,
        9,
        10,
        11,
        99,
        100,
        101,
        12345,
        1_000_000,
        4_294_967_295,
        4_294_967_296,
        u64::MAX - 1,
        u64::MAX,
    ];
    for n in samples.iter() {
        assert_eq!(u64_text(*n), n.to_string());
    }
    assert_eq!(u64_text(0), "0");
    assert_eq!(u64_text(1000), "1000");
    assert_eq!(u64_text(u64::MAX), "18446744073709551615");
}

#[test]
fn signed_numerals_match_the_standard_ones() {
    let samples: [i64; 13] = [
        0,
        1,
        -1,
        9,
        -9,
        10,
        -10,
        12345,
        -12345,
        i64::MAX,
        i64::MIN,
        i64::MIN + 1,
        i64::MAX - 1,
    ];
    for n in samples.iter() {
        assert_eq!(i64_text(*n), n.to_string());
    }
    assert_eq!(i64_text(-1), "-1");
    assert_eq!(i64_text(i64::MIN), "-9223372036854775808");
}

#[test]
fn base64_of_the_standard_test_vectors() {
    assert_eq!(base64_encode(b""), "");
    assert_eq!(base64_encode(b"f"), "Zg==");
    assert_eq!(base64_encode(b"fo"), "Zm8=");
    assert_eq!(base64_encode(b"foo"), "Zm9v");
    assert_eq!(base64_encode(b"foob"), "Zm9vYg==");
    assert_eq!(base64_encode(b"fooba"), "Zm9vYmE=");
    assert_eq!(base64_encode(b"foobar"), "Zm9vYmFy");
}

#[test]
fn base64_uses_every_symbol_of_the_alphabet() {
    let bytes: Vec<u8> = vec![
        0x00, 0x10, 0x83, 0x10, 0x51, 0x87, 0x20, 0x92, 0x8b, 0x30, 0xd3, 0x8f, 0x41, 0x14, 0x93,
        0x51, 0x55, 0x97, 0x61, 0x96, 0x9b, 0x71, 0xd7, 0x9f, 0x82, 0x18, 0xa3, 0x92, 0x59, 0xa7,
        0xa2, 0x9a, 0xab, 0xb2, 0xdb, 0xaf, 0xc3, 0x1c, 0xb3, 0xd3, 0x5d, 0xb7, 0xe3, 0x9e, 0xbb,
        0xf3, 0xdf, 0xbf,
    ];
    assert_eq!(
        base64_encode(&bytes),
        "ABCDEFGHIJKLMNOPQRSTUVWXYZabcdefghijklmnopqrstuvwxyz0123456789+/"
    );
}

#[test]
fn base64_of_extreme_bytes() {
    assert_eq!(base64_encode(&[0x00]), "AA==");
    assert_eq!(base64_encode(&[0xff]), "/w==");
    assert_eq!(base64_encode(&[0xff, 0xff]), "//8=");
    assert_eq!(base64_encode(&[0xff, 0xff, 0xff]), "////");
    assert_eq!(base64_encode(&[0x00, 0x00, 0x00]), "AAAA");
    assert_eq!(base64_encode(&[0xfb, 0xf0]), "+/A=");
}

#[test]
fn base64_length_is_four_symbols_for_every_three_bytes() {
    for n in 0..50usize {
        let bytes: Vec<u8> = (0..n).map(|i| (i * 7 % 256) as u8).collect();
        assert_eq!(base64_encode(&bytes).len(), (n + 2) / 3 * 4);
    }
}
