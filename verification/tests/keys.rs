use cel_value::key_order::compare_bytes;
use cel_value::{CelError, CelKey, CelType, KeyOrder};
use std::cmp::Ordering;
use std::collections::hash_map::DefaultHasher;
use std::hash::{Hash, Hasher};
use std::rc::Rc;

fn sample_keys() -> Vec<CelKey> {
    vec![
        CelKey::Int(i64::MIN),
        CelKey::Int(-1),
        CelKey::Int(0),
        CelKey::Int(1),
        CelKey::Int(i64::MAX),
        CelKey::UInt(0),
        CelKey::UInt(1),
        CelKey::UInt(u64::MAX),
        CelKey::Bool(false),
        CelKey::Bool(true),
        CelKey::from(""),
        CelKey::from("0"),
        CelKey::from("A"),
        CelKey::from("a"),
        CelKey::from("a\u{0}"),
        CelKey::from("ab"),
        CelKey::from("b"),
        CelKey::from("z"),
        CelKey::from("\u{e9}"),
        CelKey::from("\u{20ac}"),
        CelKey::from("\u{1f600}"),
    ]
}

fn hash_of(k: &CelKey) -> u64 {
    let mut h = DefaultHasher::new();
    k.hash(&mut h);
    h.finish()
}

#[test]
fn compare_orders_by_category_then_payload() {
    let keys = sample_keys();
    for i in 0..keys.len() {
        for j in 0..keys.len() {
            let expected = if i < j {
                KeyOrder::Less
            } else if i == j {
                KeyOrder::Equal
            } else {
                KeyOrder::Greater
            };
            assert_eq!(keys[i].compare(&keys[j]), expected, "{:?} against {:?}", keys[i], keys[j]);
        }
    }
}

#[test]
fn compare_agrees_with_the_standard_comparisons() {
    let keys = sample_keys();
    for a in keys.iter() {
        for b in keys.iter() {
            let expected = match a.compare(b) {
                KeyOrder::Less => Ordering::Less,
                KeyOrder::Equal => Ordering::Equal,
                KeyOrder::Greater => Ordering::Greater,
            };
            assert_eq!(a.cmp(b), expected);
            assert_eq!(a.partial_cmp(b), Some(expected));
            assert_eq!(a == b, expected == Ordering::Equal);
            assert_eq!(a < b, expected == Ordering::Less);
        }
    }
}

#[test]
fn equal_keys_hash_alike() {
    let a = CelKey::from("same");
    let b = CelKey::from(String::from("same"));
    let c = CelKey::from(&Rc::new(String::from("same")));
    assert_eq!(a, b);
    assert_eq!(b, c);
    assert_eq!(hash_of(&a), hash_of(&b));
    assert_eq!(hash_of(&b), hash_of(&c));
    assert_eq!(hash_of(&CelKey::Int(7)), hash_of(&CelKey::Int(7)));
}

#[test]
fn keys_of_different_categories_are_never_equal() {
    assert_ne!(CelKey::Int(1), CelKey::UInt(1));
    assert_ne!(CelKey::Int(1), CelKey::from("1"));
    assert_ne!(CelKey::Bool(true), CelKey::from("true"));
    assert_ne!(CelKey::UInt(0), CelKey::Bool(false));
}

#[test]
fn compare_bytes_is_dictionary_order() {
    assert_eq!(compare_bytes(b"", b""), KeyOrder::Equal);
    assert_eq!(compare_bytes(b"", b"a"), KeyOrder::Less);
    assert_eq!(compare_bytes(b"a", b""), KeyOrder::Greater);
    assert_eq!(compare_bytes(b"abc", b"abd"), KeyOrder::Less);
    assert_eq!(compare_bytes(b"abd", b"abc"), KeyOrder::Greater);
    assert_eq!(compare_bytes(b"abc", b"abc"), KeyOrder::Equal);
    assert_eq!(compare_bytes(b"ab", b"abc"), KeyOrder::Less);
    assert_eq!(compare_bytes(b"abc", b"ab"), KeyOrder::Greater);
    assert_eq!(compare_bytes(b"b", b"abc"), KeyOrder::Greater);
    assert_eq!(compare_bytes(&[0x7f], &[0x80]), KeyOrder::Less);
    assert_eq!(compare_bytes(&[0xff], &[0x00, 0x00]), KeyOrder::Greater);
}

#[test]
fn key_text_is_the_canonical_text_of_each_category() {
    assert_eq!(CelKey::Int(0).to_text(), "0");
    assert_eq!(CelKey::Int(-42).to_text(), "-42");
    assert_eq!(CelKey::Int(i64::MIN).to_text(), "-9223372036854775808");
    assert_eq!(CelKey::Int(i64::MAX).to_text(), "9223372036854775807");
    assert_eq!(CelKey::UInt(0).to_text(), "0");
    assert_eq!(CelKey::UInt(u64::MAX).to_text(), "18446744073709551615");
    assert_eq!(CelKey::Bool(true).to_text(), "true");
    assert_eq!(CelKey::Bool(false).to_text(), "false");
    assert_eq!(CelKey::from("name").to_text(), "name");
    assert_eq!(CelKey::from("").to_text(), "");
}

#[test]
fn text_is_extracted_from_a_text_key_only() {
    assert_eq!(String::try_from(&CelKey::from("name")), Ok(String::from("name")));
    assert_eq!(
        String::try_from(&CelKey::Int(1)),
        Err(CelError::BadType(CelType::String, CelType::Int))
    );
    assert_eq!(
        String::try_from(&CelKey::UInt(1)),
        Err(CelError::BadType(CelType::String, CelType::UInt))
    );
    assert_eq!(
        String::try_from(&CelKey::Bool(true)),
        Err(CelError::BadType(CelType::String, CelType::Bool))
    );
}

#[test]
fn a_key_has_one_of_four_categories() {
    assert_eq!(CelType::from(&CelKey::Int(1)), CelType::Int);
    assert_eq!(CelType::from(&CelKey::UInt(1)), CelType::UInt);
    assert_eq!(CelType::from(&CelKey::Bool(false)), CelType::Bool);
    assert_eq!(CelType::from(&CelKey::from("k")), CelType::String);
    for key in sample_keys().iter() {
        let tag = CelType::from(key);
        assert!(matches!(tag, CelType::Int | CelType::UInt | CelType::Bool | CelType::String));
    }
}

#[test]
fn a_key_made_from_shared_text_shares_it() {
    let shared = Rc::new(String::from("id"));
    let key = CelKey::from(&shared);
    match key {
        CelKey::String(s) => assert!(Rc::ptr_eq(&s, &shared)),
        other => panic!("expected a text key, found {:?}", other),
    }
}
