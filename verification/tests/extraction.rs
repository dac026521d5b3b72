use cel_value::{CelError, CelMap, CelType, CelValue};
use chrono::NaiveDate;
use rust_decimal::Decimal;
use std::rc::Rc;
use std::str::FromStr;
use uuid::Uuid;

fn date(y: i32, m: u32, d: u32) -> NaiveDate {
    NaiveDate::from_ymd_opt(y, m, d).unwrap()
}

fn one_of_each() -> Vec<(CelValue, CelType)> {
    vec![
        (CelValue::from(CelMap::new()), CelType::Dict),
        (CelValue::Int(-7), CelType::Int),
        (CelValue::UInt(7), CelType::UInt),
        (CelValue::Double(Decimal::new(1999, 2)), CelType::Double),
        (CelValue::from("text"), CelType::String),
        (CelValue::Bytes(Rc::new(vec![1, 2, 3])), CelType::Bytes),
        (CelValue::Bool(true), CelType::Bool),
        (CelValue::Null, CelType::Null),
        (CelValue::Date(date(2024, 2, 29)), CelType::Date),
        (CelValue::Uuid(Uuid::from_u128(0x1234)), CelType::Uuid),
    ]
}

#[test]
fn every_value_has_the_tag_of_its_category() {
    for (value, tag) in one_of_each().iter() {
        assert_eq!(CelType::from(value), *tag);
    }
}

#[test]
fn tags_have_their_names() {
    assert_eq!(CelType::Dict.name(), "Map");
    assert_eq!(CelType::Int.name(), "Int");
    assert_eq!(CelType::UInt.name(), "UInt");
    assert_eq!(CelType::Double.name(), "Double");
    assert_eq!(CelType::String.name(), "String");
    assert_eq!(CelType::Bytes.name(), "Bytes");
    assert_eq!(CelType::Bool.name(), "Bool");
    assert_eq!(CelType::Null.name(), "Null");
    assert_eq!(CelType::Date.name(), "Date");
    assert_eq!(CelType::Uuid.name(), "Uuid");
}

#[test]
fn boolean_extraction_of_an_integer_is_a_type_mismatch() {
    assert_eq!(
        CelValue::Int(1).try_bool(),
        Err(CelError::BadType(CelType::Bool, CelType::Int))
    );
}

#[test]
fn boolean_extraction_succeeds_on_booleans_only() {
    assert_eq!(CelValue::Bool(true).try_bool(), Ok(true));
    assert_eq!(CelValue::Bool(false).try_bool(), Ok(false));
    for (value, tag) in one_of_each().iter() {
        if *tag != CelType::Bool {
            assert_eq!(value.try_bool(), Err(CelError::BadType(CelType::Bool, *tag)));
        }
    }
}

#[test]
fn integer_extraction_succeeds_on_signed_integers_only() {
    assert_eq!(CelValue::Int(i64::MIN).try_int(), Ok(i64::MIN));
    assert_eq!(CelValue::Int(0).try_int(), Ok(0));
    for (value, tag) in one_of_each().iter() {
        if *tag != CelType::Int {
            assert_eq!(value.try_int(), Err(CelError::BadType(CelType::Int, *tag)));
        }
    }
}

#[test]
fn integer_extraction_of_a_decimal_is_a_type_mismatch() {
    let value = CelValue::Double(Decimal::new(3, 0));
    assert_eq!(value.try_int(), Err(CelError::BadType(CelType::Int, CelType::Double)));
}

#[test]
fn text_extraction_succeeds_on_text_only() {
    assert_eq!(String::try_from(CelValue::from("Ada")), Ok(String::from("Ada")));
    assert_eq!(String::try_from(CelValue::from("")), Ok(String::new()));
    for (value, tag) in one_of_each() {
        if tag != CelType::String {
            assert_eq!(String::try_from(value), Err(CelError::BadType(CelType::String, tag)));
        }
    }
}

#[test]
fn shared_text_extraction_shares_the_text() {
    let shared = Rc::new(String::from("shared"));
    let value = CelValue::String(shared.clone());
    let got = Rc::<String>::try_from(&value).unwrap();
    assert!(Rc::ptr_eq(&got, &shared));
    for (value, tag) in one_of_each().iter() {
        if *tag != CelType::String {
            assert_eq!(
                Rc::<String>::try_from(value),
                Err(CelError::BadType(CelType::String, *tag))
            );
        }
    }
}

#[test]
fn date_extraction_succeeds_on_dates_only() {
    let d = date(1999, 12, 31);
    assert_eq!(NaiveDate::try_from(CelValue::Date(d)), Ok(d));
    for (value, tag) in one_of_each() {
        if tag != CelType::Date {
            assert_eq!(NaiveDate::try_from(value), Err(CelError::BadType(CelType::Date, tag)));
        }
    }
}

#[test]
fn identifier_extraction_succeeds_on_identifiers_only() {
    let id = Uuid::from_u128(0xa1a2a3a4_b1b2_c1c2_d1d2_d3d4d5d6d7d8);
    assert_eq!(Uuid::try_from(CelValue::Uuid(id)), Ok(id));
    for (value, tag) in one_of_each() {
        if tag != CelType::Uuid {
            assert_eq!(Uuid::try_from(value), Err(CelError::BadType(CelType::Uuid, tag)));
        }
    }
}

#[test]
fn decimal_extraction_gives_the_decimal_of_a_decimal_value() {
    let d = Decimal::from_str("19.99").unwrap();
    let got = Decimal::try_from(CelValue::Double(d)).unwrap();
    assert_eq!(got, d);
    assert_eq!(got.mantissa(), 1999);
    assert_eq!(got.scale(), 2);
}

#[test]
fn decimal_extraction_widens_integers_exactly() {
    let cases: [i64; 7] = [0, 1, -1, 42, -42, i64::MAX, i64::MIN];
    for n in cases.iter() {
        let got = Decimal::try_from(CelValue::Int(*n)).unwrap();
        assert_eq!(got.mantissa(), *n as i128);
        assert_eq!(got.scale(), 0);
        assert_eq!(got.to_string(), n.to_string());
    }
    let unsigned: [u64; 4] = [0, 1, 42, u64::MAX];
    for n in unsigned.iter() {
        let got = Decimal::try_from(CelValue::UInt(*n)).unwrap();
        assert_eq!(got.mantissa(), *n as i128);
        assert_eq!(got.scale(), 0);
        assert_eq!(got.to_string(), n.to_string());
    }
    assert_eq!(Decimal::try_from(CelValue::Int(30)), Ok(Decimal::new(30, 0)));
}

#[test]
fn decimal_extraction_fails_on_what_is_no_number() {
    for (value, tag) in one_of_each() {
        if tag != CelType::Double && tag != CelType::Int && tag != CelType::UInt {
            assert_eq!(Decimal::try_from(value), Err(CelError::BadType(CelType::Double, tag)));
        }
    }
}

#[test]
fn lifted_native_values_come_back_unchanged() {
    assert_eq!(String::try_from(CelValue::from("round trip")), Ok(String::from("round trip")));
    assert_eq!(CelValue::from(-12345i64).try_int(), Ok(-12345));
    assert_eq!(CelValue::from(i64::MAX).try_int(), Ok(i64::MAX));
    let d = Decimal::from_str("-0.001").unwrap();
    let back = Decimal::try_from(CelValue::from(d)).unwrap();
    assert_eq!(back, d);
    assert_eq!(back.scale(), 3);
    let day = date(2020, 1, 2);
    assert_eq!(NaiveDate::try_from(CelValue::from(day)), Ok(day));
}

#[test]
fn lifts_give_the_value_of_the_matching_category() {
    assert_eq!(CelValue::from(5i64), CelValue::Int(5));
    assert_eq!(CelValue::from("s"), CelValue::String(Rc::new(String::from("s"))));
    let d = Decimal::new(15, 1);
    assert_eq!(CelValue::from(d), CelValue::Double(d));
    let day = date(2001, 9, 9);
    assert_eq!(CelValue::from(day), CelValue::Date(day));
    let mut m = CelMap::new();
    m.insert("k", 1);
    let mut same = CelMap::new();
    same.insert("k", 1);
    assert_eq!(CelValue::from(m), CelValue::Dict(Rc::new(same)));
}

#[test]
fn values_of_different_categories_are_never_equal() {
    let all = one_of_each();
    for (i, (a, _)) in all.iter().enumerate() {
        for (j, (b, _)) in all.iter().enumerate() {
            assert_eq!(a == b, i == j);
        }
    }
    assert_ne!(CelValue::Int(1), CelValue::UInt(1));
    assert_ne!(CelValue::Int(1), CelValue::Double(Decimal::new(1, 0)));
    assert_ne!(CelValue::Bool(false), CelValue::Null);
    assert_ne!(CelValue::from("1"), CelValue::Int(1));
}

#[test]
fn decimal_values_are_equal_when_they_stand_for_the_same_number() {
    let one = CelValue::Double(Decimal::new(10, 1));
    let also_one = CelValue::Double(Decimal::new(100, 2));
    let two = CelValue::Double(Decimal::new(20, 1));
    assert_eq!(one, also_one);
    assert_ne!(one, two);
    assert!(one.equals(&also_one));
    assert!(!one.equals(&two));
}

#[test]
fn values_are_equal_when_their_payloads_are() {
    assert_eq!(CelValue::from("same"), CelValue::String(Rc::new(String::from("same"))));
    assert_ne!(CelValue::from("same"), CelValue::from("other"));
    assert_eq!(CelValue::Bytes(Rc::new(vec![1, 2])), CelValue::Bytes(Rc::new(vec![1, 2])));
    assert_ne!(CelValue::Bytes(Rc::new(vec![1, 2])), CelValue::Bytes(Rc::new(vec![1, 2, 3])));
    assert_ne!(CelValue::Bytes(Rc::new(vec![1, 2])), CelValue::Bytes(Rc::new(vec![1, 3])));
    assert_eq!(CelValue::Null, CelValue::Null);
    assert_ne!(CelValue::Int(1), CelValue::Int(2));
    assert_ne!(CelValue::UInt(1), CelValue::UInt(2));
    assert_ne!(CelValue::Bool(true), CelValue::Bool(false));
    assert_ne!(CelValue::Date(date(2024, 1, 1)), CelValue::Date(date(2024, 1, 2)));
    assert_eq!(CelValue::Date(date(2024, 1, 1)), CelValue::Date(date(2024, 1, 1)));
    assert_ne!(CelValue::Uuid(Uuid::from_u128(1)), CelValue::Uuid(Uuid::from_u128(2)));
    assert_eq!(CelValue::Uuid(Uuid::from_u128(1)), CelValue::Uuid(Uuid::from_u128(1)));
}

#[test]
fn a_clone_is_equal_and_shares_its_payload() {
    for (value, _) in one_of_each().iter() {
        assert_eq!(&value.clone(), value);
    }
    let text = Rc::new(String::from("payload"));
    let bytes = Rc::new(vec![9u8, 8, 7]);
    let map = Rc::new(CelMap::new());
    match CelValue::String(text.clone()).clone() {
        CelValue::String(s) => assert!(Rc::ptr_eq(&s, &text)),
        other => panic!("expected text, found {:?}", other),
    }
    match CelValue::Bytes(bytes.clone()).clone() {
        CelValue::Bytes(b) => assert!(Rc::ptr_eq(&b, &bytes)),
        other => panic!("expected bytes, found {:?}", other),
    }
    match CelValue::Dict(map.clone()).clone() {
        CelValue::Dict(m) => assert!(Rc::ptr_eq(&m, &map)),
        other => panic!("expected a map, found {:?}", other),
    }
}
