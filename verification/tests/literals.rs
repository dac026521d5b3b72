use cel_value::{CelError, CelValue, Literal};
use rust_decimal::Decimal;
use std::rc::Rc;
use std::str::FromStr;

fn decimal_literal(text: &str) -> Literal {
    Literal::Double(Rc::new(String::from(text)))
}

#[test]
fn each_literal_gives_the_value_of_its_category() {
    assert_eq!(CelValue::try_from(&Literal::Int(-4)), Ok(CelValue::Int(-4)));
    assert_eq!(CelValue::try_from(&Literal::UInt(4)), Ok(CelValue::UInt(4)));
    assert_eq!(CelValue::try_from(&Literal::Bool(true)), Ok(CelValue::Bool(true)));
    assert_eq!(CelValue::try_from(&Literal::Null), Ok(CelValue::Null));
    assert_eq!(
        CelValue::try_from(&Literal::String(Rc::new(String::from("hi")))),
        Ok(CelValue::from("hi"))
    );
    assert_eq!(
        CelValue::try_from(&Literal::Bytes(Rc::new(vec![1, 2]))),
        Ok(CelValue::Bytes(Rc::new(vec![1, 2])))
    );
}

#[test]
fn a_decimal_literal_is_read_from_its_text() {
    let value = CelValue::try_from(&decimal_literal("19.99")).unwrap();
    assert_eq!(value, CelValue::Double(Decimal::new(1999, 2)));
    match value {
        CelValue::Double(d) => {
            assert_eq!(d.mantissa(), 1999);
            assert_eq!(d.scale(), 2);
        }
        other => panic!("expected a decimal, found {:?}", other),
    }
    assert_eq!(
        CelValue::try_from(&decimal_literal("-0.5")),
        Ok(CelValue::Double(Decimal::new(-5, 1)))
    );
    assert_eq!(CelValue::try_from(&decimal_literal("3")), Ok(CelValue::Double(Decimal::new(3, 0))));
    assert_eq!(
        CelValue::try_from(&decimal_literal("1e3")),
        Ok(CelValue::Double(Decimal::new(1000, 0)))
    );
}

#[test]
fn a_decimal_literal_that_cannot_be_read_is_an_error() {
    let bad = ["", "abc", "1.2.3", "--1", "1e", "."];
    for text in bad.iter() {
        let expected = Decimal::from_str(text).unwrap_err();
        assert_eq!(
            CelValue::try_from(&decimal_literal(text)),
            Err(CelError::DecimalError(expected))
        );
    }
}

#[test]
fn a_decimal_literal_too_large_to_hold_is_an_error() {
    let text = "792281625142643375935439503350000";
    let outcome = CelValue::try_from(&decimal_literal(text));
    assert!(matches!(outcome, Err(CelError::DecimalError(_))));
    assert_eq!(outcome, Err(CelError::DecimalError(Decimal::from_str(text).unwrap_err())));
}

#[test]
fn text_and_bytes_are_shared_with_the_literal() {
    let text = Rc::new(String::from("shared"));
    let bytes = Rc::new(vec![1u8, 2, 3]);
    match CelValue::try_from(&Literal::String(text.clone())).unwrap() {
        CelValue::String(s) => assert!(Rc::ptr_eq(&s, &text)),
        other => panic!("expected text, found {:?}", other),
    }
    match CelValue::try_from(&Literal::Bytes(bytes.clone())).unwrap() {
        CelValue::Bytes(b) => assert!(Rc::ptr_eq(&b, &bytes)),
        other => panic!("expected bytes, found {:?}", other),
    }
}

#[test]
fn a_parsed_decimal_becomes_a_value_and_a_failure_an_error() {
    let d = Decimal::new(12, 1);
    assert_eq!(CelValue::from_parsed_decimal(Ok(d)), Ok(CelValue::Double(d)));
    let e = Decimal::from_str("x").unwrap_err();
    assert_eq!(
        CelValue::from_parsed_decimal(Err(e.clone())),
        Err(CelError::DecimalError(e))
    );
}
