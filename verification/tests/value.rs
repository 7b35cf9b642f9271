use rlox::gc::ActiveGC;
use rlox::value::{negate_number, numbers_equal, Value, ValueArray};

#[test]
fn predicates_classify_values() {
    assert!(Value::Boolean(true).is_bool());
    assert!(Value::Nil.is_nil());
    assert!(Value::Number(2.0f64.to_bits()).is_number());
    assert!(Value::LoxString("Hello".to_owned()).is_string());
    assert!(!Value::LoxString("Hello".to_owned()).is_falsy());
    assert!(Value::Nil.is_falsy());
    assert!(Value::Boolean(false).is_falsy());
    assert!(!Value::Boolean(true).is_falsy());
    assert!(!Value::Number(0.0f64.to_bits()).is_falsy());
}

#[test]
fn to_str_gives_string_contents() {
    assert_eq!(Some("abc"), Value::LoxString("abc".to_owned()).to_str());
    assert_eq!(None, Value::Nil.to_str());
}

#[test]
fn equality_follows_lox() {
    let nan = Value::Number(f64::NAN.to_bits());
    assert!(!nan.equal(&nan));
    let zero = Value::Number(0.0f64.to_bits());
    let negative_zero = Value::Number((-0.0f64).to_bits());
    assert!(zero.equal(&negative_zero));
    assert!(negative_zero.equal(&zero));
    assert!(Value::Nil.equal(&Value::Nil));
    assert!(!Value::Nil.equal(&Value::Boolean(false)));
    assert!(Value::LoxString("a".to_owned()).equal(&Value::LoxString("a".to_owned())));
    assert!(!Value::Number(1.0f64.to_bits()).equal(&Value::LoxString("1".to_owned())));
    assert!(numbers_equal(1.5f64.to_bits(), 1.5f64.to_bits()));
    assert!(!numbers_equal(1.5f64.to_bits(), 2.5f64.to_bits()));
}

#[test]
fn negation_flips_the_sign() {
    assert_eq!((-2.5f64).to_bits(), negate_number(2.5f64.to_bits()));
    assert_eq!(2.5f64.to_bits(), negate_number(negate_number(2.5f64.to_bits())));
    assert_eq!((-0.0f64).to_bits(), negate_number(0.0f64.to_bits()));
    assert!(f64::from_bits(negate_number(f64::NAN.to_bits())).is_nan());
}

#[test]
fn conversions_and_default() {
    assert_eq!(Value::Nil, Value::default());
    assert_eq!(Value::Boolean(false), Value::from(false));

    assert_eq!(Value::Nil, Value::Nil.clone());
}

#[test]
fn value_array_keeps_values_in_order() {
    let mut array = ValueArray::new();
    assert!(array.is_empty());
    array.write(Value::Boolean(true));
    array.write(Value::Nil);
    assert_eq!(2, array.len());
    assert_eq!(Some(Value::Boolean(true)), array.get(0));
    assert_eq!(Some(Value::Nil), array.get(1));
    assert_eq!(None, array.get(2));
}

#[test]
fn making_a_string_value_stores_it() {
    let mut gc = ActiveGC::install();
    assert_eq!(0, gc.n_strings());
    let v = Value::stored_str("hello", &mut gc);
    assert_eq!(Value::LoxString("hello".to_owned()), v);
    assert_eq!(1, gc.n_strings());
    let w = Value::stored_string("hello".to_owned(), &mut gc);
    assert!(w.is_string());
    assert_eq!(1, gc.n_strings());
    Value::stored_string("other".to_owned(), &mut gc);
    assert_eq!(2, gc.n_strings());
}
