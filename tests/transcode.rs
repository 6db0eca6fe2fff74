use ortoml::{all_finite, is_finite, to_config, to_generic, ConvertError, Value};

fn s(text: &str) -> Value {
    Value::String(text.to_string())
}

fn table(entries: Vec<(&str, Value)>) -> Value {
    Value::Table(entries.into_iter().map(|(k, v)| (k.to_string(), v)).collect())
}

fn float(x: f64) -> Value {
    Value::Float(x.to_bits())
}

fn dependencies_document() -> Value {
    table(vec![
        (
            "dependencies",
            table(vec![("a", s("123")), ("b", Value::Integer(3)), ("c", Value::Boolean(true))]),
        ),
        ("naber", table(vec![("abi", Value::Integer(123))])),
    ])
}

#[test]
fn scenario_document_both_ways() {
    let doc = dependencies_document();
    let generic = to_generic(&doc).unwrap();
    assert_eq!(generic, dependencies_document());
    let back = to_config(generic).unwrap();
    assert_eq!(back, dependencies_document());
}

#[test]
fn round_trip_keeps_order_and_tags() {
    let doc = table(vec![
        ("z", Value::Integer(-7)),
        ("a", float(3.0)),
        ("m", Value::Array(vec![Value::Integer(1), float(2.5), s("x"), Value::Boolean(false)])),
        ("t", table(vec![("inner", Value::Array(vec![table(vec![("k", Value::Integer(1))])]))])),
    ]);
    let back = to_config(to_generic(&doc).unwrap()).unwrap();
    assert_eq!(back, doc);
    match &back {
        Value::Table(entries) => {
            assert_eq!(entries[0].0, "z");
            assert_eq!(entries[1].1, Value::Float(3.0f64.to_bits()));
        }
        _ => panic!("root is not a table"),
    }
}

#[test]
fn datetime_becomes_string_and_stays_one() {
    let doc = table(vec![("when", Value::Datetime("1979-05-27T07:32:00Z".to_string()))]);
    let generic = to_generic(&doc).unwrap();
    assert_eq!(generic, table(vec![("when", s("1979-05-27T07:32:00Z"))]));
    let back = to_config(generic).unwrap();
    assert_eq!(back, table(vec![("when", s("1979-05-27T07:32:00Z"))]));
    assert_ne!(back, doc);
}

#[test]
fn nested_datetime_in_array_degrades() {
    let doc = table(vec![("days", Value::Array(vec![Value::Datetime("2020-01-01".to_string())]))]);
    assert_eq!(
        to_generic(&doc).unwrap(),
        table(vec![("days", Value::Array(vec![s("2020-01-01")]))])
    );
}

#[test]
fn nan_fails_to_generic() {
    let doc = table(vec![("x", float(f64::NAN))]);
    assert_eq!(to_generic(&doc), Err(ConvertError::InvalidNumber));
}

#[test]
fn infinity_deep_in_array_fails_to_generic() {
    let doc = table(vec![("x", Value::Array(vec![float(1.0), table(vec![("y", float(f64::INFINITY))])]))]);
    assert_eq!(to_generic(&doc), Err(ConvertError::InvalidNumber));
}

#[test]
fn negative_infinity_fails_to_config() {
    let doc = table(vec![("x", float(f64::NEG_INFINITY))]);
    assert_eq!(to_config(doc), Err(ConvertError::InvalidNumber));
}

#[test]
fn array_root_fails_to_config() {
    let doc = Value::Array(vec![Value::Integer(1), Value::Integer(2), Value::Integer(3)]);
    assert_eq!(to_config(doc), Err(ConvertError::UnsupportedRoot));
}

#[test]
fn scalar_root_fails_to_config() {
    assert_eq!(to_config(Value::Integer(1)), Err(ConvertError::UnsupportedRoot));
    assert_eq!(to_config(float(f64::NAN)), Err(ConvertError::UnsupportedRoot));
}

#[test]
fn empty_table_kept_both_ways() {
    let empty = Value::Table(vec![]);
    let generic = to_generic(&empty).unwrap();
    assert_eq!(generic, Value::Table(vec![]));
    assert_eq!(to_config(generic).unwrap(), Value::Table(vec![]));
}

#[test]
fn empty_containers_inside_kept() {
    let doc = table(vec![("a", Value::Array(vec![])), ("t", Value::Table(vec![]))]);
    let back = to_config(to_generic(&doc).unwrap()).unwrap();
    assert_eq!(back, doc);
}

#[test]
fn finiteness_of_bit_patterns() {
    assert!(is_finite(1.0f64.to_bits()));
    assert!(is_finite(0u64));
    assert!(is_finite(f64::MAX.to_bits()));
    assert!(is_finite(f64::MIN.to_bits()));
    assert!(is_finite((-0.0f64).to_bits()));
    assert!(!is_finite(f64::INFINITY.to_bits()));
    assert!(!is_finite(f64::NEG_INFINITY.to_bits()));
    assert!(!is_finite(f64::NAN.to_bits()));
    assert!(!is_finite(0x7ff0_0000_0000_0001u64));
}

#[test]
fn all_finite_walks_the_tree() {
    assert!(all_finite(&dependencies_document()));
    assert!(all_finite(&Value::Array(vec![float(0.5), table(vec![("k", float(-2.0))])])));
    assert!(!all_finite(&Value::Array(vec![float(0.5), table(vec![("k", float(f64::NAN))])])));
    assert!(!all_finite(&float(f64::INFINITY)));
}
