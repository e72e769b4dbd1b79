use hayahoo::dates::{parse_date, timestamp_ms_to_date};
use hayahoo::dict::Dict;
use hayahoo::value::{
    json_number, json_object_to_dict, json_opt_str, json_str, Float64, HayashiValue, JsonValue,
    Number,
};

fn float(f: f64) -> Float64 {
    Float64 { bits: f.to_bits(), text: f.to_string(), truncated: f as i64 }
}

fn object(entries: Vec<(&str, JsonValue)>) -> JsonValue {
    let mut d = Dict::new();
    for (k, v) in entries {
        d.insert(k.to_string(), v);
    }
    JsonValue::Object(d)
}

fn text(s: &str) -> JsonValue {
    JsonValue::String(s.to_string())
}

fn as_f64(n: &Number) -> f64 {
    match n {
        Number::Int(i) => *i as f64,
        Number::Float(f) => f64::from_bits(f.bits),
    }
}

#[test]
fn test_timestamp_ms_to_date_known() {
    // 2024-01-15 00:00:00 UTC = 1705276800000 ms
    let result = timestamp_ms_to_date(1_705_276_800_000);
    assert_eq!(result, "2024-01-15");
}

#[test]
fn test_timestamp_ms_to_date_epoch() {
    let result = timestamp_ms_to_date(0);
    assert_eq!(result, "1970-01-01");
}

#[test]
fn test_json_str_present() {
    let v = object(vec![("symbol", text("AAPL")), ("name", text("Apple Inc."))]);
    assert_eq!(json_str(&v, "symbol"), "AAPL");
    assert_eq!(json_str(&v, "name"), "Apple Inc.");
}

#[test]
fn test_json_str_missing() {
    let v = object(vec![("symbol", text("AAPL"))]);
    assert_eq!(json_str(&v, "exchange"), "");
}

#[test]
fn test_json_opt_str_present() {
    let v = object(vec![("currency", text("USD"))]);
    assert_eq!(json_opt_str(&v, "currency"), Some("USD".to_string()));
}

#[test]
fn test_json_opt_str_missing() {
    let v = object(vec![("currency", text("USD"))]);
    assert_eq!(json_opt_str(&v, "price"), None);
}

#[test]
fn test_json_f64_present() {
    let v = object(vec![("regularMarketPrice", JsonValue::Number(Number::Float(float(189.84))))]);
    let price = json_number(&v, "regularMarketPrice").map(as_f64);
    assert!(price.is_some());
    assert!((price.unwrap() - 189.84).abs() < 1e-6);
}

#[test]
fn test_json_f64_missing() {
    let v = object(vec![("symbol", text("AAPL"))]);
    assert_eq!(json_number(&v, "price").map(as_f64), None);
}

#[test]
fn test_parse_date_valid() {
    let d = parse_date("2024-01-15");
    assert!(d.is_some());
    let d = d.unwrap();
    assert_eq!(d.year(), 2024);
    assert_eq!(d.month(), 1);
    assert_eq!(d.day(), 15);
}

#[test]
fn test_parse_date_invalid() {
    assert_eq!(parse_date("not-a-date"), None);
    assert_eq!(parse_date("2024-13-01"), None);
}

#[test]
fn test_json_object_to_dict_values() {
    let v = object(vec![
        ("n", JsonValue::Number(Number::Int(42))),
        ("s", text("hello")),
        ("f", JsonValue::Number(Number::Float(float(3.14)))),
    ]);
    let d = json_object_to_dict(&v);
    assert_eq!(d.get("n"), Some(&HayashiValue::Int(42)));
    assert_eq!(d.get("s"), Some(&HayashiValue::Str("hello".to_string())));
    match d.get("f") {
        Some(HayashiValue::Float(f)) => assert!((f64::from_bits(f.bits) - 3.14).abs() < 1e-6),
        _ => panic!("expected Float for 'f'"),
    }
}
