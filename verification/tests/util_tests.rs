use mcp_server_grok_management::format::billing::{money_cell, parse_cents};
use mcp_server_grok_management::json::Json;
use mcp_server_grok_management::text::{i64_text, parse_int, str_less, trimmed, u64_text};
use mcp_server_grok_management::util::{
    array_field, cents_signed_to_dollars, cents_to_dollars, field, field_str, map_time_unit,
    normalize_usage_timestamp, pretty,
};
use serde_json::Value;

fn to_json(v: &Value) -> Json {
    match v {
        Value::Null => Json::Null,
        Value::Bool(b) => Json::Bool(*b),
        Value::Number(n) => {
            if let Some(u) = n.as_u64() {
                Json::PosInt(u)
            } else if let Some(i) = n.as_i64() {
                Json::NegInt(i)
            } else {
                Json::Float(n.to_string())
            }
        }
        Value::String(s) => Json::Str(s.clone()),
        Value::Array(a) => Json::Array(a.iter().map(to_json).collect()),
        Value::Object(m) => Json::Object(m.iter().map(|(k, x)| (k.clone(), to_json(x))).collect()),
    }
}

fn parse(text: &str) -> Json {
    to_json(&serde_json::from_str::<Value>(text).unwrap())
}

#[test]
fn cents_formatting() {
    assert_eq!(cents_to_dollars(0), "$0.00");
    assert_eq!(cents_to_dollars(5), "$0.05");
    assert_eq!(cents_to_dollars(500), "$5.00");
    assert_eq!(cents_signed_to_dollars(-2500), "-$25.00");
}

#[test]
fn timestamp_normalization() {
    assert_eq!(normalize_usage_timestamp("2025-01-01T00:00:00Z"), "2025-01-01 00:00:00");
    assert_eq!(normalize_usage_timestamp("2025-01-01"), "2025-01-01 00:00:00");
}

#[test]
fn parse_nested_cents() {
    assert_eq!(parse_cents(Some(&parse(r#"{"val": "1413"}"#))), Some(1413));
    assert_eq!(parse_cents(Some(&parse(r#""6971""#))), Some(6971));
}

#[test]
fn cents_extremes() {
    assert_eq!(cents_to_dollars(10000), "$100.00");
    assert_eq!(cents_to_dollars(1413), "$14.13");
    assert_eq!(cents_to_dollars(u64::MAX), "$184467440737095516.15");
    assert_eq!(cents_signed_to_dollars(i64::MIN), "-$92233720368547758.08");
    assert_eq!(cents_signed_to_dollars(7), "$0.07");
}

#[test]
fn timestamp_offsets_and_spaces() {
    assert_eq!(normalize_usage_timestamp("  2025-03-04T05:06:07+02:00 "), "2025-03-04 05:06:07");
    assert_eq!(normalize_usage_timestamp("2025-03-04T05:06:07-0500"), "2025-03-04 05:06:07");
    assert_eq!(normalize_usage_timestamp("2025-03-04 05:06:07"), "2025-03-04 05:06:07");
    assert_eq!(normalize_usage_timestamp("2025-3-4"), "2025-3-4");
}

#[test]
fn time_units() {
    assert_eq!(map_time_unit(None), Ok("TIME_UNIT_DAY"));
    assert_eq!(map_time_unit(Some("")), Ok("TIME_UNIT_DAY"));
    assert_eq!(map_time_unit(Some(" hour ")), Ok("TIME_UNIT_HOUR"));
    assert_eq!(map_time_unit(Some("Month")), Ok("TIME_UNIT_MONTH"));
    assert_eq!(map_time_unit(Some("week")), Ok("TIME_UNIT_CALENDAR_WEEK"));
    assert_eq!(map_time_unit(Some("TIME_UNIT_NONE")), Ok("TIME_UNIT_NONE"));
    assert_eq!(
        map_time_unit(Some(" year")),
        Err("time_unit must be one of DAY, HOUR, MONTH, WEEK, NONE (got YEAR)".to_string())
    );
}

#[test]
fn money_cells() {
    assert_eq!(money_cell(Some(&parse(r#"{"val": "-250"}"#))), "-$2.50");
    assert_eq!(money_cell(Some(&parse("1413"))), "$14.13");
    assert_eq!(money_cell(Some(&parse(r#""abc""#))), "-");
    assert_eq!(money_cell(None), "-");
    assert_eq!(parse_cents(Some(&parse("18446744073709551615"))), Some(-1));
    assert_eq!(parse_cents(Some(&parse(r#"{"other": 1}"#))), None);
}

#[test]
fn field_lookup() {
    let v = parse(r#"{"a": null, "b": 7, "c": [1, 2], "d": true, "e": 1.5}"#);
    assert!(matches!(field(&v, &["a", "b"]), Some(Json::PosInt(7))));
    assert_eq!(field_str(&v, &["a", "b"]), Some("7".to_string()));
    assert_eq!(field_str(&v, &["d"]), Some("true".to_string()));
    assert_eq!(field_str(&v, &["e"]), Some("1.5".to_string()));
    assert_eq!(field_str(&v, &["c"]), None);
    assert_eq!(field_str(&v, &["zzz"]), None);
    assert_eq!(array_field(&v, &["c"]).len(), 2);
    assert_eq!(array_field(&v, &["b"]).len(), 0);
    let arr = parse("[1, 2, 3]");
    assert_eq!(array_field(&arr, &["x"]).len(), 3);
}

#[test]
fn pretty_matches_serde_json() {
    let text = r#"{"b": [1, {"x": "q\"t"}], "a": {}, "c": [], "d": -3, "e": 2.5, "f": null}"#;
    let value: Value = serde_json::from_str(text).unwrap();
    assert_eq!(pretty(&to_json(&value)), serde_json::to_string_pretty(&value).unwrap());
    assert_eq!(pretty(&parse("[]")), "[]");
    assert_eq!(pretty(&parse(r#"{"k": 1}"#)), "{\n  \"k\": 1\n}");
}

#[test]
fn integer_text() {
    assert_eq!(u64_text(0), "0");
    assert_eq!(i64_text(-42), "-42");
    assert_eq!(i64_text(i64::MIN), "-9223372036854775808");
    assert_eq!(parse_int("-9223372036854775808"), Some(i64::MIN));
    assert_eq!(parse_int("+12"), Some(12));
    assert_eq!(parse_int("9223372036854775808"), None);
    assert_eq!(parse_int("1a"), None);
    assert_eq!(parse_int("-"), None);
    assert_eq!(parse_int(&i64_text(-1234567)), Some(-1234567));
}

#[test]
fn text_helpers() {
    assert_eq!(trimmed("  a b \n"), "a b");
    assert!(str_less("2025-01-01", "2025-01-02"));
    assert!(!str_less("b", "a"));
    assert!(str_less("a", "ab"));
    assert!(!str_less("a", "a"));
}

#[test]
fn timestamp_normalization_is_stable() {
    for s in ["2025-01-01T00:00:00Z", " 2025-06-30 12:34:56+05:30", "2025-06-30T12:34:56-08:00", "2025-01-01"] {
        let once = normalize_usage_timestamp(s);
        assert_eq!(normalize_usage_timestamp(&once), once);
    }
    assert_eq!(normalize_usage_timestamp(" 2025-06-30 12:34:56+05:30"), "2025-06-30 12:34:56");
}
