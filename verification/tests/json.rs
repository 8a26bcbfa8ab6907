use caseta::json::{get_bool, get_text, get_u64, text_datum, Datum, Object};
use caseta::serde::{from_serde, read_json, to_serde, write_json};

const DOCUMENT: &str = r#"{"a":[1,-2,2.5,true,null,{"0":"zero","":"empty"}],"b":"line\nbreak \"x\" \u0001 é","c":{},"d":18446744073709551615,"e":-9223372036854775808,"f":1e300,"g":0.1}"#;

fn serde(text: &str) -> serde_json::Value {
    serde_json::from_str(text).unwrap()
}

#[test]
fn documents_survive_both_conversions() {
    let value = serde(DOCUMENT);
    assert_eq!(to_serde(&from_serde(value.clone())), value);
    assert_eq!(to_serde(&from_serde(value.clone()).clone()), value);
}

#[test]
fn reading_accepts_what_serde_accepts() {
    for text in ["", "{", "nul", "{}", " [1, 2] ", "\"x\"", "1 2", "{\"a\":1,}", DOCUMENT] {
        let expected = serde_json::from_str::<serde_json::Value>(text).ok();
        let read = read_json(text);
        assert_eq!(read.as_ref().map(to_serde), expected, "{text}");
    }
}

#[test]
fn writing_is_compact_sorted_and_on_one_line() {
    let object = Object::new()
        .with("z", Datum::Unsigned(1))
        .with("a", text_datum("two\nlines \"quoted\""))
        .with("m", Datum::Array(vec![Datum::Null, Datum::Bool(false), Datum::Negative(-3)]));
    let text = write_json(&Datum::Object(object));
    assert_eq!(text, r#"{"a":"two\nlines \"quoted\"","m":[null,false,-3],"z":1}"#);
    assert!(!text.contains('\n'));
    assert_eq!(write_json(&from_serde(serde(DOCUMENT))), serde(DOCUMENT).to_string());
}

#[test]
fn a_signed_positive_integer_is_the_same_number() {
    assert_eq!(to_serde(&Datum::Negative(5)), serde("5"));
    assert_eq!(Datum::Negative(5).as_u64(), Some(5));
}

#[test]
fn numbers_by_kind() {
    let max = read_json("18446744073709551615").unwrap();
    assert_eq!(max.as_u64(), Some(u64::MAX));
    assert_eq!(max.as_i64(), None);
    let min = read_json("-9223372036854775808").unwrap();
    assert_eq!(min.as_u64(), None);
    assert_eq!(min.as_i64(), Some(i64::MIN));
    let real = read_json("50.0").unwrap();
    assert_eq!(real.as_u64(), None);
    assert_eq!(real.as_i64(), None);
    assert_eq!(write_json(&real), "50.0");
    assert_eq!(read_json("true").unwrap().as_bool(), Some(true));
    assert_eq!(read_json("\"true\"").unwrap().as_bool(), None);
}

#[test]
fn the_later_of_two_entries_counts() {
    let mut object = Object {
        entries: vec![("k".to_string(), Datum::Unsigned(1)), ("k".to_string(), Datum::Unsigned(2))],
    };
    assert_eq!(get_u64(&object, "k"), Some(2));
    assert_eq!(to_serde(&Datum::Object(object.clone())), serde(r#"{"k":2}"#));
    let mut longer = object.clone();
    longer.entries.insert(1, ("l".to_string(), Datum::Null));
    longer.entries.push(("l".to_string(), Datum::Unsigned(3)));
    assert_eq!(to_serde(&Datum::Object(longer)), serde(r#"{"k":2,"l":3}"#));
    object.insert("k".to_string(), Datum::Bool(true));
    assert_eq!(get_u64(&object, "k"), None);
    assert_eq!(get_bool(&object, "k"), Some(true));
    object.insert("t".to_string(), text_datum("x"));
    assert_eq!(get_text(&object, "t"), Some("x"));
    assert_eq!(get_text(&object, "absent"), None);
    assert_eq!(object.entries.len(), 3);
}

#[test]
fn pointers_step_into_objects_and_arrays() {
    let value = serde(DOCUMENT);
    let datum = from_serde(value.clone());
    let cases = [("a", "0"), ("a", "5"), ("a", "6"), ("a", "05"), ("a", "x"), ("b", "0"), ("c", "d"), ("x", "y")];
    for (a, b) in cases {
        let expected = value.pointer(&format!("/{a}/{b}"));
        assert_eq!(datum.pointer2(a, b).map(to_serde).as_ref(), expected, "{a} {b}");
    }
    for (a, b, c) in [("a", "5", "0"), ("a", "5", ""), ("a", "5", "1"), ("a", "0", "0")] {
        let expected = value.pointer(&format!("/{a}/{b}/{c}"));
        assert_eq!(datum.pointer3(a, b, c).map(to_serde).as_ref(), expected, "{a} {b} {c}");
    }
    assert!(datum.get("0").is_none());
    assert!(datum.get("a").unwrap().get("0").is_none());
}

#[test]
fn documents_read_back_down_to_the_depth_limit() {
    let nested = |depth: usize| {
        let mut datum = Datum::Negative(i64::MIN);
        for level in 0..depth {
            datum = if level % 2 == 0 {
                Datum::Array(vec![datum, Datum::Unsigned(u64::MAX)])
            } else {
                Datum::Object(Object::new().with("a\n\u{0}\"", datum))
            };
        }
        datum
    };
    for depth in [0, 1, 2, 127] {
        let datum = nested(depth);
        assert_eq!(to_serde(&read_json(&write_json(&datum)).unwrap()), to_serde(&datum), "{depth}");
    }
    assert!(read_json(&write_json(&nested(128))).is_none());
}

#[test]
fn wide_integers_and_negative_zero_are_no_integers() {
    for text in ["18446744073709551616", "-9223372036854775809", "-0", "1.5", "1e2"] {
        let datum = read_json(text).unwrap();
        assert!(matches!(datum, Datum::Real(_)), "{text}");
        assert_eq!(datum.as_u64(), None);
        assert_eq!(datum.as_i64(), None);
    }
}
