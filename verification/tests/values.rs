//! Values from nvim, and how messages show them.

use anvi_core::strings::{
    eq_ignore_ascii_case, push_decimal, push_signed, replace, split, str_eq, text_until, trim, white,
};
use anvi_core::value::{push_shown, Integer, Value};

fn shown(value: &Value) -> String {
    let mut out = String::new();
    push_shown(&mut out, value);
    out
}

/// The same value as the decoder gives it.
fn decoded(value: &Value) -> rmpv::Value {
    match value {
        Value::Nil => rmpv::Value::Nil,
        Value::Boolean(b) => rmpv::Value::from(*b),
        Value::Integer(Integer::Pos(n)) => rmpv::Value::from(*n),
        Value::Integer(Integer::Neg(n)) => rmpv::Value::from(*n),
        Value::Text(s) => rmpv::Value::from(s.as_str()),
        Value::Array(items) => rmpv::Value::Array(items.iter().map(decoded).collect()),
        Value::Dict(entries) => {
            rmpv::Value::Map(entries.iter().map(|(k, v)| (decoded(k), decoded(v))).collect())
        }
        Value::Opaque(_) => unreachable!(),
    }
}

#[test]
fn values_are_shown_as_the_decoder_shows_them() {
    let values = vec![
        Value::Nil,
        Value::Boolean(true),
        Value::Boolean(false),
        Value::from_u64(0),
        Value::from_u64(u64::MAX),
        Value::from_i64(-1),
        Value::from_i64(i64::MIN),
        Value::from_i64(42),
        Value::from_str(""),
        Value::from_str("日本語"),
        Value::from_str("tab\t \"quote\" \\ \u{7f} \u{200b} \u{1f600} '\n"),
        Value::Array(vec![]),
        Value::Array(vec![Value::Nil]),
        Value::Array(vec![Value::Nil, Value::Array(vec![Value::from_u64(1)]), Value::Nil]),
        Value::Dict(vec![]),
        Value::Dict(vec![
            (Value::from_str("a"), Value::from_u64(1)),
            (Value::Nil, Value::Dict(vec![(Value::Nil, Value::Nil)])),
        ]),
    ];
    for value in &values {
        assert_eq!(shown(value), format!("{:?}", decoded(value)));
    }
    assert_eq!(shown(&Value::Opaque("F64(1.5)".to_owned())), "F64(1.5)");
}

#[test]
fn readings_agree_with_the_decoder() {
    let numbers = [
        Value::from_u64(0),
        Value::from_u64(i64::MAX as u64),
        Value::from_u64(i64::MAX as u64 + 1),
        Value::from_u64(u64::MAX),
        Value::from_i64(-1),
        Value::from_i64(i64::MIN),
        Value::from_i64(7),
        Value::from_str("7"),
        Value::Nil,
    ];
    for value in &numbers {
        assert_eq!(value.as_u64(), decoded(value).as_u64());
        assert_eq!(value.as_i64(), decoded(value).as_i64());
        assert_eq!(value.as_str(), decoded(value).as_str());
        assert_eq!(value.as_bool(), decoded(value).as_bool());
        assert_eq!(value.as_array().is_some(), decoded(value).is_array());
        assert_eq!(value.as_map().is_some(), decoded(value).is_map());
    }
    assert_eq!(Value::Boolean(true).as_bool(), Some(true));
}

#[test]
fn white_space_is_what_unicode_says() {
    for n in 0..=0x10_ffffu32 {
        if let Some(c) = char::from_u32(n) {
            assert_eq!(white(c), c.is_whitespace(), "{n:#x}");
        }
    }
}

#[test]
fn texts_are_cut_as_the_standard_library_cuts_them() {
    for s in ["", " ", "a", " a b ", "\u{3000}x\u{2003}", "\t\r\n", "a,b,,c", ",", ":h12", "_x_"] {
        assert_eq!(trim(s), s.trim());
        assert_eq!(split(s, ','), s.split(',').collect::<Vec<&str>>());
        assert_eq!(replace(s, '_', ' '), s.replace('_', " "));
        assert_eq!(text_until(s, ','), s.split(',').next().unwrap_or(""));
        for t in ["", "A", " A B ", "a,B,,C", ":H12"] {
            assert_eq!(eq_ignore_ascii_case(s, t), s.eq_ignore_ascii_case(t));
            assert_eq!(str_eq(s, t), s == t);
        }
        assert!(str_eq(s, s));
    }
    assert!(!eq_ignore_ascii_case("ä", "Ä"));
}

#[test]
fn numbers_are_written_in_decimal() {
    for n in [0, 9, 10, 99, 100, 1234567890, u64::MAX] {
        let mut out = String::from("n=");
        push_decimal(&mut out, n);
        assert_eq!(out, format!("n={n}"));
    }
    for n in [0, -1, -10, 7, i64::MIN, i64::MAX] {
        let mut out = String::new();
        push_signed(&mut out, n);
        assert_eq!(out, format!("{n}"));
    }
}
