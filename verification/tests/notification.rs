//! What nvim tells the host.

use anvi_core::event::HostEvent;
use anvi_core::notification::{
    parse_notification, route, session_args, warn_unexpected_payload, Incoming,
};
use anvi_core::value::Value;

fn s(text: &str) -> Value {
    Value::from_str(text)
}

fn i(n: i64) -> Value {
    Value::from_i64(n)
}

#[test]
fn session_write_carries_the_lines() {
    let args = vec![Value::Array(vec![s("a"), s("日本語")])];
    assert_eq!(
        parse_notification("session_write", &args),
        Ok(Some(HostEvent::SessionWrite(vec![
            "a".to_string(),
            "日本語".to_string()
        ])))
    );
}

#[test]
fn session_write_accepts_an_empty_buffer() {
    let args = vec![Value::Array(vec![s("")])];
    assert_eq!(
        parse_notification("session_write", &args),
        Ok(Some(HostEvent::SessionWrite(vec![String::new()])))
    );
}

#[test]
fn session_write_with_a_non_array_payload_is_malformed() {
    assert!(parse_notification("session_write", &[s("oops")]).is_err());
    assert!(parse_notification("session_write", &[]).is_err());
    assert!(
        parse_notification(
            "session_write",
            &[Value::Array(vec![]), Value::Array(vec![])]
        )
        .is_err()
    );
}

#[test]
fn session_write_with_a_non_string_line_is_malformed() {
    let args = vec![Value::Array(vec![s("a"), i(7)])];
    assert!(parse_notification("session_write", &args).is_err());
}

#[test]
fn nil_payload_notifications_are_accepted() {
    assert_eq!(
        parse_notification("session_end", &[Value::Nil]),
        Ok(Some(HostEvent::SessionEnd))
    );
    assert_eq!(
        parse_notification("session_end", &[]),
        Ok(Some(HostEvent::SessionEnd))
    );
    assert_eq!(
        parse_notification("nvim_dying", &[Value::Nil]),
        Ok(Some(HostEvent::NvimDying))
    );
}

#[test]
fn session_end_survives_an_unexpected_payload() {
    assert_eq!(
        parse_notification("session_end", &[s("junk")]),
        Ok(Some(HostEvent::SessionEnd))
    );
}

#[test]
fn init_error_carries_kind_and_message() {
    let args = vec![Value::Dict(vec![
        (s("message"), s("boom")),
        (s("kind"), s("user_config_error")),
    ])];
    assert_eq!(
        parse_notification("init_error", &args),
        Ok(Some(HostEvent::InitError {
            kind: "user_config_error".to_string(),
            message: "boom".to_string(),
        }))
    );
}

#[test]
fn init_error_without_the_contract_fields_is_malformed() {
    let missing = vec![Value::Dict(vec![(s("kind"), s("user_config_error"))])];
    assert!(parse_notification("init_error", &missing).is_err());
    let wrong_type = vec![Value::Dict(vec![
        (s("kind"), s("user_config_error")),
        (s("message"), i(1)),
    ])];
    assert!(parse_notification("init_error", &wrong_type).is_err());
    assert!(parse_notification("init_error", &[Value::Nil]).is_err());
}

#[test]
fn config_resolved_carries_the_dir_and_whether_it_loaded() {
    let args = vec![Value::Dict(vec![
        (s("dir"), s(r"C:\Users\me\.config\anvi")),
        (s("loaded"), Value::Boolean(false)),
    ])];
    assert_eq!(
        parse_notification("config_resolved", &args),
        Ok(Some(HostEvent::ConfigResolved {
            dir: r"C:\Users\me\.config\anvi".to_string(),
            loaded: false,
        }))
    );
}

#[test]
fn config_resolved_without_the_contract_fields_is_malformed() {
    let missing = vec![Value::Dict(vec![(s("dir"), s("x"))])];
    assert!(parse_notification("config_resolved", &missing).is_err());
    let wrong_type = vec![Value::Dict(vec![
        (s("dir"), s("x")),
        (s("loaded"), s("true")),
    ])];
    assert!(parse_notification("config_resolved", &wrong_type).is_err());
}

#[test]
fn unknown_notifications_are_ignored_not_errors() {
    assert_eq!(parse_notification("whatever", &[Value::Nil]), Ok(None));
}


#[test]
fn malformed_notifications_say_what_was_wrong() {
    let message = |name: &str, args: &[Value]| parse_notification(name, args).expect_err(name);
    assert_eq!(
        message("session_write", &[Value::Nil]),
        "session_write expects one array of lines, got [Nil]"
    );
    assert_eq!(
        message("session_write", &[Value::Array(vec![s("a"), i(7)])]),
        "session_write line is not a string: Integer(PosInt(7))"
    );
    assert_eq!(
        message("init_error", &[]),
        "init_error expects one map with kind/message, got []"
    );
    assert_eq!(
        message("config_resolved", &[s("x"), i(-2)]),
        "config_resolved expects one map with dir/loaded, got \
         [String(Utf8String { s: Ok(\"x\") }), Integer(NegInt(-2))]"
    );
}

#[test]
fn notifications_are_routed_by_name() {
    assert_eq!(route("redraw", vec![Value::Nil]), Incoming::Redraw(vec![Value::Nil]));
    assert_eq!(route("session_end", vec![]), Incoming::Event(HostEvent::SessionEnd));
    assert_eq!(route("who", vec![]), Incoming::Unknown);
    assert_eq!(
        route("session_write", vec![]),
        Incoming::Malformed("session_write expects one array of lines, got []".to_owned())
    );
}

#[test]
fn lines_that_start_a_session_are_the_lines_that_are_written() {
    let lines = vec!["a".to_owned(), "日本語".to_owned(), String::new()];
    let args = session_args(&lines, None);
    assert_eq!(args.len(), 2);
    assert_eq!(args[1], Value::Nil);
    assert_eq!(
        parse_notification("session_write", &args[..1]),
        Ok(Some(HostEvent::SessionWrite(lines)))
    );
    assert_eq!(session_args(&[], Some("markdown"))[1], s("markdown"));
}

#[test]
fn a_payload_that_should_not_be_there_is_remarked_on() {
    assert_eq!(warn_unexpected_payload("session_end", &[]), None);
    assert_eq!(warn_unexpected_payload("nvim_dying", &[Value::Nil]), None);
    assert_eq!(
        warn_unexpected_payload("session_end", &[i(7)]).as_deref(),
        Some("expected a nil payload, got [Integer(PosInt(7))]; ignoring the payload")
    );
    assert_eq!(
        warn_unexpected_payload("nvim_dying", &[Value::Nil, Value::Nil]).as_deref(),
        Some("expected a nil payload, got [Nil, Nil]; ignoring the payload")
    );
    assert_eq!(warn_unexpected_payload("session_write", &[i(7)]), None);
}
