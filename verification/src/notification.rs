//! The notifications by which the bundled nvim talks to the host.

use vstd::prelude::*;

use crate::event::{HostEvent, HostEventView};
use crate::strings;
use crate::value;
use crate::value::Value;

verus! {

/// Where a notification goes.
#[derive(Debug, PartialEq, Eq)]
pub enum Incoming {
    /// A batch of redraw events, handed on as it came.
    Redraw(Vec<Value>),
    /// An event for the host.
    Event(HostEvent),
    /// A name that the host does not know. It is ignored.
    Unknown,
    /// A payload that is not what was agreed on.
    Malformed(String),
}

/// A list of values as a message shows it.
pub open spec fn shown_args(args: Seq<Value>) -> Seq<char> {
    "["@ + value::shown_items(args) + "]"@
}

/// The fields of a map as a message shows them.
pub open spec fn shown_fields(fields: Seq<(Value, Value)>) -> Seq<char> {
    "["@ + value::shown_entries(fields) + "]"@
}

/// The lines of a `session_write`. All of them have to be texts.
pub open spec fn decode_lines(lines: Seq<Value>) -> Result<Seq<Seq<char>>, Seq<char>>
    decreases lines.len(),
{
    if lines.len() == 0 {
        Ok(seq![])
    } else {
        match decode_lines(lines.drop_last()) {
            Err(e) => Err(e),
            Ok(before) => match lines.last().text() {
                Some(line) => Ok(before.push(line)),
                None => Err("session_write line is not a string: "@ + value::shown(lines.last())),
            },
        }
    }
}

/// The value of the first entry whose key is `key`.
pub open spec fn lookup(fields: Seq<(Value, Value)>, key: Seq<char>) -> Option<Value>
    decreases fields.len(),
{
    if fields.len() == 0 {
        None
    } else if fields[0].0.text() == Some(key) {
        Some(fields[0].1)
    } else {
        lookup(fields.drop_first(), key)
    }
}

pub open spec fn decode_field(fields: Seq<(Value, Value)>, event: Seq<char>, key: Seq<char>) -> Result<
    Value,
    Seq<char>,
> {
    match lookup(fields, key) {
        Some(v) => Ok(v),
        None => Err(event + " payload has no `"@ + key + "` field: "@ + shown_fields(fields)),
    }
}

pub open spec fn decode_text_field(
    fields: Seq<(Value, Value)>,
    event: Seq<char>,
    key: Seq<char>,
) -> Result<Seq<char>, Seq<char>> {
    match decode_field(fields, event, key) {
        Err(e) => Err(e),
        Ok(v) => match v.text() {
            Some(text) => Ok(text),
            None => Err(event + " `"@ + key + "` is not a string: "@ + value::shown(v)),
        },
    }
}

pub open spec fn decode_write(args: Seq<Value>) -> Result<Option<HostEventView>, Seq<char>> {
    if args.len() == 1 && args[0].items() is Some {
        match decode_lines(args[0].items()->0) {
            Err(e) => Err(e),
            Ok(lines) => Ok(Some(HostEventView::SessionWrite(lines))),
        }
    } else {
        Err("session_write expects one array of lines, got "@ + shown_args(args))
    }
}

pub open spec fn decode_init_error(args: Seq<Value>) -> Result<Option<HostEventView>, Seq<char>> {
    if args.len() == 1 && args[0].entries() is Some {
        let fields = args[0].entries()->0;
        match decode_text_field(fields, "init_error"@, "kind"@) {
            Err(e) => Err(e),
            Ok(kind) => match decode_text_field(fields, "init_error"@, "message"@) {
                Err(e) => Err(e),
                Ok(message) => Ok(Some(HostEventView::InitError { kind, message })),
            },
        }
    } else {
        Err("init_error expects one map with kind/message, got "@ + shown_args(args))
    }
}

pub open spec fn decode_config_resolved(args: Seq<Value>) -> Result<
    Option<HostEventView>,
    Seq<char>,
> {
    if args.len() == 1 && args[0].entries() is Some {
        let fields = args[0].entries()->0;
        match decode_field(fields, "config_resolved"@, "loaded"@) {
            Err(e) => Err(e),
            Ok(v) => match v.truth() {
                None => Err("config_resolved `loaded` is not a bool: "@ + value::shown(v)),
                Some(loaded) => match decode_text_field(fields, "config_resolved"@, "dir"@) {
                    Err(e) => Err(e),
                    Ok(dir) => Ok(Some(HostEventView::ConfigResolved { dir, loaded })),
                },
            },
        }
    } else {
        Err("config_resolved expects one map with dir/loaded, got "@ + shown_args(args))
    }
}

/// The event that a notification stands for: `Ok(None)` for an unknown name, `Err` for a payload
/// that is not what was agreed on. The end of a session and the hint that nvim leaves are taken
/// whatever they carry: without the first the host would stay in its session.
pub open spec fn decode(name: Seq<char>, args: Seq<Value>) -> Result<Option<HostEventView>, Seq<char>> {
    if name == "session_write"@ {
        decode_write(args)
    } else if name == "session_end"@ {
        Ok(Some(HostEventView::SessionEnd))
    } else if name == "nvim_dying"@ {
        Ok(Some(HostEventView::NvimDying))
    } else if name == "init_error"@ {
        decode_init_error(args)
    } else if name == "config_resolved"@ {
        decode_config_resolved(args)
    } else {
        Ok(None)
    }
}

/// A result over events and messages as a mathematical value.
pub open spec fn seen(r: Result<Option<HostEvent>, String>) -> Result<
    Option<HostEventView>,
    Seq<char>,
> {
    match r {
        Ok(Some(event)) => Ok(Some(event@)),
        Ok(None) => Ok(None),
        Err(e) => Err(e@),
    }
}

/// `prefix` followed by the values.
fn with_args(prefix: &str, args: &[Value]) -> (out: String)
    ensures
        out@ == prefix@ + shown_args(args@),
{
    let mut out = prefix.to_owned();
    out.append("[");
    value::push_shown_items(&mut out, args);
    out.append("]");
    assert(out@ =~= prefix@ + shown_args(args@));
    out
}

/// A broken entry makes the whole payload unreadable, with the first such entry as the reason.
proof fn lemma_broken_lines(lines: Seq<Value>, n: int)
    requires
        0 <= n <= lines.len(),
        decode_lines(lines.take(n)) is Err,
    ensures
        decode_lines(lines) == decode_lines(lines.take(n)),
    decreases lines.len() - n,
{
    if n < lines.len() {
        assert(lines.take(n + 1).drop_last() =~= lines.take(n));
        lemma_broken_lines(lines, n + 1);
    } else {
        assert(lines.take(n) =~= lines);
    }
}

#[verifier::loop_isolation(false)]
fn read_lines(lines: &Vec<Value>) -> (r: Result<Vec<String>, String>)
    ensures
        (match r {
            Ok(out) => decode_lines(lines@) == Ok::<Seq<Seq<char>>, Seq<char>>(
                strings::texts(out@),
            ),
            Err(e) => decode_lines(lines@) == Err::<Seq<Seq<char>>, Seq<char>>(e@),
        }),
{
    let mut out: Vec<String> = Vec::new();
    let mut i: usize = 0;
    assert(strings::texts(out@) =~= seq![]);
    while i < lines.len()
        invariant
            i <= lines@.len(),
            decode_lines(lines@.take(i as int)) == Ok::<Seq<Seq<char>>, Seq<char>>(
                strings::texts(out@),
            ),
        decreases lines@.len() - i,
    {
        assert(lines@.take(i + 1).drop_last() =~= lines@.take(i as int));
        let ghost was = strings::texts(out@);
        match lines[i].as_str() {
            Some(line) => {
                out.push(line.to_owned());
                assert(strings::texts(out@) =~= was.push(line@));
            },
            None => {
                let mut e = String::from_str("session_write line is not a string: ");
                value::push_shown(&mut e, &lines[i]);
                proof {
                    lemma_broken_lines(lines@, i + 1);
                }
                return Err(e);
            },
        }
        i = i + 1;
    }
    assert(lines@.take(lines@.len() as int) =~= lines@);
    Ok(out)
}

/// The value of the first entry whose key is `key`.
#[verifier::loop_isolation(false)]
fn field<'a>(fields: &'a Vec<(Value, Value)>, event: &str, key: &str) -> (r: Result<
    &'a Value,
    String,
>)
    ensures
        (match r {
            Ok(v) => decode_field(fields@, event@, key@) == Ok::<Value, Seq<char>>(*v),
            Err(e) => decode_field(fields@, event@, key@) == Err::<Value, Seq<char>>(e@),
        }),
{
    let mut i: usize = 0;
    assert(fields@.skip(0) =~= fields@);
    while i < fields.len()
        invariant
            i <= fields@.len(),
            lookup(fields@, key@) == lookup(fields@.skip(i as int), key@),
        decreases fields@.len() - i,
    {
        assert(fields@.skip(i as int).drop_first() =~= fields@.skip(i + 1));
        if let Some(name) = fields[i].0.as_str() {
            if strings::str_eq(name, key) {
                return Ok(&fields[i].1);
            }
        }
        i = i + 1;
    }
    let mut e = event.to_owned();
    e.append(" payload has no `");
    e.append(key);
    e.append("` field: ");
    e.append("[");
    value::push_shown_entries(&mut e, fields);
    e.append("]");
    assert(e@ =~= event@ + " payload has no `"@ + key@ + "` field: "@ + shown_fields(fields@));
    Err(e)
}

fn string_field(fields: &Vec<(Value, Value)>, event: &str, key: &str) -> (r: Result<
    String,
    String,
>)
    ensures
        (match r {
            Ok(text) => decode_text_field(fields@, event@, key@) == Ok::<Seq<char>, Seq<char>>(
                text@,
            ),
            Err(e) => decode_text_field(fields@, event@, key@) == Err::<Seq<char>, Seq<char>>(e@),
        }),
{
    let v = match field(fields, event, key) {
        Ok(v) => v,
        Err(e) => return Err(e),
    };
    match v.as_str() {
        Some(text) => Ok(text.to_owned()),
        None => {
            let mut e = event.to_owned();
            e.append(" `");
            e.append(key);
            e.append("` is not a string: ");
            value::push_shown(&mut e, v);
            assert(e@ =~= event@ + " `"@ + key@ + "` is not a string: "@ + value::shown(*v));
            Err(e)
        },
    }
}

/// `Ok(Some)` for a known notification, `Ok(None)` for an unknown name, `Err` where the payload is
/// not what was agreed on.
pub fn parse_notification(name: &str, args: &[Value]) -> (r: Result<Option<HostEvent>, String>)
    ensures
        seen(r) == decode(name@, args@),
{
    if strings::str_eq(name, "session_write") {
        if args.len() == 1 {
            if let Some(lines) = args[0].as_array() {
                return match read_lines(lines) {
                    Ok(lines) => Ok(Some(HostEvent::SessionWrite(lines))),
                    Err(e) => Err(e),
                };
            }
        }
        Err(with_args("session_write expects one array of lines, got ", args))
    } else if strings::str_eq(name, "session_end") {
        Ok(Some(HostEvent::SessionEnd))
    } else if strings::str_eq(name, "nvim_dying") {
        Ok(Some(HostEvent::NvimDying))
    } else if strings::str_eq(name, "init_error") {
        if args.len() == 1 {
            if let Some(fields) = args[0].as_map() {
                let kind = match string_field(fields, "init_error", "kind") {
                    Ok(kind) => kind,
                    Err(e) => return Err(e),
                };
                let message = match string_field(fields, "init_error", "message") {
                    Ok(message) => message,
                    Err(e) => return Err(e),
                };
                return Ok(Some(HostEvent::InitError { kind, message }));
            }
        }
        Err(with_args("init_error expects one map with kind/message, got ", args))
    } else if strings::str_eq(name, "config_resolved") {
        if args.len() == 1 {
            if let Some(fields) = args[0].as_map() {
                let v = match field(fields, "config_resolved", "loaded") {
                    Ok(v) => v,
                    Err(e) => return Err(e),
                };
                let loaded: bool = match v.as_bool() {
                    Some(loaded) => loaded,
                    None => {
                        let mut e = String::from_str("config_resolved `loaded` is not a bool: ");
                        value::push_shown(&mut e, v);
                        return Err(e);
                    },
                };
                let dir = match string_field(fields, "config_resolved", "dir") {
                    Ok(dir) => dir,
                    Err(e) => return Err(e),
                };
                return Ok(Some(HostEvent::ConfigResolved { dir, loaded }));
            }
        }
        Err(with_args("config_resolved expects one map with dir/loaded, got ", args))
    } else {
        Ok(None)
    }
}

/// What is to be said of a payload that should not be there. `session_end` and `nvim_dying` carry
/// nothing, but count whatever they carry.
pub open spec fn payload_remark(name: Seq<char>, args: Seq<Value>) -> Option<Seq<char>> {
    if (name == "session_end"@ || name == "nvim_dying"@) && args.len() > 0 && !(args.len() == 1
        && args[0] is Nil) {
        Some("expected a nil payload, got "@ + shown_args(args) + "; ignoring the payload"@)
    } else {
        None
    }
}

/// What is to be logged of a payload that should not be there, if there is one.
pub fn warn_unexpected_payload(name: &str, args: &[Value]) -> (remark: Option<String>)
    ensures
        (match remark {
            Some(text) => payload_remark(name@, args@) == Some(text@),
            None => payload_remark(name@, args@) is None,
        }),
{
    if !strings::str_eq(name, "session_end") && !strings::str_eq(name, "nvim_dying") {
        return None;
    }
    if args.len() == 0 {
        return None;
    }
    if args.len() == 1 {
        if let Value::Nil = args[0] {
            return None;
        }
    }
    let mut text = with_args("expected a nil payload, got ", args);
    text.append("; ignoring the payload");
    Some(text)
}

/// Tells where a notification goes. Redraw batches are not looked into here: they are many, and
/// reading them is the business of [`crate::ui`].
pub fn route(name: &str, args: Vec<Value>) -> (incoming: Incoming)
    ensures
        (match incoming {
            Incoming::Redraw(batch) => name@ == "redraw"@ && batch == args,
            Incoming::Event(event) => name@ != "redraw"@ && decode(name@, args@) == Ok::<
                Option<HostEventView>,
                Seq<char>,
            >(Some(event@)),
            Incoming::Unknown => name@ != "redraw"@ && decode(name@, args@) == Ok::<
                Option<HostEventView>,
                Seq<char>,
            >(None),
            Incoming::Malformed(e) => name@ != "redraw"@ && decode(name@, args@) == Err::<
                Option<HostEventView>,
                Seq<char>,
            >(e@),
        }),
{
    if strings::str_eq(name, "redraw") {
        return Incoming::Redraw(args);
    }
    match parse_notification(name, args.as_slice()) {
        Ok(Some(event)) => Incoming::Event(event),
        Ok(None) => Incoming::Unknown,
        Err(e) => Incoming::Malformed(e),
    }
}

/// The lines of a buffer, as nvim takes and sends them.
pub open spec fn line_values(values: Seq<Value>, lines: Seq<Seq<char>>) -> bool {
    &&& values.len() == lines.len()
    &&& forall|i: int| 0 <= i < lines.len() ==> (#[trigger] values[i]).text() == Some(lines[i])
}

/// The arguments with which nvim starts a session: the lines, and the file type where there is one.
pub fn session_args(lines: &[String], filetype: Option<&str>) -> (args: Vec<Value>)
    ensures
        args@.len() == 2,
        args@[0].items() matches Some(values) && line_values(values, strings::texts(lines@)),
        (match filetype {
            Some(name) => args@[1].text() == Some(name@),
            None => args@[1] == Value::Nil,
        }),
{
    let mut values: Vec<Value> = Vec::new();
    let mut i: usize = 0;
    while i < lines.len()
        invariant
            i <= lines@.len(),
            values@.len() == i,
            forall|k: int| 0 <= k < i ==> (#[trigger] values@[k]).text() == Some(lines@[k]@),
        decreases lines@.len() - i,
    {
        values.push(Value::from_str(lines[i].as_str()));
        i = i + 1;
    }
    let mut args: Vec<Value> = Vec::new();
    args.push(Value::Array(values));
    args.push(
        match filetype {
            Some(name) => Value::from_str(name),
            None => Value::Nil,
        },
    );
    args
}

// ---- laws ----
/// Every buffer can be written: lines that arrive as texts are the lines of the event, all of them
/// and in their order.
pub proof fn law_written_lines_arrive(values: Seq<Value>, lines: Seq<Seq<char>>)
    requires
        line_values(values, lines),
    ensures
        decode_lines(values) == Ok::<Seq<Seq<char>>, Seq<char>>(lines),
    decreases values.len(),
{
    if values.len() > 0 {
        law_written_lines_arrive(values.drop_last(), lines.drop_last());
        assert(values.last() == values[values.len() - 1]);
        assert(lines.drop_last().push(lines.last()) =~= lines);
    } else {
        assert(lines =~= seq![]);
    }
}

/// The end of a session is taken whatever it carries.
pub proof fn law_session_end_is_never_lost(args: Seq<Value>)
    ensures
        decode("session_end"@, args) == Ok::<Option<HostEventView>, Seq<char>>(
            Some(HostEventView::SessionEnd),
        ),
        decode("nvim_dying"@, args) == Ok::<Option<HostEventView>, Seq<char>>(
            Some(HostEventView::NvimDying),
        ),
{
    reveal_strlit("session_write");
    reveal_strlit("session_end");
    reveal_strlit("nvim_dying");
    assert("session_end"@.len() != "session_write"@.len());
    assert("nvim_dying"@.len() != "session_write"@.len());
    assert("nvim_dying"@.len() != "session_end"@.len());
}

/// A notification of an unknown name is no error, whatever it carries.
pub proof fn law_unknown_notification_is_no_error(name: Seq<char>, args: Seq<Value>)
    requires
        name != "session_write"@,
        name != "session_end"@,
        name != "nvim_dying"@,
        name != "init_error"@,
        name != "config_resolved"@,
    ensures
        decode(name, args) == Ok::<Option<HostEventView>, Seq<char>>(None),
{
}

/// The connection ending is never told by a notification: nvim cannot report its own end.
pub proof fn law_no_notification_reports_the_end(name: Seq<char>, args: Seq<Value>)
    ensures
        decode(name, args) != Ok::<Option<HostEventView>, Seq<char>>(
            Some(HostEventView::Disconnected),
        ),
{
}

/// A write carries one array of texts, which are the lines of the buffer, all of them and in their
/// order.
pub proof fn law_write(payload: Value, values: Seq<Value>, lines: Seq<Seq<char>>)
    requires
        payload.items() == Some(values),
        values.len() == lines.len(),
        forall|i: int| 0 <= i < lines.len() ==> (#[trigger] values[i]).text() == Some(lines[i]),
    ensures
        decode("session_write"@, seq![payload]) == Ok::<Option<HostEventView>, Seq<char>>(
            Some(HostEventView::SessionWrite(lines)),
        ),
{
    law_written_lines_arrive(values, lines);
}

/// A line that is no text spoils the whole write: no part of a buffer is taken for the buffer. The
/// first such line is what is reported.
pub proof fn law_spoilt_write(payload: Value, values: Seq<Value>, k: int)
    requires
        payload.items() == Some(values),
        0 <= k < values.len(),
        values[k].text() is None,
        forall|i: int| 0 <= i < k ==> (#[trigger] values[i]).text() is Some,
    ensures
        decode("session_write"@, seq![payload]) == Err::<Option<HostEventView>, Seq<char>>(
            "session_write line is not a string: "@ + value::shown(values[k]),
        ),
{
    let before = values.take(k);
    let lines = Seq::new(k as nat, |i: int| values[i].text()->0);
    assert forall|i: int| 0 <= i < lines.len() implies (#[trigger] before[i]).text() == Some(
        lines[i],
    ) by {
        assert(values[i].text() is Some);
    }
    law_written_lines_arrive(before, lines);
    assert(values.take(k + 1).drop_last() =~= before);
    assert(values.take(k + 1).last() == values[k]);
    lemma_broken_lines(values, k + 1);
}

/// A write that carries anything but one array is refused.
pub proof fn law_write_of_another_shape(args: Seq<Value>)
    requires
        args.len() != 1 || args[0].items() is None,
    ensures
        decode("session_write"@, args) == Err::<Option<HostEventView>, Seq<char>>(
            "session_write expects one array of lines, got "@ + shown_args(args),
        ),
{
}

/// Whether the entry at `k` is the first one under `key`.
pub open spec fn first_under(fields: Seq<(Value, Value)>, key: Seq<char>, k: int) -> bool {
    &&& 0 <= k < fields.len()
    &&& fields[k].0.text() == Some(key)
    &&& forall|i: int| 0 <= i < k ==> (#[trigger] fields[i]).0.text() != Some(key)
}

/// Whether no entry stands under `key`.
pub open spec fn none_under(fields: Seq<(Value, Value)>, key: Seq<char>) -> bool {
    forall|i: int| 0 <= i < fields.len() ==> (#[trigger] fields[i]).0.text() != Some(key)
}

/// A field is looked up by its key, and the first entry under the key counts.
pub proof fn law_lookup(fields: Seq<(Value, Value)>, key: Seq<char>, k: int)
    ensures
        first_under(fields, key, k) ==> lookup(fields, key) == Some(fields[k].1),
        none_under(fields, key) ==> lookup(fields, key) is None,
    decreases fields.len(),
{
    if fields.len() > 0 {
        let rest = fields.drop_first();
        law_lookup(rest, key, k - 1);
        if fields[0].0.text() != Some(key) {
            if first_under(fields, key, k) {
                assert forall|i: int| 0 <= i < k - 1 implies (#[trigger] rest[i]).0.text() != Some(
                    key,
                ) by {
                    assert(rest[i] == fields[i + 1]);
                }
                assert(first_under(rest, key, k - 1));
            }
            if none_under(fields, key) {
                assert forall|i: int| 0 <= i < rest.len() implies (#[trigger] rest[i]).0.text()
                    != Some(key) by {
                    assert(rest[i] == fields[i + 1]);
                }
            }
        }
    }
}

/// The names of the notifications differ, so that none is taken for another.
proof fn lemma_names_differ()
    ensures
        "init_error"@ != "session_write"@,
        "init_error"@ != "session_end"@,
        "init_error"@ != "nvim_dying"@,
        "config_resolved"@ != "session_write"@,
        "config_resolved"@ != "session_end"@,
        "config_resolved"@ != "nvim_dying"@,
        "config_resolved"@ != "init_error"@,
{
    reveal_strlit("session_write");
    reveal_strlit("session_end");
    reveal_strlit("nvim_dying");
    reveal_strlit("init_error");
    reveal_strlit("config_resolved");
    assert("init_error"@.len() == 10 && "nvim_dying"@.len() == 10);
    assert("session_write"@.len() == 13 && "session_end"@.len() == 11);
    assert("config_resolved"@.len() == 15);
    assert("init_error"@[0] == 'i' && "nvim_dying"@[0] == 'n');
}

/// A report of a failed configuration carries its kind and its message, each a text under its key.
pub proof fn law_init_error(payload: Value, fields: Seq<(Value, Value)>, k: int, m: int)
    requires
        payload.entries() == Some(fields),
        first_under(fields, "kind"@, k),
        first_under(fields, "message"@, m),
        fields[k].1.text() is Some,
        fields[m].1.text() is Some,
    ensures
        decode("init_error"@, seq![payload]) == Ok::<Option<HostEventView>, Seq<char>>(
            Some(
                HostEventView::InitError {
                    kind: fields[k].1.text()->0,
                    message: fields[m].1.text()->0,
                },
            ),
        ),
{
    lemma_names_differ();
    law_lookup(fields, "kind"@, k);
    law_lookup(fields, "message"@, m);
}

/// A report of a failed configuration that lacks its kind or its message, or carries another shape,
/// is refused.
pub proof fn law_init_error_refused(args: Seq<Value>, k: int)
    ensures
        args.len() != 1 || args[0].entries() is None ==> decode("init_error"@, args) == Err::<
            Option<HostEventView>,
            Seq<char>,
        >("init_error expects one map with kind/message, got "@ + shown_args(args)),
        args.len() == 1 && args[0].entries() is Some ==> {
            let fields = args[0].entries()->0;
            &&& none_under(fields, "kind"@) ==> decode("init_error"@, args) is Err
            &&& none_under(fields, "message"@) ==> decode("init_error"@, args) is Err
            &&& first_under(fields, "kind"@, k) && fields[k].1.text() is None ==> decode(
                "init_error"@,
                args,
            ) is Err
            &&& first_under(fields, "message"@, k) && fields[k].1.text() is None ==> decode(
                "init_error"@,
                args,
            ) is Err
        },
{
    lemma_names_differ();
    if args.len() == 1 && args[0].entries() is Some {
        let fields = args[0].entries()->0;
        law_lookup(fields, "kind"@, k);
        law_lookup(fields, "message"@, k);
    }
}

/// The report on the user's configuration carries where it was looked for and whether it was loaded.
pub proof fn law_config_resolved(payload: Value, fields: Seq<(Value, Value)>, d: int, l: int)
    requires
        payload.entries() == Some(fields),
        first_under(fields, "dir"@, d),
        first_under(fields, "loaded"@, l),
        fields[d].1.text() is Some,
        fields[l].1.truth() is Some,
    ensures
        decode("config_resolved"@, seq![payload]) == Ok::<Option<HostEventView>, Seq<char>>(
            Some(
                HostEventView::ConfigResolved {
                    dir: fields[d].1.text()->0,
                    loaded: fields[l].1.truth()->0,
                },
            ),
        ),
{
    lemma_names_differ();
    law_lookup(fields, "dir"@, d);
    law_lookup(fields, "loaded"@, l);
}

/// The report on the user's configuration is refused where a field is missing or is not what it has
/// to be, or where it carries another shape.
pub proof fn law_config_resolved_refused(args: Seq<Value>, k: int)
    ensures
        args.len() != 1 || args[0].entries() is None ==> decode("config_resolved"@, args) == Err::<
            Option<HostEventView>,
            Seq<char>,
        >("config_resolved expects one map with dir/loaded, got "@ + shown_args(args)),
        args.len() == 1 && args[0].entries() is Some ==> {
            let fields = args[0].entries()->0;
            &&& none_under(fields, "dir"@) ==> decode("config_resolved"@, args) is Err
            &&& none_under(fields, "loaded"@) ==> decode("config_resolved"@, args) is Err
            &&& first_under(fields, "dir"@, k) && fields[k].1.text() is None ==> decode(
                "config_resolved"@,
                args,
            ) is Err
            &&& first_under(fields, "loaded"@, k) && fields[k].1.truth() is None ==> decode(
                "config_resolved"@,
                args,
            ) is Err
        },
{
    lemma_names_differ();
    if args.len() == 1 && args[0].entries() is Some {
        let fields = args[0].entries()->0;
        law_lookup(fields, "dir"@, k);
        law_lookup(fields, "loaded"@, k);
    }
}

/// A message names the field that is missing or has the wrong type, and shows what was there.
pub proof fn law_field_messages(
    fields: Seq<(Value, Value)>,
    event: Seq<char>,
    key: Seq<char>,
    k: int,
)
    ensures
        none_under(fields, key) ==> decode_text_field(fields, event, key) == Err::<
            Seq<char>,
            Seq<char>,
        >(event + " payload has no `"@ + key + "` field: "@ + shown_fields(fields)),
        first_under(fields, key, k) && fields[k].1.text() is None ==> decode_text_field(
            fields,
            event,
            key,
        ) == Err::<Seq<char>, Seq<char>>(
            event + " `"@ + key + "` is not a string: "@ + value::shown(fields[k].1),
        ),
        first_under(fields, key, k) ==> decode_field(fields, event, key) == Ok::<Value, Seq<char>>(
            fields[k].1,
        ),
{
    law_lookup(fields, key, k);
}

/// Something is remarked only of a payload on the two notifications that carry none, and only where
/// it is more than one nil.
pub proof fn law_payload_remark(name: Seq<char>, args: Seq<Value>)
    ensures
        args.len() == 0 ==> payload_remark(name, args) is None,
        args.len() == 1 && args[0] == Value::Nil ==> payload_remark(name, args) is None,
        name != "session_end"@ && name != "nvim_dying"@ ==> payload_remark(name, args) is None,
        args.len() == 1 && args[0] != Value::Nil || args.len() > 1 ==> payload_remark(
            "session_end"@,
            args,
        ) is Some && payload_remark("nvim_dying"@, args) is Some,
        payload_remark(name, args) matches Some(text) ==> text == "expected a nil payload, got "@ + (
        "["@ + value::shown_items(args) + "]"@) + "; ignoring the payload"@,
{
}

} // verus!
