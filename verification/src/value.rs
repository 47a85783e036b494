//! Values as they arrive from nvim, decoded from MessagePack.

use vstd::prelude::*;

use crate::strings;

verus! {

/// A MessagePack integer. `Pos` holds every non-negative number, `Neg` the others.
#[derive(Clone, Copy, Debug, PartialEq, Eq)]
pub enum Integer {
    Pos(u64),
    Neg(i64),
}

/// A decoded value, as far as the interpreter reads it.
///
/// Floats, binaries, extension values and strings that are not UTF-8 are never read. They are
/// `Opaque`, and hold only the text under which an error message shows them.
#[derive(Debug, PartialEq, Eq)]
pub enum Value {
    Nil,
    Boolean(bool),
    Integer(Integer),
    Text(String),
    Array(Vec<Value>),
    Dict(Vec<(Value, Value)>),
    Opaque(String),
}

impl Integer {
    /// The number itself.
    pub open spec fn number(self) -> int {
        match self {
            Integer::Pos(n) => n as int,
            Integer::Neg(n) => n as int,
        }
    }
}

/// The quoted and escaped form in which `Debug` prints a text.
pub uninterp spec fn quoted(text: Seq<char>) -> Seq<char>;

/// What `Debug` prints for `text`: the text between double quotes, with the characters escaped
/// that `<str as std::fmt::Debug>::fmt` escapes. The result depends on `text` alone.
#[verifier::external_body]
pub(crate) fn quote(text: &str) -> (out: String)
    ensures
        out@ == quoted(text@),
{
    format!("{text:?}")
}

/// How an error message shows `value`.
pub open spec fn shown(value: Value) -> Seq<char>
    decreases value,
{
    match value {
        Value::Nil => "Nil"@,
        Value::Boolean(b) => "Boolean("@ + (if b {
            "true"@
        } else {
            "false"@
        }) + ")"@,
        Value::Integer(Integer::Pos(n)) => "Integer(PosInt("@ + strings::decimal(n as nat) + "))"@,
        Value::Integer(Integer::Neg(n)) => "Integer(NegInt("@ + strings::signed_decimal(n as int)
            + "))"@,
        Value::Text(s) => "String(Utf8String { s: Ok("@ + quoted(s@) + ") })"@,
        Value::Array(items) => "Array(["@ + shown_items(items@) + "])"@,
        Value::Dict(entries) => "Map(["@ + shown_entries(entries@) + "])"@,
        Value::Opaque(s) => s@,
    }
}

/// The items of an array, separated by commas.
pub open spec fn shown_items(items: Seq<Value>) -> Seq<char>
    decreases items,
{
    if items.len() == 0 {
        seq![]
    } else if items.len() == 1 {
        shown(items[0])
    } else {
        shown_items(items.drop_last()) + ", "@ + shown(items.last())
    }
}

/// The entries of a map, separated by commas.
pub open spec fn shown_entries(entries: Seq<(Value, Value)>) -> Seq<char>
    decreases entries,
{
    if entries.len() == 0 {
        seq![]
    } else {
        let before = if entries.len() == 1 {
            seq![]
        } else {
            shown_entries(entries.drop_last()) + ", "@
        };
        before + "("@ + shown(entries.last().0) + ", "@ + shown(entries.last().1) + ")"@
    }
}

impl Value {
    /// The items, where the value is an array.
    pub open spec fn items(self) -> Option<Seq<Value>> {
        match self {
            Value::Array(items) => Some(items@),
            _ => None,
        }
    }

    /// The entries in their order, where the value is a map.
    pub open spec fn entries(self) -> Option<Seq<(Value, Value)>> {
        match self {
            Value::Dict(entries) => Some(entries@),
            _ => None,
        }
    }

    /// The characters, where the value is a text.
    pub open spec fn text(self) -> Option<Seq<char>> {
        match self {
            Value::Text(s) => Some(s@),
            _ => None,
        }
    }

    /// The truth value, where the value is one.
    pub open spec fn truth(self) -> Option<bool> {
        match self {
            Value::Boolean(b) => Some(b),
            _ => None,
        }
    }

    /// The number, where the value is an integer.
    pub open spec fn number(self) -> Option<int> {
        match self {
            Value::Integer(n) => Some(n.number()),
            _ => None,
        }
    }

    pub fn as_array(&self) -> (items: Option<&Vec<Value>>)
        ensures
            (match items {
                Some(v) => self.items() == Some(v@),
                None => self.items() is None,
            }),
            items matches Some(v) ==> *self == Value::Array(*v),
    {
        match self {
            Value::Array(items) => Some(items),
            _ => None,
        }
    }

    pub fn as_map(&self) -> (entries: Option<&Vec<(Value, Value)>>)
        ensures
            (match entries {
                Some(v) => self.entries() == Some(v@),
                None => self.entries() is None,
            }),
    {
        match self {
            Value::Dict(entries) => Some(entries),
            _ => None,
        }
    }

    pub fn as_str(&self) -> (text: Option<&str>)
        ensures
            (match text {
                Some(s) => self.text() == Some(s@),
                None => self.text() is None,
            }),
    {
        match self {
            Value::Text(s) => Some(s.as_str()),
            _ => None,
        }
    }

    pub fn as_bool(&self) -> (truth: Option<bool>)
        ensures
            truth == self.truth(),
    {
        match self {
            Value::Boolean(b) => Some(*b),
            _ => None,
        }
    }

    /// The number, where it is one that `u64` holds.
    pub fn as_u64(&self) -> (number: Option<u64>)
        ensures
            (match number {
                Some(n) => self.number() == Some(n as int),
                None => !(self.number() matches Some(n) && 0 <= n <= u64::MAX),
            }),
    {
        match self {
            Value::Integer(Integer::Pos(n)) => Some(*n),
            Value::Integer(Integer::Neg(n)) => if *n >= 0 {
                Some(*n as u64)
            } else {
                None
            },
            _ => None,
        }
    }

    /// The number, where it is one that `i64` holds.
    pub fn as_i64(&self) -> (number: Option<i64>)
        ensures
            (match number {
                Some(n) => self.number() == Some(n as int),
                None => !(self.number() matches Some(n) && i64::MIN <= n <= i64::MAX),
            }),
    {
        match self {
            Value::Integer(Integer::Pos(n)) => if *n <= i64::MAX as u64 {
                Some(*n as i64)
            } else {
                None
            },
            Value::Integer(Integer::Neg(n)) => Some(*n),
            _ => None,
        }
    }

    /// A text value.
    pub fn from_str(s: &str) -> (value: Value)
        ensures
            value.text() == Some(s@),
    {
        Value::Text(s.to_owned())
    }

    /// A non-negative integer.
    pub fn from_u64(n: u64) -> (value: Value)
        ensures
            value == Value::Integer(Integer::Pos(n)),
            value.number() == Some(n as int),
    {
        Value::Integer(Integer::Pos(n))
    }

    /// An integer of either sign.
    pub fn from_i64(n: i64) -> (value: Value)
        ensures
            value.number() == Some(n as int),
            value == Value::Integer(if n < 0 { Integer::Neg(n) } else { Integer::Pos(n as u64) }),
    {
        if n < 0 {
            Value::Integer(Integer::Neg(n))
        } else {
            Value::Integer(Integer::Pos(n as u64))
        }
    }
}

/// Appends how an error message shows `value`.
pub fn push_shown(out: &mut String, value: &Value)
    ensures
        final(out)@ == old(out)@ + shown(*value),
    decreases value,
{
    match value {
        Value::Nil => out.append("Nil"),
        Value::Boolean(b) => {
            out.append("Boolean(");
            if *b {
                out.append("true");
            } else {
                out.append("false");
            }
            out.append(")");
        },
        Value::Integer(Integer::Pos(n)) => {
            out.append("Integer(PosInt(");
            strings::push_decimal(out, *n);
            out.append("))");
        },
        Value::Integer(Integer::Neg(n)) => {
            out.append("Integer(NegInt(");
            strings::push_signed(out, *n);
            out.append("))");
        },
        Value::Text(s) => {
            out.append("String(Utf8String { s: Ok(");
            let text = quote(s.as_str());
            out.append(text.as_str());
            out.append(") })");
        },
        Value::Array(items) => {
            out.append("Array([");
            push_shown_items(out, items.as_slice());
            out.append("])");
        },
        Value::Dict(entries) => {
            out.append("Map([");
            push_shown_entries(out, entries);
            out.append("])");
        },
        Value::Opaque(s) => out.append(s.as_str()),
    }
    assert(out@ =~= old(out)@ + shown(*value));
}

/// Appends the items of an array, separated by commas.
pub fn push_shown_items(out: &mut String, items: &[Value])
    ensures
        final(out)@ == old(out)@ + shown_items(items@),
    decreases items@,
{
    let mut i: usize = 0;
    assert(old(out)@ + shown_items(items@.take(0)) =~= old(out)@);
    while i < items.len()
        invariant
            i <= items@.len(),
            out@ == old(out)@ + shown_items(items@.take(i as int)),
        decreases items@.len() - i,
    {
        if i > 0 {
            out.append(", ");
        }
        push_shown(out, &items[i]);
        assert(items@.take(i + 1).drop_last() =~= items@.take(i as int));
        assert(out@ =~= old(out)@ + shown_items(items@.take(i + 1)));
        i = i + 1;
    }
    assert(items@.take(items@.len() as int) =~= items@);
}

/// Appends the entries of a map, separated by commas.
pub fn push_shown_entries(out: &mut String, entries: &Vec<(Value, Value)>)
    ensures
        final(out)@ == old(out)@ + shown_entries(entries@),
    decreases entries,
{
    let mut i: usize = 0;
    assert(old(out)@ + shown_entries(entries@.take(0)) =~= old(out)@);
    while i < entries.len()
        invariant
            i <= entries@.len(),
            out@ == old(out)@ + shown_entries(entries@.take(i as int)),
        decreases entries@.len() - i,
    {
        if i > 0 {
            out.append(", ");
        }
        out.append("(");
        push_shown(out, &entries[i].0);
        out.append(", ");
        push_shown(out, &entries[i].1);
        out.append(")");
        assert(entries@.take(i + 1).drop_last() =~= entries@.take(i as int));
        assert(out@ =~= old(out)@ + shown_entries(entries@.take(i + 1)));
        i = i + 1;
    }
    assert(entries@.take(entries@.len() as int) =~= entries@);
}

/// A value is read as what it is, and as nothing else.
pub proof fn law_readings(value: Value)
    ensures
        value.items() is Some <==> value is Array,
        value.entries() is Some <==> value is Dict,
        value.text() is Some <==> value is Text,
        value.truth() is Some <==> value is Boolean,
        value.number() is Some <==> value is Integer,
        forall|v: Vec<Value>| #[trigger] Value::Array(v).items() == Some(v@),
        forall|v: Vec<(Value, Value)>| #[trigger] Value::Dict(v).entries() == Some(v@),
        forall|s: String| #[trigger] Value::Text(s).text() == Some(s@),
        forall|b: bool| #[trigger] Value::Boolean(b).truth() == Some(b),
        forall|n: u64| #[trigger] Value::Integer(Integer::Pos(n)).number() == Some(n as int),
        forall|n: i64| #[trigger] Value::Integer(Integer::Neg(n)).number() == Some(n as int),
{
}

/// How a message shows each value.
pub proof fn law_shown(n: u64, m: i64, s: String, items: Vec<Value>, entries: Vec<(Value, Value)>)
    ensures
        shown(Value::Nil) == "Nil"@,
        shown(Value::Boolean(true)) == "Boolean("@ + "true"@ + ")"@,
        shown(Value::Boolean(false)) == "Boolean("@ + "false"@ + ")"@,
        shown(Value::Integer(Integer::Pos(n))) == "Integer(PosInt("@ + strings::decimal(n as nat)
            + "))"@,
        m < 0 ==> shown(Value::Integer(Integer::Neg(m))) == "Integer(NegInt("@ + (seq!['-']
            + strings::decimal((-m) as nat)) + "))"@,
        shown(Value::Text(s)) == "String(Utf8String { s: Ok("@ + quoted(s@) + ") })"@,
        shown(Value::Opaque(s)) == s@,
        shown(Value::Array(items)) == "Array(["@ + shown_items(items@) + "])"@,
        shown(Value::Dict(entries)) == "Map(["@ + shown_entries(entries@) + "])"@,
{
    reveal_with_fuel(shown, 2);
}

/// A list is shown from its first item to its last, with a comma and a space between two.
pub proof fn law_shown_in_order(first: Value, rest: Seq<Value>)
    ensures
        shown_items(seq![]) == Seq::<char>::empty(),
        shown_items(seq![first]) == shown(first),
        rest.len() > 0 ==> shown_items(seq![first] + rest) == shown(first) + ", "@ + shown_items(
            rest,
        ),
    decreases rest.len(),
{
    let all = seq![first] + rest;
    if rest.len() == 1 {
        assert(all.drop_last() =~= seq![first]);
        reveal_with_fuel(shown_items, 3);
        assert(rest[0] == all.last());
    } else if rest.len() > 1 {
        law_shown_in_order(first, rest.drop_last());
        assert(all.drop_last() =~= seq![first] + rest.drop_last());
        assert(shown_items(all) =~= shown(first) + ", "@ + shown_items(rest));
    }
}

/// The entries of a map are shown as pairs, from the first to the last.
pub proof fn law_entries_shown_in_order(key: Value, value: Value, rest: Seq<(Value, Value)>)
    ensures
        shown_entries(seq![]) == Seq::<char>::empty(),
        shown_entries(seq![(key, value)]) == "("@ + shown(key) + ", "@ + shown(value) + ")"@,
        rest.len() > 0 ==> shown_entries(seq![(key, value)] + rest) == "("@ + shown(key) + ", "@
            + shown(value) + ")"@ + ", "@ + shown_entries(rest),
    decreases rest.len(),
{
    let one = seq![(key, value)];
    let all = one + rest;
    assert(shown_entries(one) =~= "("@ + shown(key) + ", "@ + shown(value) + ")"@);
    if rest.len() == 1 {
        assert(all.drop_last() =~= one);
        assert(rest.last() == all.last());
        assert(shown_entries(all) =~= shown_entries(one) + ", "@ + shown_entries(rest));
    } else if rest.len() > 1 {
        law_entries_shown_in_order(key, value, rest.drop_last());
        assert(all.drop_last() =~= one + rest.drop_last());
        assert(rest.last() == all.last());
        assert(shown_entries(all) =~= shown_entries(one) + ", "@ + shown_entries(rest));
    }
}

} // verus!
