//! Reading the arguments of an event. Every failure says what was being read.

use vstd::prelude::*;

use crate::ui::fault;
use crate::ui::fault::{Expected, Fault, RedrawError, Width};
use crate::ui::highlight::Rgb;
use crate::value;
use crate::value::Value;

verus! {

/// A value of another kind than expected.
pub open spec fn unexpected(v: Value, what: Seq<char>, expected: Expected) -> Fault {
    Fault::Unexpected { what, expected, got: value::shown(v) }
}

/// The argument at `index`.
pub open spec fn read_arg(args: Seq<Value>, index: int, event: Seq<char>) -> Result<Value, Fault> {
    if index < args.len() {
        Ok(args[index])
    } else {
        Err(Fault::Missing { event, index, carried: args.len() as int })
    }
}

pub open spec fn read_array(v: Value, what: Seq<char>) -> Result<Seq<Value>, Fault> {
    match v.items() {
        Some(items) => Ok(items),
        None => Err(unexpected(v, what, Expected::Array)),
    }
}

pub open spec fn read_map(v: Value, what: Seq<char>) -> Result<Seq<(Value, Value)>, Fault> {
    match v.entries() {
        Some(entries) => Ok(entries),
        None => Err(unexpected(v, what, Expected::Dict)),
    }
}

pub open spec fn read_str(v: Value, what: Seq<char>) -> Result<Seq<char>, Fault> {
    match v.text() {
        Some(text) => Ok(text),
        None => Err(unexpected(v, what, Expected::Text)),
    }
}

pub open spec fn read_bool(v: Value, what: Seq<char>) -> Result<bool, Fault> {
    match v.truth() {
        Some(b) => Ok(b),
        None => Err(unexpected(v, what, Expected::Truth)),
    }
}

pub open spec fn read_u64(v: Value, what: Seq<char>) -> Result<u64, Fault> {
    if v.number() matches Some(n) && 0 <= n <= u64::MAX {
        Ok(v.number()->0 as u64)
    } else {
        Err(unexpected(v, what, Expected::NonNegative))
    }
}

pub open spec fn read_i64(v: Value, what: Seq<char>) -> Result<i64, Fault> {
    if v.number() matches Some(n) && i64::MIN <= n <= i64::MAX {
        Ok(v.number()->0 as i64)
    } else {
        Err(unexpected(v, what, Expected::Integer))
    }
}

pub open spec fn read_u32(v: Value, what: Seq<char>) -> Result<u32, Fault> {
    match read_u64(v, what) {
        Ok(raw) => if raw <= u32::MAX {
            Ok(raw as u32)
        } else {
            Err(Fault::TooLarge { what, raw: raw as int, width: Width::U32 })
        },
        Err(f) => Err(f),
    }
}

/// A 24-bit colour. A larger number, or -1, breaks the protocol.
pub open spec fn read_rgb(v: Value, what: Seq<char>) -> Result<Rgb, Fault> {
    match read_u32(v, what) {
        Ok(raw) => if raw <= 0x00ff_ffff {
            Ok(Rgb(raw))
        } else {
            Err(Fault::NotAColour { what, raw: raw as int })
        },
        Err(f) => Err(f),
    }
}

pub open spec fn read_u8(v: Value, what: Seq<char>) -> Result<u8, Fault> {
    match read_u64(v, what) {
        Ok(raw) => if raw <= u8::MAX {
            Ok(raw as u8)
        } else {
            Err(Fault::TooLarge { what, raw: raw as int, width: Width::U8 })
        },
        Err(f) => Err(f),
    }
}

/// A number as an index of this machine.
pub open spec fn index_of(raw: int, what: Seq<char>) -> Result<usize, Fault> {
    if raw <= usize::MAX {
        Ok(raw as usize)
    } else {
        Err(Fault::TooLarge { what, raw, width: Width::Usize })
    }
}

pub open spec fn read_usize(v: Value, what: Seq<char>) -> Result<usize, Fault> {
    match read_u64(v, what) {
        Ok(raw) => index_of(raw as int, what),
        Err(f) => Err(f),
    }
}

/// The argument at `index`, read as an index.
pub open spec fn read_usize_arg(
    args: Seq<Value>,
    index: int,
    event: Seq<char>,
    what: Seq<char>,
) -> Result<usize, Fault> {
    match read_arg(args, index, event) {
        Ok(v) => read_usize(v, what),
        Err(f) => Err(f),
    }
}

/// The argument at `index`, read as a text.
pub open spec fn read_str_arg(
    args: Seq<Value>,
    index: int,
    event: Seq<char>,
    what: Seq<char>,
) -> Result<Seq<char>, Fault> {
    match read_arg(args, index, event) {
        Ok(v) => read_str(v, what),
        Err(f) => Err(f),
    }
}

/// The argument at `index`, read as a colour.
pub open spec fn read_rgb_arg(
    args: Seq<Value>,
    index: int,
    event: Seq<char>,
    what: Seq<char>,
) -> Result<Rgb, Fault> {
    match read_arg(args, index, event) {
        Ok(v) => read_rgb(v, what),
        Err(f) => Err(f),
    }
}

/// The argument at `index`, read as a truth value.
pub open spec fn read_bool_arg(
    args: Seq<Value>,
    index: int,
    event: Seq<char>,
    what: Seq<char>,
) -> Result<bool, Fault> {
    match read_arg(args, index, event) {
        Ok(v) => read_bool(v, what),
        Err(f) => Err(f),
    }
}

/// The argument at `index`, read as an array.
pub open spec fn read_array_arg(
    args: Seq<Value>,
    index: int,
    event: Seq<char>,
    what: Seq<char>,
) -> Result<Seq<Value>, Fault> {
    match read_arg(args, index, event) {
        Ok(v) => read_array(v, what),
        Err(f) => Err(f),
    }
}

fn refuse(v: &Value, what: &str, expected: Expected) -> (e: RedrawError)
    ensures
        e@ == unexpected(*v, what@, expected),
{
    let mut got = String::new();
    value::push_shown(&mut got, v);
    assert(got@ =~= value::shown(*v));
    RedrawError::Unexpected { what: what.to_owned(), expected, got }
}

pub(crate) fn arg<'a>(args: &'a [Value], index: usize, event: &str) -> (r: Result<
    &'a Value,
    RedrawError,
>)
    ensures
        (match r {
            Ok(v) => read_arg(args@, index as int, event@) == Ok::<Value, Fault>(*v),
            Err(e) => read_arg(args@, index as int, event@) == Err::<Value, Fault>(e@),
        }),
{
    if index < args.len() {
        Ok(&args[index])
    } else {
        Err(RedrawError::Missing { event: event.to_owned(), index, carried: args.len() })
    }
}

pub(crate) fn as_array<'a>(v: &'a Value, what: &str) -> (r: Result<&'a Vec<Value>, RedrawError>)
    ensures
        (match r {
            Ok(items) => read_array(*v, what@) == Ok::<Seq<Value>, Fault>(items@),
            Err(e) => read_array(*v, what@) == Err::<Seq<Value>, Fault>(e@),
        }),
{
    match v.as_array() {
        Some(items) => Ok(items),
        None => Err(refuse(v, what, Expected::Array)),
    }
}

pub(crate) fn as_map<'a>(v: &'a Value, what: &str) -> (r: Result<
    &'a Vec<(Value, Value)>,
    RedrawError,
>)
    ensures
        (match r {
            Ok(entries) => read_map(*v, what@) == Ok::<Seq<(Value, Value)>, Fault>(entries@),
            Err(e) => read_map(*v, what@) == Err::<Seq<(Value, Value)>, Fault>(e@),
        }),
{
    match v.as_map() {
        Some(entries) => Ok(entries),
        None => Err(refuse(v, what, Expected::Dict)),
    }
}

pub(crate) fn as_str<'a>(v: &'a Value, what: &str) -> (r: Result<&'a str, RedrawError>)
    ensures
        (match r {
            Ok(text) => read_str(*v, what@) == Ok::<Seq<char>, Fault>(text@),
            Err(e) => read_str(*v, what@) == Err::<Seq<char>, Fault>(e@),
        }),
{
    match v.as_str() {
        Some(text) => Ok(text),
        None => Err(refuse(v, what, Expected::Text)),
    }
}

pub(crate) fn as_bool(v: &Value, what: &str) -> (r: Result<bool, RedrawError>)
    ensures
        fault::seen(r) == read_bool(*v, what@),
{
    match v.as_bool() {
        Some(b) => Ok(b),
        None => Err(refuse(v, what, Expected::Truth)),
    }
}

pub(crate) fn as_u64(v: &Value, what: &str) -> (r: Result<u64, RedrawError>)
    ensures
        fault::seen(r) == read_u64(*v, what@),
{
    match v.as_u64() {
        Some(n) => Ok(n),
        None => Err(refuse(v, what, Expected::NonNegative)),
    }
}

pub(crate) fn as_i64(v: &Value, what: &str) -> (r: Result<i64, RedrawError>)
    ensures
        fault::seen(r) == read_i64(*v, what@),
{
    match v.as_i64() {
        Some(n) => Ok(n),
        None => Err(refuse(v, what, Expected::Integer)),
    }
}

pub(crate) fn as_u32(v: &Value, what: &str) -> (r: Result<u32, RedrawError>)
    ensures
        fault::seen(r) == read_u32(*v, what@),
{
    match as_u64(v, what) {
        Ok(raw) => if raw <= u32::MAX as u64 {
            Ok(raw as u32)
        } else {
            Err(RedrawError::TooLarge { what: what.to_owned(), raw, width: Width::U32 })
        },
        Err(e) => Err(e),
    }
}

pub(crate) fn as_rgb(v: &Value, what: &str) -> (r: Result<Rgb, RedrawError>)
    ensures
        fault::seen(r) == read_rgb(*v, what@),
{
    match as_u32(v, what) {
        Ok(raw) => if raw <= 0x00ff_ffff {
            Ok(Rgb(raw))
        } else {
            Err(RedrawError::NotAColour { what: what.to_owned(), raw: raw as u64 })
        },
        Err(e) => Err(e),
    }
}

pub(crate) fn as_u8(v: &Value, what: &str) -> (r: Result<u8, RedrawError>)
    ensures
        fault::seen(r) == read_u8(*v, what@),
{
    match as_u64(v, what) {
        Ok(raw) => if raw <= u8::MAX as u64 {
            Ok(raw as u8)
        } else {
            Err(RedrawError::TooLarge { what: what.to_owned(), raw, width: Width::U8 })
        },
        Err(e) => Err(e),
    }
}

pub(crate) fn as_usize_from(raw: u64, what: &str) -> (r: Result<usize, RedrawError>)
    ensures
        fault::seen(r) == index_of(raw as int, what@),
{
    if raw <= usize::MAX as u64 {
        Ok(raw as usize)
    } else {
        Err(RedrawError::TooLarge { what: what.to_owned(), raw, width: Width::Usize })
    }
}

pub(crate) fn as_usize(v: &Value, what: &str) -> (r: Result<usize, RedrawError>)
    ensures
        fault::seen(r) == read_usize(*v, what@),
{
    match as_u64(v, what) {
        Ok(raw) => as_usize_from(raw, what),
        Err(e) => Err(e),
    }
}

pub(crate) fn usize_arg(args: &[Value], index: usize, event: &str, what: &str) -> (r: Result<
    usize,
    RedrawError,
>)
    ensures
        fault::seen(r) == read_usize_arg(args@, index as int, event@, what@),
{
    match arg(args, index, event) {
        Ok(v) => as_usize(v, what),
        Err(e) => Err(e),
    }
}

pub(crate) fn rgb_arg(args: &[Value], index: usize, event: &str, what: &str) -> (r: Result<
    Rgb,
    RedrawError,
>)
    ensures
        fault::seen(r) == read_rgb_arg(args@, index as int, event@, what@),
{
    match arg(args, index, event) {
        Ok(v) => as_rgb(v, what),
        Err(e) => Err(e),
    }
}

pub(crate) fn bool_arg(args: &[Value], index: usize, event: &str, what: &str) -> (r: Result<
    bool,
    RedrawError,
>)
    ensures
        fault::seen(r) == read_bool_arg(args@, index as int, event@, what@),
{
    match arg(args, index, event) {
        Ok(v) => as_bool(v, what),
        Err(e) => Err(e),
    }
}

pub(crate) fn str_arg<'a>(args: &'a [Value], index: usize, event: &str, what: &str) -> (r: Result<
    &'a str,
    RedrawError,
>)
    ensures
        (match r {
            Ok(text) => read_str_arg(args@, index as int, event@, what@) == Ok::<Seq<char>, Fault>(
                text@,
            ),
            Err(e) => read_str_arg(args@, index as int, event@, what@) == Err::<Seq<char>, Fault>(
                e@,
            ),
        }),
{
    match arg(args, index, event) {
        Ok(v) => as_str(v, what),
        Err(e) => Err(e),
    }
}

pub(crate) fn array_arg<'a>(args: &'a [Value], index: usize, event: &str, what: &str) -> (r: Result<
    &'a Vec<Value>,
    RedrawError,
>)
    ensures
        (match r {
            Ok(items) => read_array_arg(args@, index as int, event@, what@) == Ok::<
                Seq<Value>,
                Fault,
            >(items@),
            Err(e) => read_array_arg(args@, index as int, event@, what@) == Err::<
                Seq<Value>,
                Fault,
            >(e@),
        }),
{
    match arg(args, index, event) {
        Ok(v) => as_array(v, what),
        Err(e) => Err(e),
    }
}

/// Each number is read in its own range: 64 bits with and without a sign, 32 bits, 8 bits, and the 24
/// bits of a colour. What lies outside is no number of that kind, and what is no number is none of
/// any kind.
pub proof fn law_numbers(v: Value, what: Seq<char>, n: int)
    ensures
        v.number() is None ==> read_u64(v, what) is Err && read_i64(v, what) is Err && read_u32(
            v,
            what,
        ) is Err && read_u8(v, what) is Err && read_rgb(v, what) is Err && read_usize(
            v,
            what,
        ) is Err,
        v.number() == Some(n) ==> {
            &&& read_u64(v, what) is Ok <==> 0 <= n <= 0xffff_ffff_ffff_ffff
            &&& read_i64(v, what) is Ok <==> -0x8000_0000_0000_0000 <= n <= 0x7fff_ffff_ffff_ffff
            &&& read_u32(v, what) is Ok <==> 0 <= n <= 0xffff_ffff
            &&& read_u8(v, what) is Ok <==> 0 <= n <= 0xff
            &&& read_rgb(v, what) is Ok <==> 0 <= n <= 0xff_ffff
            &&& read_usize(v, what) is Ok <==> 0 <= n <= usize::MAX
            &&& read_u64(v, what) matches Ok(x) ==> x == n
            &&& read_i64(v, what) matches Ok(x) ==> x == n
            &&& read_u32(v, what) matches Ok(x) ==> x == n
            &&& read_u8(v, what) matches Ok(x) ==> x == n
            &&& read_rgb(v, what) matches Ok(x) ==> x == Rgb(n as u32)
            &&& read_usize(v, what) matches Ok(x) ==> x == n
        },
{
}

} // verus!
