//! What can be wrong with a redraw event.

use vstd::prelude::*;

use crate::strings;
use crate::value;

verus! {

/// The kind of value that an event should have carried.
#[derive(Clone, Copy, Debug, PartialEq, Eq, Structural)]
pub enum Expected {
    Array,
    Dict,
    Text,
    Truth,
    NonNegative,
    Integer,
}

/// An integer type that a number has to fit.
#[derive(Clone, Copy, Debug, PartialEq, Eq, Structural)]
pub enum Width {
    U8,
    U32,
    Usize,
}

/// Why a known event could not be applied.
#[derive(Debug, PartialEq, Eq)]
pub enum RedrawError {
    /// The event array holds not even a name.
    EmptyEvent,
    /// The event carries too few arguments.
    Missing { event: String, index: usize, carried: usize },
    /// A value is of another kind; `got` shows it.
    Unexpected { what: String, expected: Expected, got: String },
    /// A number is too large for what it stands for.
    TooLarge { what: String, raw: u64, width: Width },
    /// A number has more than 24 bits.
    NotAColour { what: String, raw: u64 },
    /// `grid_line` names a row that the grid does not have.
    RowOutside { row: usize, rows: usize },
    /// A cell of `grid_line` has no item, or more than three.
    BadCell { items: usize },
    /// The first cell of a `grid_line` names no highlight.
    NoHighlight,
    /// A cell of `grid_line` lies behind the last column.
    ColumnOutside { col: usize, cols: usize },
    /// `grid_scroll` asks for sideways scrolling.
    Horizontal { by: i64 },
    /// The rows of `grid_scroll` do not fit the grid.
    RowRange { top: usize, bot: usize, rows: usize },
    /// The columns of `grid_scroll` do not fit the grid.
    ColumnRange { left: usize, right: usize, cols: usize },
    /// A blend above 100.
    BadBlend { blend: u8 },
    /// A cursor shape that is not known.
    UnknownShape { name: String },
}

/// A [`RedrawError`] as a mathematical value.
#[verifier::ext_equal]
pub enum Fault {
    EmptyEvent,
    Missing { event: Seq<char>, index: int, carried: int },
    Unexpected { what: Seq<char>, expected: Expected, got: Seq<char> },
    TooLarge { what: Seq<char>, raw: int, width: Width },
    NotAColour { what: Seq<char>, raw: int },
    RowOutside { row: int, rows: int },
    BadCell { items: int },
    NoHighlight,
    ColumnOutside { col: int, cols: int },
    Horizontal { by: int },
    RowRange { top: int, bot: int, rows: int },
    ColumnRange { left: int, right: int, cols: int },
    BadBlend { blend: int },
    UnknownShape { name: Seq<char> },
}

impl View for RedrawError {
    type V = Fault;

    open spec fn view(&self) -> Fault {
        match *self {
            RedrawError::EmptyEvent => Fault::EmptyEvent,
            RedrawError::Missing { event, index, carried } => Fault::Missing {
                event: event@,
                index: index as int,
                carried: carried as int,
            },
            RedrawError::Unexpected { what, expected, got } => Fault::Unexpected {
                what: what@,
                expected,
                got: got@,
            },
            RedrawError::TooLarge { what, raw, width } => Fault::TooLarge {
                what: what@,
                raw: raw as int,
                width,
            },
            RedrawError::NotAColour { what, raw } => Fault::NotAColour {
                what: what@,
                raw: raw as int,
            },
            RedrawError::RowOutside { row, rows } => Fault::RowOutside {
                row: row as int,
                rows: rows as int,
            },
            RedrawError::BadCell { items } => Fault::BadCell { items: items as int },
            RedrawError::NoHighlight => Fault::NoHighlight,
            RedrawError::ColumnOutside { col, cols } => Fault::ColumnOutside {
                col: col as int,
                cols: cols as int,
            },
            RedrawError::Horizontal { by } => Fault::Horizontal { by: by as int },
            RedrawError::RowRange { top, bot, rows } => Fault::RowRange {
                top: top as int,
                bot: bot as int,
                rows: rows as int,
            },
            RedrawError::ColumnRange { left, right, cols } => Fault::ColumnRange {
                left: left as int,
                right: right as int,
                cols: cols as int,
            },
            RedrawError::BadBlend { blend } => Fault::BadBlend { blend: blend as int },
            RedrawError::UnknownShape { name } => Fault::UnknownShape { name: name@ },
        }
    }
}

/// A result with the error as a mathematical value.
pub open spec fn seen<T>(r: Result<T, RedrawError>) -> Result<T, Fault> {
    match r {
        Ok(x) => Ok(x),
        Err(e) => Err(e@),
    }
}

/// The name of a kind of value in a message.
pub open spec fn expected_text(expected: Expected) -> Seq<char> {
    match expected {
        Expected::Array => "an array"@,
        Expected::Dict => "a map"@,
        Expected::Text => "a string"@,
        Expected::Truth => "a boolean"@,
        Expected::NonNegative => "a non-negative integer"@,
        Expected::Integer => "an integer"@,
    }
}

/// The name of an integer type in a message.
pub open spec fn width_text(width: Width) -> Seq<char> {
    match width {
        Width::U8 => "u8"@,
        Width::U32 => "u32"@,
        Width::Usize => "usize"@,
    }
}

/// The message of a fault. It always says what was being read when the event turned out broken.
pub open spec fn message_text(fault: Fault) -> Seq<char> {
    match fault {
        Fault::EmptyEvent => "redraw event: the event array is empty"@,
        Fault::Missing { event, index, carried } => event + ": argument "@
            + strings::decimal(index as nat) + " is missing (the event carries "@
            + strings::decimal(carried as nat) + ")"@,
        Fault::Unexpected { what, expected, got } => what + ": expected "@ + expected_text(expected)
            + ", got "@ + got,
        Fault::TooLarge { what, raw, width } => what + ": "@ + strings::decimal(raw as nat)
            + " does not fit in "@ + width_text(width),
        Fault::NotAColour { what, raw } => what + ": "@ + strings::decimal(raw as nat)
            + " is not a 24-bit color"@,
        Fault::RowOutside { row, rows } => "grid_line: row "@ + strings::decimal(row as nat)
            + " is outside the "@ + strings::decimal(rows as nat) + "-row grid"@,
        Fault::BadCell { items } => "grid_line: a cell must be [text(, hl_id, repeat)], got "@
            + strings::decimal(items as nat) + " items"@,
        Fault::NoHighlight => "grid_line: the first cell carries no hl_id"@,
        Fault::ColumnOutside { col, cols } => "grid_line: column "@ + strings::decimal(col as nat)
            + " is outside the "@ + strings::decimal(cols as nat) + " columns"@,
        Fault::Horizontal { by } =>
            "grid_scroll: horizontal scrolling is not in the protocol (cols="@
            + strings::signed_decimal(by) + ")"@,
        Fault::RowRange { top, bot, rows } => "grid_scroll: row range ["@ + strings::decimal(
            top as nat,
        ) + ", "@ + strings::decimal(bot as nat) + ") does not fit a "@ + strings::decimal(
            rows as nat,
        ) + "-row grid"@,
        Fault::ColumnRange { left, right, cols } => "grid_scroll: column range ["@
            + strings::decimal(left as nat) + ", "@ + strings::decimal(right as nat)
            + ") does not fit "@ + strings::decimal(cols as nat) + " columns"@,
        Fault::BadBlend { blend } => "hl_attr_define: blend must be 0..=100, got "@
            + strings::decimal(blend as nat),
        Fault::UnknownShape { name } => "mode_info_set: unknown cursor_shape "@ + value::quoted(name),
    }
}

impl RedrawError {
    /// The error in words.
    pub fn message(&self) -> (text: String)
        ensures
            text@ == message_text(self@),
    {
        let mut out = String::new();
        match self {
            RedrawError::EmptyEvent => out.append("redraw event: the event array is empty"),
            RedrawError::Missing { event, index, carried } => {
                out.append(event.as_str());
                out.append(": argument ");
                strings::push_decimal(&mut out, *index as u64);
                out.append(" is missing (the event carries ");
                strings::push_decimal(&mut out, *carried as u64);
                out.append(")");
            },
            RedrawError::Unexpected { what, expected, got } => {
                out.append(what.as_str());
                out.append(": expected ");
                match expected {
                    Expected::Array => out.append("an array"),
                    Expected::Dict => out.append("a map"),
                    Expected::Text => out.append("a string"),
                    Expected::Truth => out.append("a boolean"),
                    Expected::NonNegative => out.append("a non-negative integer"),
                    Expected::Integer => out.append("an integer"),
                }
                out.append(", got ");
                out.append(got.as_str());
            },
            RedrawError::TooLarge { what, raw, width } => {
                out.append(what.as_str());
                out.append(": ");
                strings::push_decimal(&mut out, *raw);
                out.append(" does not fit in ");
                match width {
                    Width::U8 => out.append("u8"),
                    Width::U32 => out.append("u32"),
                    Width::Usize => out.append("usize"),
                }
            },
            RedrawError::NotAColour { what, raw } => {
                out.append(what.as_str());
                out.append(": ");
                strings::push_decimal(&mut out, *raw);
                out.append(" is not a 24-bit color");
            },
            RedrawError::RowOutside { row, rows } => {
                out.append("grid_line: row ");
                strings::push_decimal(&mut out, *row as u64);
                out.append(" is outside the ");
                strings::push_decimal(&mut out, *rows as u64);
                out.append("-row grid");
            },
            RedrawError::BadCell { items } => {
                out.append("grid_line: a cell must be [text(, hl_id, repeat)], got ");
                strings::push_decimal(&mut out, *items as u64);
                out.append(" items");
            },
            RedrawError::NoHighlight => out.append("grid_line: the first cell carries no hl_id"),
            RedrawError::ColumnOutside { col, cols } => {
                out.append("grid_line: column ");
                strings::push_decimal(&mut out, *col as u64);
                out.append(" is outside the ");
                strings::push_decimal(&mut out, *cols as u64);
                out.append(" columns");
            },
            RedrawError::Horizontal { by } => {
                out.append("grid_scroll: horizontal scrolling is not in the protocol (cols=");
                strings::push_signed(&mut out, *by);
                out.append(")");
            },
            RedrawError::RowRange { top, bot, rows } => {
                out.append("grid_scroll: row range [");
                strings::push_decimal(&mut out, *top as u64);
                out.append(", ");
                strings::push_decimal(&mut out, *bot as u64);
                out.append(") does not fit a ");
                strings::push_decimal(&mut out, *rows as u64);
                out.append("-row grid");
            },
            RedrawError::ColumnRange { left, right, cols } => {
                out.append("grid_scroll: column range [");
                strings::push_decimal(&mut out, *left as u64);
                out.append(", ");
                strings::push_decimal(&mut out, *right as u64);
                out.append(") does not fit ");
                strings::push_decimal(&mut out, *cols as u64);
                out.append(" columns");
            },
            RedrawError::BadBlend { blend } => {
                out.append("hl_attr_define: blend must be 0..=100, got ");
                strings::push_decimal(&mut out, *blend as u64);
            },
            RedrawError::UnknownShape { name } => {
                out.append("mode_info_set: unknown cursor_shape ");
                let name = value::quote(name.as_str());
                out.append(name.as_str());
            },
        }
        assert(out@ =~= message_text(self@));
        out
    }
}

/// A message says in words what was wrong, and shows what it was about.
pub proof fn law_messages(what: Seq<char>, got: Seq<char>, a: nat, b: nat, c: nat, by: int)
    ensures
        message_text(Fault::EmptyEvent) == "redraw event: the event array is empty"@,
        message_text(Fault::Missing { event: what, index: a as int, carried: b as int }) == what
            + ": argument "@ + strings::decimal(a) + " is missing (the event carries "@
            + strings::decimal(b) + ")"@,
        message_text(Fault::NotAColour { what, raw: a as int }) == what + ": "@ + strings::decimal(a)
            + " is not a 24-bit color"@,
        message_text(Fault::RowOutside { row: a as int, rows: b as int }) == "grid_line: row "@
            + strings::decimal(a) + " is outside the "@ + strings::decimal(b) + "-row grid"@,
        message_text(Fault::BadCell { items: a as int })
            == "grid_line: a cell must be [text(, hl_id, repeat)], got "@ + strings::decimal(a)
            + " items"@,
        message_text(Fault::NoHighlight) == "grid_line: the first cell carries no hl_id"@,
        message_text(Fault::ColumnOutside { col: a as int, cols: b as int })
            == "grid_line: column "@ + strings::decimal(a) + " is outside the "@ + strings::decimal(b)
            + " columns"@,
        message_text(Fault::Horizontal { by })
            == "grid_scroll: horizontal scrolling is not in the protocol (cols="@
            + strings::signed_decimal(by) + ")"@,
        message_text(Fault::RowRange { top: a as int, bot: b as int, rows: c as int })
            == "grid_scroll: row range ["@ + strings::decimal(a) + ", "@ + strings::decimal(b)
            + ") does not fit a "@ + strings::decimal(c) + "-row grid"@,
        message_text(Fault::ColumnRange { left: a as int, right: b as int, cols: c as int })
            == "grid_scroll: column range ["@ + strings::decimal(a) + ", "@ + strings::decimal(b)
            + ") does not fit "@ + strings::decimal(c) + " columns"@,
        message_text(Fault::BadBlend { blend: a as int })
            == "hl_attr_define: blend must be 0..=100, got "@ + strings::decimal(a),
        message_text(Fault::UnknownShape { name: what }) == "mode_info_set: unknown cursor_shape "@
            + value::quoted(what),
{
}

/// A message on a value names the kind of value that was expected, and one on a number the type that
/// it does not fit.
pub proof fn law_messages_on_values(what: Seq<char>, got: Seq<char>, raw: nat)
    ensures
        ({
            let on = |expected: Expected| message_text(Fault::Unexpected { what, expected, got });
            let text = |name: Seq<char>| what + ": expected "@ + name + ", got "@ + got;
            &&& on(Expected::Array) == text("an array"@)
            &&& on(Expected::Dict) == text("a map"@)
            &&& on(Expected::Text) == text("a string"@)
            &&& on(Expected::Truth) == text("a boolean"@)
            &&& on(Expected::NonNegative) == text("a non-negative integer"@)
            &&& on(Expected::Integer) == text("an integer"@)
        }),
        ({
            let on = |width: Width| message_text(Fault::TooLarge { what, raw: raw as int, width });
            let text = |name: Seq<char>|
                what + ": "@ + strings::decimal(raw) + " does not fit in "@ + name;
            &&& on(Width::U8) == text("u8"@)
            &&& on(Width::U32) == text("u32"@)
            &&& on(Width::Usize) == text("usize"@)
        }),
{
}

} // verus!
