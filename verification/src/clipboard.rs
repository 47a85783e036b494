//! nvim's `+` and `*` registers on the clipboard of the operating system.
//!
//! The bundled nvim is headless and has no clipboard provider of its own: it asks the host. All the
//! conversion there is lies in one point, a break at the end of the text means whole lines, and it
//! is needed in one direction only. When nvim yanks whole lines it hands over an empty last line, so
//! joining the lines gives the text its break at the end by itself.

use vstd::prelude::*;

use crate::strings;
use crate::text;
use crate::utf16;

verus! {

/// The clipboard that the registers live on.
pub trait Clipboard {
    /// The text on the clipboard; empty where there is none.
    fn get(&self) -> Result<String, String>;

    /// Replaces the text on the clipboard.
    fn set(&mut self, text: &str) -> Result<(), String>;
}

/// The kind of a register.
#[derive(Debug, Clone, Copy, PartialEq, Eq, Structural)]
pub enum RegType {
    /// Characters (`v`).
    Char,
    /// Whole lines (`V`).
    Line,
}

/// A clipboard inside the process.
#[derive(Debug)]
pub struct Memory {
    text: String,
}

/// The kind of register that `raw` makes.
pub open spec fn reg_type(raw: Seq<char>) -> RegType {
    if text::ends_with_break(raw) {
        RegType::Line
    } else {
        RegType::Char
    }
}

impl RegType {
    /// How nvim spells the kind.
    pub fn as_nvim(self) -> (name: &'static str)
        ensures
            name@ == match self {
                RegType::Char => "v"@,
                RegType::Line => "V"@,
            },
    {
        match self {
            RegType::Char => "v",
            RegType::Line => "V",
        }
    }
}

/// The text of the clipboard as a register. The break at the end, which the lines lose, turns into
/// the kind of the register.
pub fn to_register(raw: &str) -> (register: (Vec<String>, RegType))
    ensures
        strings::texts(register.0@) == text::lines_of(raw@),
        register.1 == reg_type(raw@),
{
    let chars = strings::chars_of(raw);
    let kind = if chars.len() > 0 && (chars[chars.len() - 1] == '\n' || chars[chars.len() - 1]
        == '\r') {
        RegType::Line
    } else {
        RegType::Char
    };
    (text::to_lines(raw), kind)
}

impl View for Memory {
    type V = Seq<char>;

    closed spec fn view(&self) -> Seq<char> {
        self.text@
    }
}

impl Default for Memory {
    fn default() -> (memory: Memory)
        ensures
            memory@ == Seq::<char>::empty(),
    {
        Memory { text: String::new() }
    }
}

impl Memory {
    /// The text that is on it now.
    pub fn contents(&self) -> (text: String)
        ensures
            text@ == self@,
    {
        self.text.clone()
    }

    /// Puts a text on it.
    pub fn put(&mut self, text: &str)
        ensures
            final(self)@ == text@,
    {
        self.text = text.to_owned();
    }
}

impl Clipboard for Memory {
    fn get(&self) -> (text: Result<String, String>)
        ensures
            text matches Ok(t) && t@ == self@,
    {
        Ok(self.contents())
    }

    fn set(&mut self, text: &str) -> (done: Result<(), String>)
        ensures
            done is Ok,
            final(self)@ == text@,
    {
        self.put(text);
        Ok(())
    }
}

/// Lines that nvim yanks as whole lines, with an empty line after them, come back as the same whole
/// lines, though nobody looked at the kind of the register.
pub proof fn law_linewise_yank_comes_back(lines: Seq<Seq<char>>)
    requires
        lines.len() >= 1,
        text::all_unbroken(lines),
    ensures
        ({
            let raw = text::crlf_of(lines.push(seq![]));
            text::lines_of(raw) == lines && reg_type(raw) == RegType::Line
        }),
{
    let yanked = lines.push(seq![]);
    assert forall|i: int| 0 <= i < yanked.len() implies text::unbroken(#[trigger] yanked[i]) by {
        if i < lines.len() {
            assert(yanked[i] == lines[i]);
        }
    }
    text::law_join_and_split(yanked);
    assert(yanked.drop_last() =~= lines);
    assert(text::crlf_of(yanked) =~= text::crlf_of(lines) + seq!['\r', '\n']);
}

/// Text that nvim yanks by characters comes back by characters, as it was. (An empty last line of
/// several is how nvim marks whole lines.)
pub proof fn law_charwise_yank_comes_back(lines: Seq<Seq<char>>)
    requires
        lines.len() >= 1,
        text::all_unbroken(lines),
        lines.len() == 1 || lines.last().len() > 0,
    ensures
        ({
            let raw = text::crlf_of(lines);
            text::lines_of(raw) == lines && reg_type(raw) == RegType::Char
        }),
{
    text::law_join_and_split(lines);
    let raw = text::crlf_of(lines);
    let last = lines.last();
    assert(text::unbroken(lines[lines.len() - 1]));
    if raw.len() > 0 {
        if lines.len() == 1 {
            assert(raw.last() == last[last.len() - 1]);
        } else {
            assert(raw.last() == last[last.len() - 1]);
        }
    }
}

/// A text that was on the clipboard of the operating system, put aside for the time that the
/// clipboard is needed. Only text is kept: what else lay there cannot be put back.
#[derive(Debug)]
pub struct Snapshot {
    text: Option<String>,
}

/// How the clipboard gets back what was put aside.
#[derive(Debug, PartialEq, Eq)]
pub enum Restore {
    /// These code units go on it.
    Put(Vec<u16>),
    /// It is emptied.
    Empty,
}

/// How waiting goes on.
#[derive(Clone, Copy, Debug, PartialEq, Eq, Structural)]
pub enum Waited {
    Done,
    TimedOut,
    /// Look again in a moment.
    Again,
}

impl View for Snapshot {
    type V = Option<Seq<char>>;

    closed spec fn view(&self) -> Option<Seq<char>> {
        match self.text {
            Some(text) => Some(text@),
            None => None,
        }
    }
}

/// The text in the memory block of the clipboard, which ends at the first zero or with the block;
/// nothing if there is no text on the clipboard.
pub fn get_text(block: Option<&[u16]>) -> (text: Option<String>)
    ensures
        (match block {
            Some(units) => text matches Some(t) && t@ == utf16::decoded(utf16::before_nul(units@)),
            None => text is None,
        }),
{
    match block {
        Some(units) => Some(utf16::decode_until_nul(units)),
        None => None,
    }
}

/// The memory block for a text.
pub fn set_text(text: &str) -> (block: Vec<u16>)
    ensures
        block@ == utf16::encoded(text@).push(0),
{
    utf16::wide_nul(text)
}

/// What a register shows of the clipboard: nothing to paste is an empty text.
pub fn pasted(text: Option<String>) -> (shown: String)
    ensures
        shown@ == (match text {
            Some(t) => t@,
            None => Seq::<char>::empty(),
        }),
{
    match text {
        Some(t) => t,
        None => String::new(),
    }
}

/// Puts aside what is on the clipboard.
pub fn snapshot(text: Option<String>) -> (snapshot: Snapshot)
    ensures
        snapshot@ == (match text {
            Some(t) => Some(t@),
            None => None,
        }),
{
    Snapshot { text }
}

/// How the clipboard gets back what was put aside. Where that was no text it is gone already, and an
/// empty clipboard does less harm than our own text.
pub fn restore(snapshot: &Snapshot) -> (how: Restore)
    ensures
        (match snapshot@ {
            Some(text) => how matches Restore::Put(block) && block@ == utf16::encoded(text).push(0),
            None => how == Restore::Empty,
        }),
{
    match &snapshot.text {
        Some(text) => Restore::Put(set_text(text.as_str())),
        None => Restore::Empty,
    }
}

/// Whether something was put on the clipboard since its number was `baseline`; `late` tells that the
/// time is up. In an empty field nothing is copied, so that a timeout is no failure by itself.
pub fn wait_for_change(baseline: u32, number: u32, late: bool) -> (waited: Waited)
    ensures
        waited == (if number != baseline {
            Waited::Done
        } else if late {
            Waited::TimedOut
        } else {
            Waited::Again
        }),
{
    if number != baseline {
        Waited::Done
    } else if late {
        Waited::TimedOut
    } else {
        Waited::Again
    }
}

/// Whether to try again to open the clipboard, which others may hold.
pub fn wait_for_opening(opened: bool, late: bool) -> (waited: Waited)
    ensures
        waited == (if opened {
            Waited::Done
        } else if late {
            Waited::TimedOut
        } else {
            Waited::Again
        }),
{
    if opened {
        Waited::Done
    } else if late {
        Waited::TimedOut
    } else {
        Waited::Again
    }
}

/// A text that is put on the clipboard is read back as it was, whatever lies behind it in the block,
/// unless it holds a zero character.
pub proof fn law_text_on_the_clipboard_reads_back(text: Seq<char>, behind: Seq<u16>)
    requires
        !utf16::holds_nul(text),
    ensures
        utf16::decoded(utf16::before_nul(utf16::encoded(text).push(0) + behind)) == text,
{
    utf16::law_read_gives_back_what_was_written(text, behind);
}

/// A text that ends with a break, of either kind, makes a register of whole lines; any other, and
/// the empty text, one of characters.
pub proof fn law_kind_of_register(raw: Seq<char>, c: char)
    ensures
        reg_type(seq![]) == RegType::Char,
        c == '\n' || c == '\r' ==> reg_type(raw.push(c)) == RegType::Line,
        c != '\n' && c != '\r' ==> reg_type(raw.push(c)) == RegType::Char,
{
    assert(raw.push(c).last() == c);
}

} // verus!
