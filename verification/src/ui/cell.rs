//! One cell of the screen.

use vstd::prelude::*;
use vstd::utf8::*;

use crate::strings;

verus! {

/// How many bytes of text one cell can hold. In practice this is enough even with combining
/// characters; what does not fit is cut off at a character boundary.
pub const MAX_CELL_BYTES: usize = 16;

/// The text of a cell, held without the heap so that cells can be copied around.
#[derive(Clone, Copy, PartialEq, Eq, Debug)]
pub struct CellText {
    buf: [u8; MAX_CELL_BYTES],
    len: u8,
}

/// A cell of the grid.
///
/// A wide character takes two cells: its own, and one with the empty text, which continues the
/// cell before it. An erased cell is not empty: it holds one space.
#[derive(Clone, Copy, PartialEq, Eq, Debug)]
pub struct Cell {
    pub text: CellText,
    pub hl_id: u32,
}

/// What a cell shows: its characters and the id of its highlight.
#[verifier::ext_equal]
pub struct CellView {
    pub text: Seq<char>,
    pub hl_id: u32,
}

/// The longest prefix of `text` whose UTF-8 encoding has at most `room` bytes.
pub open spec fn clip(text: Seq<char>, room: int) -> Seq<char>
    decreases text.len(),
{
    if text.len() == 0 || encode_scalar(text[0] as u32).len() > room {
        seq![]
    } else {
        seq![text[0]] + clip(text.drop_first(), room - encode_scalar(text[0] as u32).len())
    }
}

/// The text that a cell holds when it is given `text`.
pub open spec fn cell_text(text: Seq<char>) -> Seq<char> {
    clip(text, MAX_CELL_BYTES as int)
}

/// The erased cell: one space in the default highlight.
pub open spec fn blank() -> CellView {
    CellView { text: seq![' '], hl_id: 0 }
}

/// A cut at the last character boundary within `room` bytes is the longest prefix that fits.
proof fn lemma_cut_is_clip(text: Seq<char>, room: int, end: int)
    requires
        0 <= end <= room,
        end <= encode_utf8(text).len(),
        is_char_boundary(encode_utf8(text), end),
        forall|j: int|
            end < j <= room && j <= encode_utf8(text).len() ==> !is_char_boundary(
                encode_utf8(text),
                j,
            ),
    ensures
        encode_utf8(clip(text, room)) == encode_utf8(text).subrange(0, end),
    decreases text.len(),
{
    let bytes = encode_utf8(text);
    encode_utf8_valid_utf8(text);
    if text.len() == 0 {
        assert(bytes.subrange(0, end) =~= seq![]);
    } else {
        encode_utf8_first_scalar(text);
        let width = encode_scalar(text[0] as u32).len() as int;
        let rest = text.drop_first();
        assert(pop_first_scalar(bytes) =~= encode_utf8(rest));
        encode_utf8_valid_utf8(rest);
        if width > room {
            if end > 0 {
                assert(is_char_boundary(encode_utf8(rest), end - width));
                reveal_with_fuel(is_char_boundary, 2);
                assert(false);
            }
            assert(bytes.subrange(0, 0) =~= seq![]);
        } else {
            // the end of the first character is a boundary, so the cut lies behind it
            is_char_boundary_start_end_of_seq(encode_utf8(rest));
            assert(is_char_boundary(bytes, width)) by {
                assert(is_char_boundary(encode_utf8(rest), 0));
            }
            assert(end >= width);
            assert(is_char_boundary(encode_utf8(rest), end - width));
            assert forall|j: int|
                end - width < j <= room - width && j <= encode_utf8(rest).len() implies !(
            #[trigger] is_char_boundary(encode_utf8(rest), j)) by {
                assert(!is_char_boundary(bytes, j + width));
            }
            lemma_cut_is_clip(rest, room - width, end - width);
            let kept = clip(text, room);
            assert(kept.drop_first() =~= clip(rest, room - width));
            assert(bytes.subrange(0, end) =~= encode_scalar(text[0] as u32) + encode_utf8(
                rest,
            ).subrange(0, end - width));
        }
    }
}

/// What a cell holds is a prefix of the text it was given.
pub proof fn lemma_clip_is_prefix(text: Seq<char>, room: int)
    ensures
        clip(text, room).len() <= text.len(),
        clip(text, room) == text.take(clip(text, room).len() as int),
        room >= 0 ==> encode_utf8(clip(text, room)).len() <= room,
    decreases text.len(),
{
    if text.len() > 0 && encode_scalar(text[0] as u32).len() <= room {
        let rest = text.drop_first();
        let left = room - encode_scalar(text[0] as u32).len();
        lemma_clip_is_prefix(rest, left);
        assert(clip(text, room).drop_first() =~= clip(rest, left));
        assert(clip(text, room) =~= text.take(clip(text, room).len() as int));
    } else {
        assert(clip(text, room) =~= text.take(0));
    }
}

/// A text that fits a cell is held whole.
pub proof fn lemma_clip_keeps_what_fits(text: Seq<char>, room: int)
    requires
        encode_utf8(text).len() <= room,
    ensures
        clip(text, room) == text,
    decreases text.len(),
{
    if text.len() > 0 {
        let rest = text.drop_first();
        lemma_clip_keeps_what_fits(rest, room - encode_scalar(text[0] as u32).len());
        assert(seq![text[0]] + rest =~= text);
    } else {
        assert(clip(text, room) =~= text);
    }
}

impl View for CellText {
    type V = Seq<char>;

    closed spec fn view(&self) -> Seq<char> {
        decode_utf8(self.buf@.subrange(0, self.len as int))
    }
}

impl View for Cell {
    type V = CellView;

    open spec fn view(&self) -> CellView {
        CellView { text: self.text@, hl_id: self.hl_id }
    }
}

impl CellText {
    #[verifier::type_invariant]
    spec fn well_formed(self) -> bool {
        &&& self.len <= MAX_CELL_BYTES
        &&& valid_utf8(self.buf@.subrange(0, self.len as int))
    }

    /// One space, the text of an erased cell.
    pub fn space() -> (text: CellText)
        ensures
            text@ == seq![' '],
    {
        proof {
            reveal_strlit(" ");
            reveal_with_fuel(encode_utf8, 3);
            assert(" "@.len() == 1);
            lemma_clip_keeps_what_fits(" "@, MAX_CELL_BYTES as int);
        }
        let text = CellText::new(" ");
        assert(text@ =~= seq![' ']);
        text
    }

    /// Holds `s`, or as much of it as fits, cut at a character boundary.
    pub fn new(s: &str) -> (text: CellText)
        ensures
            text@ == cell_text(s@),
    {
        let bytes = s.as_bytes();
        let mut end: usize = if bytes.len() < MAX_CELL_BYTES {
            bytes.len()
        } else {
            MAX_CELL_BYTES
        };
        proof {
            encode_utf8_valid_utf8(s@);
            is_char_boundary_start_end_of_seq(bytes@);
        }
        while end > 0 && !s.is_char_boundary(end)
            invariant
                end <= MAX_CELL_BYTES,
                end <= bytes@.len(),
                bytes@ == encode_utf8(s@),
                valid_utf8(bytes@),
                is_char_boundary(bytes@, 0),
                forall|j: int|
                    end < j <= MAX_CELL_BYTES && j <= bytes@.len() ==> !is_char_boundary(bytes@, j),
            decreases end,
        {
            end = end - 1;
        }
        let mut buf: [u8; MAX_CELL_BYTES] = [0u8; MAX_CELL_BYTES];
        let mut i: usize = 0;
        while i < end
            invariant
                i <= end <= MAX_CELL_BYTES,
                end <= bytes@.len(),
                buf@.subrange(0, i as int) == bytes@.subrange(0, i as int),
            decreases end - i,
        {
            buf[i] = bytes[i];
            i = i + 1;
            assert(buf@.subrange(0, i as int) =~= bytes@.subrange(0, i as int));
        }
        proof {
            lemma_cut_is_clip(s@, MAX_CELL_BYTES as int, end as int);
            valid_utf8_split(bytes@, end as int);
            encode_utf8_decode_utf8(cell_text(s@));
        }
        CellText { buf, len: end as u8 }
    }

    /// The text.
    pub fn as_str(&self) -> (s: &str)
        ensures
            s@ == self@,
    {
        proof {
            use_type_invariant(self);
        }
        let held = vstd::slice::slice_subrange(self.buf.as_slice(), 0, self.len as usize);
        match strings::utf8_text(held) {
            Some(s) => {
                proof {
                    encode_utf8_decode_utf8(s@);
                }
                s
            },
            None => "",
        }
    }

    /// Whether the cell continues the wide character of the cell before it. An erased cell is no
    /// such cell: it holds one space.
    pub fn is_empty(&self) -> (empty: bool)
        ensures
            empty == (self@.len() == 0),
    {
        proof {
            use_type_invariant(self);
        }
        self.len == 0
    }
}

impl Default for CellText {
    fn default() -> (text: CellText)
        ensures
            text@ == Seq::<char>::empty(),
    {
        proof {
            reveal_strlit("");
        }
        let text = CellText::new("");
        assert(text@ =~= Seq::<char>::empty());
        text
    }
}

impl Cell {
    /// The erased cell: one space in the default highlight.
    pub fn blank() -> (cell: Cell)
        ensures
            cell@ == blank(),
    {
        Cell { text: CellText::space(), hl_id: 0 }
    }
}

impl Default for Cell {
    fn default() -> (cell: Cell)
        ensures
            cell@ == blank(),
    {
        Cell::blank()
    }
}

/// A cell holds the start of its text: as many whole characters as 16 bytes have room for.
pub proof fn law_cell_holds_what_fits(text: Seq<char>)
    ensures
        ({
            let held = cell_text(text);
            let n = held.len() as int;
            &&& n <= text.len()
            &&& held == text.take(n)
            &&& encode_utf8(held).len() <= 16
            &&& n < text.len() ==> encode_utf8(text.take(n + 1)).len() > 16
        }),
        encode_utf8(text).len() <= 16 ==> cell_text(text) == text,
        blank() == (CellView { text: seq![' '], hl_id: 0 }),
{
    lemma_clip_is_prefix(text, 16);
    lemma_clip_is_longest(text, 16);
    if encode_utf8(text).len() <= 16 {
        lemma_clip_keeps_what_fits(text, 16);
    }
}

/// One character more would not fit.
proof fn lemma_clip_is_longest(text: Seq<char>, room: int)
    requires
        room >= 0,
    ensures
        clip(text, room).len() <= text.len(),
        clip(text, room).len() < text.len() ==> encode_utf8(
            text.take(clip(text, room).len() as int + 1),
        ).len() > room,
    decreases text.len(),
{
    if text.len() > 0 {
        let width = encode_scalar(text[0] as u32).len() as int;
        let rest = text.drop_first();
        if width <= room {
            lemma_clip_is_longest(rest, room - width);
            let n = clip(text, room).len() as int;
            assert(n == 1 + clip(rest, room - width).len());
            if n < text.len() {
                assert(text.take(n + 1).drop_first() =~= rest.take(n));
                assert(text.take(n + 1)[0] == text[0]);
            }
        } else {
            assert(text.take(1).drop_first() =~= Seq::<char>::empty());
            assert(text.take(1)[0] == text[0]);
        }
    }
}

} // verus!
