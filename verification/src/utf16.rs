//! UTF-16, as Windows wants its texts.

use vstd::prelude::*;
use vstd::utf8::*;

use crate::strings;

verus! {

/// `char::from_u32` gives the character of a number, and nothing for a number that is no Unicode
/// scalar value.
pub assume_specification[ char::from_u32 ](i: u32) -> (c: Option<char>)
    ensures
        c is Some <==> is_scalar(i),
        c matches Some(x) ==> x as u32 == i,
;

/// The character that stands for what is no character.
pub const REPLACEMENT: char = '\u{FFFD}';

/// The code units of one character: one of them, or a surrogate pair.
pub open spec fn units_of(c: char) -> Seq<u16> {
    let n = c as u32;
    if n < 0x1_0000 {
        seq![n as u16]
    } else {
        seq![(0xD800 + (n - 0x1_0000) / 0x400) as u16, (0xDC00 + (n - 0x1_0000) % 0x400) as u16]
    }
}

/// The code units of a text.
pub open spec fn encoded(s: Seq<char>) -> Seq<u16>
    decreases s.len(),
{
    if s.len() == 0 {
        seq![]
    } else {
        encoded(s.drop_last()) + units_of(s.last())
    }
}

/// Whether `u` starts a surrogate pair.
pub open spec fn is_high(u: u16) -> bool {
    0xD800 <= u < 0xDC00
}

/// Whether `u` ends a surrogate pair.
pub open spec fn is_low(u: u16) -> bool {
    0xDC00 <= u < 0xE000
}

/// The number that a surrogate pair stands for.
pub open spec fn paired(high: u16, low: u16) -> int {
    0x1_0000 + (high - 0xD800) * 0x400 + (low - 0xDC00)
}

/// The text of code units. A surrogate without its other half becomes the replacement character.
pub open spec fn decoded(units: Seq<u16>) -> Seq<char>
    decreases units.len(),
{
    if units.len() == 0 {
        seq![]
    } else if !is_high(units[0]) && !is_low(units[0]) {
        seq![(units[0] as u32) as char] + decoded(units.skip(1))
    } else if is_high(units[0]) && units.len() > 1 && is_low(units[1]) {
        seq![(paired(units[0], units[1]) as u32) as char] + decoded(units.skip(2))
    } else {
        seq![REPLACEMENT] + decoded(units.skip(1))
    }
}

/// The units before the first zero; all of them where there is none.
pub open spec fn before_nul(units: Seq<u16>) -> Seq<u16>
    decreases units.len(),
{
    if units.len() == 0 || units[0] == 0 {
        seq![]
    } else {
        seq![units[0]] + before_nul(units.skip(1))
    }
}

/// How many bytes a character takes in UTF-8.
pub open spec fn width8(c: char) -> int {
    encode_scalar(c as u32).len() as int
}

/// How many code units the characters take that start before the byte `byte`.
pub open spec fn units_before(s: Seq<char>, byte: int) -> nat
    decreases s.len(),
{
    if s.len() == 0 || byte <= 0 {
        0
    } else {
        units_of(s[0]).len() + units_before(s.drop_first(), byte - width8(s[0]))
    }
}

/// Appends the code units of one character.
fn push_units(out: &mut Vec<u16>, c: char)
    ensures
        final(out)@ == old(out)@ + units_of(c),
{
    let n: u32 = c as u32;
    if n < 0x1_0000 {
        out.push(n as u16);
    } else {
        let v: u32 = n - 0x1_0000;
        out.push((0xD800 + v / 0x400) as u16);
        out.push((0xDC00 + v % 0x400) as u16);
    }
    assert(out@ =~= old(out)@ + units_of(c));
}

/// Appends the code units of a text.
pub fn push_utf16(out: &mut Vec<u16>, s: &str)
    ensures
        final(out)@ == old(out)@ + encoded(s@),
{
    let chars = strings::chars_of(s);
    let mut i: usize = 0;
    assert(encoded(s@.take(0)) =~= seq![]);
    assert(out@ =~= old(out)@ + encoded(s@.take(0)));
    while i < chars.len()
        invariant
            i <= chars@.len(),
            chars@ == s@,
            out@ == old(out)@ + encoded(s@.take(i as int)),
        decreases chars@.len() - i,
    {
        push_units(out, chars[i]);
        assert(s@.take(i + 1).drop_last() =~= s@.take(i as int));
        assert(out@ =~= old(out)@ + encoded(s@.take(i + 1)));
        i = i + 1;
    }
    assert(s@.take(s@.len() as int) =~= s@);
}

/// The code units of a text.
pub fn encode(s: &str) -> (units: Vec<u16>)
    ensures
        units@ == encoded(s@),
{
    let mut units: Vec<u16> = Vec::new();
    push_utf16(&mut units, s);
    assert(units@ =~= encoded(s@));
    units
}

/// The code units of a text with a zero after them, as Win32 takes them.
pub fn wide_nul(value: &str) -> (units: Vec<u16>)
    ensures
        units@ == encoded(value@).push(0),
{
    let mut units = encode(value);
    units.push(0);
    units
}

/// The text of code units. A surrogate without its other half becomes the replacement character.
pub fn decode(units: &[u16]) -> (s: String)
    ensures
        s@ == decoded(units@),
{
    let mut s = String::new();
    let mut i: usize = 0;
    assert(units@.skip(0) =~= units@);
    assert(s@ + decoded(units@) =~= decoded(units@));
    while i < units.len()
        invariant
            i <= units@.len(),
            decoded(units@) == s@ + decoded(units@.skip(i as int)),
        decreases units@.len() - i,
    {
        let ghost rest = units@.skip(i as int);
        let ghost was = s@;
        let u: u16 = units[i];
        let mut taken: usize = 1;
        let mut c: char = REPLACEMENT;
        if u < 0xD800 || u >= 0xE000 {
            if let Some(x) = char::from_u32(u as u32) {
                c = x;
                proof {
                    char_u32_cast(x, u as u32);
                }
            }
        } else if u < 0xDC00 && i + 1 < units.len() && units[i + 1] >= 0xDC00 && units[i + 1]
            < 0xE000 {
            let low: u16 = units[i + 1];
            let n: u32 = 0x1_0000 + (u as u32 - 0xD800) * 0x400 + (low as u32 - 0xDC00);
            assert(n == paired(u, low));
            if let Some(x) = char::from_u32(n) {
                c = x;
                proof {
                    char_u32_cast(x, n);
                }
            }
            taken = 2;
        }
        s.push(c);
        assert(rest.skip(taken as int) =~= units@.skip(i + taken));
        assert(was + (seq![c] + decoded(units@.skip(i + taken))) =~= s@ + decoded(
            units@.skip(i + taken),
        ));
        i = i + taken;
    }
    assert(decoded(units@.skip(i as int)) =~= seq![]);
    assert(s@ + seq![] =~= s@);
    s
}

/// The text up to the first zero, or to the end of what can be read where there is none.
pub fn decode_until_nul(units: &[u16]) -> (s: String)
    ensures
        s@ == decoded(before_nul(units@)),
{
    let mut end: usize = 0;
    assert(units@.skip(0) =~= units@);
    assert(units@.take(0) + before_nul(units@) =~= before_nul(units@));
    while end < units.len() && units[end] != 0
        invariant
            end <= units@.len(),
            before_nul(units@) == units@.take(end as int) + before_nul(units@.skip(end as int)),
        decreases units@.len() - end,
    {
        assert(units@.skip(end as int).skip(1) =~= units@.skip(end + 1));
        assert(units@.take(end as int) + (seq![units@[end as int]] + before_nul(
            units@.skip(end + 1),
        )) =~= units@.take(end + 1) + before_nul(units@.skip(end + 1)));
        end = end + 1;
    }
    assert(before_nul(units@) =~= units@.take(end as int));
    let kept = vstd::slice::slice_subrange(units, 0, end);
    assert(kept@ =~= units@.take(end as int));
    decode(kept)
}

/// How many code units a character takes.
fn unit_count(c: char) -> (n: u32)
    ensures
        n == units_of(c).len(),
{
    if (c as u32) < 0x1_0000 {
        1
    } else {
        2
    }
}

/// How many bytes a character takes in UTF-8.
fn byte_count(c: char) -> (n: usize)
    ensures
        n == width8(c),
{
    let n: u32 = c as u32;
    proof {
        char_is_scalar(c);
    }
    if n < 0x80 {
        1
    } else if n < 0x800 {
        2
    } else if n < 0x1_0000 {
        3
    } else {
        4
    }
}

/// More of a text has no fewer code units.
proof fn lemma_units_grow(s: Seq<char>, n: int)
    requires
        0 <= n <= s.len(),
    ensures
        encoded(s.take(n)).len() <= encoded(s).len(),
    decreases s.len() - n,
{
    if n < s.len() {
        lemma_units_grow(s, n + 1);
        assert(s.take(n + 1).drop_last() =~= s.take(n));
    } else {
        assert(s.take(n) =~= s);
    }
}

/// How many code units stand before a byte position. A position inside a character counts that
/// character as before it, so that ranges never shrink.
pub fn utf16_len_upto(text: &str, byte: usize) -> (units: u32)
    requires
        encoded(text@).len() <= u32::MAX,
    ensures
        units == units_before(text@, byte as int),
{
    let chars = strings::chars_of(text);
    let mut units: u32 = 0;
    let mut offset: usize = 0;
    let mut i: usize = 0;
    assert(text@.skip(0) =~= text@);
    while i < chars.len() && offset < byte
        invariant
            i <= chars@.len(),
            chars@ == text@,
            encoded(text@).len() <= u32::MAX,
            units == encoded(text@.take(i as int)).len(),
            offset < byte ==> units_before(text@, byte as int) == units + units_before(
                text@.skip(i as int),
                byte - offset,
            ),
            offset >= byte ==> units_before(text@, byte as int) == units,
        decreases chars@.len() - i,
    {
        let c = chars[i];
        let width: usize = byte_count(c);
        proof {
            assert(text@.take(i + 1).drop_last() =~= text@.take(i as int));
            lemma_units_grow(text@, i + 1);
            assert(text@.skip(i as int).drop_first() =~= text@.skip(i + 1));
            if width >= byte - offset {
                assert(units_before(text@.skip(i + 1), byte - offset - width) == 0);
            }
        }
        units = units + unit_count(c);
        // past the position nothing more is counted
        offset = if width < byte - offset {
            offset + width
        } else {
            byte
        };
        i = i + 1;
    }
    units
}

/// The position and length, in code units, of the bytes `[start, end)`; nothing where that part is
/// empty.
pub open spec fn range_units(text: Seq<char>, start: int, end: int) -> Option<(nat, nat)> {
    let position = units_before(text, start);
    let stop = units_before(text, end);
    if stop > position {
        Some((position, (stop - position) as nat))
    } else {
        None
    }
}

/// The position and length, in code units, of a range of bytes. Nothing where no character is in
/// it.
pub fn utf16_range(text: &str, start: usize, end: usize) -> (range: Option<(u32, u32)>)
    requires
        encoded(text@).len() <= u32::MAX,
    ensures
        (match range {
            Some((position, length)) => range_units(text@, start as int, end as int) == Some(
                (position as nat, length as nat),
            ),
            None => range_units(text@, start as int, end as int) is None,
        }),
{
    let position: u32 = utf16_len_upto(text, start);
    let stop: u32 = utf16_len_upto(text, end);
    if stop > position {
        Some((position, stop - position))
    } else {
        None
    }
}

// ---- laws ----
/// The units of one character come back as that character.
proof fn lemma_decode_one(c: char, rest: Seq<u16>)
    ensures
        decoded(units_of(c) + rest) == seq![c] + decoded(rest),
{
    let n = c as u32;
    char_is_scalar(c);
    let all = units_of(c) + rest;
    if n < 0x1_0000 {
        let u = n as u16;
        assert(u == n);
        assert(!(0xD800 <= n <= 0xDFFF));
        assert(all.skip(1) =~= rest);
        char_u32_cast(c, u as u32);
    } else {
        let v = n - 0x1_0000;
        assert(0 <= v < 0x10_0000);
        assert(v / 0x400 < 0x400);
        let high = (0xD800 + v / 0x400) as u16;
        let low = (0xDC00 + v % 0x400) as u16;
        assert(all[0] == high && all[1] == low);
        assert(is_high(high) && is_low(low));
        assert(paired(high, low) == n) by {
            assert(v == 0x400 * (v / 0x400) + v % 0x400);
        }
        assert(all.skip(2) =~= rest);
        char_u32_cast(c, n);
    }
}

/// The units of a text, with those of its first character taken off.
proof fn lemma_encoded_front(s: Seq<char>)
    requires
        s.len() > 0,
    ensures
        encoded(s) == units_of(s[0]) + encoded(s.drop_first()),
    decreases s.len(),
{
    if s.len() == 1 {
        assert(s.drop_last() =~= seq![]);
        assert(s.drop_first() =~= seq![]);
        reveal_with_fuel(encoded, 2);
        assert(encoded(s) =~= units_of(s[0]) + encoded(s.drop_first()));
    } else {
        lemma_encoded_front(s.drop_last());
        assert(s.drop_last().drop_first() =~= s.drop_first().drop_last());
        assert(encoded(s) =~= units_of(s[0]) + encoded(s.drop_first()));
    }
}

/// Every text survives the way to UTF-16 and back.
pub proof fn law_decode_encoded(s: Seq<char>)
    ensures
        decoded(encoded(s)) == s,
    decreases s.len(),
{
    if s.len() > 0 {
        lemma_encoded_front(s);
        lemma_decode_one(s[0], encoded(s.drop_first()));
        law_decode_encoded(s.drop_first());
        assert(seq![s[0]] + s.drop_first() =~= s);
    } else {
        assert(decoded(encoded(s)) =~= s);
    }
}

/// Whether a text holds the character zero.
pub open spec fn holds_nul(s: Seq<char>) -> bool {
    exists|i: int| 0 <= i < s.len() && (#[trigger] s[i]) as u32 == 0
}

/// A text that is written with a zero after it, and is read up to the first zero, comes back as it
/// was, whatever lies behind the zero, unless it holds that character itself.
pub proof fn law_read_gives_back_what_was_written(s: Seq<char>, behind: Seq<u16>)
    requires
        !holds_nul(s),
    ensures
        decoded(before_nul(encoded(s).push(0) + behind)) == s,
{
    lemma_before_nul(encoded(s), behind, s);
    law_decode_encoded(s);
}

proof fn lemma_before_nul(units: Seq<u16>, behind: Seq<u16>, s: Seq<char>)
    requires
        units == encoded(s),
        !holds_nul(s),
    ensures
        before_nul(units.push(0) + behind) == units,
    decreases s.len(),
{
    let all = units.push(0) + behind;
    if s.len() == 0 {
        assert(all[0] == 0);
    } else {
        lemma_encoded_front(s);
        let rest = s.drop_first();
        assert(!holds_nul(rest)) by {
            if holds_nul(rest) {
                let i = choose|i: int| 0 <= i < rest.len() && (#[trigger] rest[i]) as u32 == 0;
                assert(s[i + 1] as u32 == 0);
            }
        }
        lemma_before_nul(encoded(rest), behind, rest);
        let tail = encoded(rest).push(0) + behind;
        let head = units_of(s[0]);
        char_is_scalar(s[0]);
        assert(s[0] as u32 != 0);
        assert(all =~= head + tail);
        assert(all.skip(1) =~= head.skip(1) + tail);
        if head.len() == 2 {
            assert(all.skip(1).skip(1) =~= tail);
            assert(head[0] != 0 && head[1] != 0);
            assert(before_nul(all.skip(1)) =~= seq![head[1]] + before_nul(tail));
            assert(before_nul(all) =~= seq![head[0]] + (seq![head[1]] + before_nul(tail)));
        } else {
            assert(all.skip(1) =~= tail);
            assert(head[0] != 0);
            assert(before_nul(all) =~= seq![head[0]] + before_nul(tail));
        }
        assert(before_nul(all) =~= units);
    }
}

/// Up to the end of its `k`th character a text has as many units as these characters have: counting
/// by bytes agrees with counting by characters.
pub proof fn law_units_before_a_boundary(s: Seq<char>, k: int)
    requires
        0 <= k <= s.len(),
    ensures
        units_before(s, encode_utf8(s.take(k)).len() as int) == encoded(s.take(k)).len(),
    decreases s.len(),
{
    if k == 0 {
        assert(s.take(0) =~= seq![]);
    } else {
        let rest = s.drop_first();
        law_units_before_a_boundary(rest, k - 1);
        assert(s.take(k).drop_first() =~= rest.take(k - 1));
        lemma_encoded_front(s.take(k));
        char_is_scalar(s[0]);
    }
}

/// A later byte position has no fewer units before it, so a range of bytes never turns around.
pub proof fn law_units_before_is_monotone(s: Seq<char>, a: int, b: int)
    requires
        a <= b,
    ensures
        units_before(s, a) <= units_before(s, b),
    decreases s.len(),
{
    if s.len() > 0 {
        law_units_before_is_monotone(s.drop_first(), a - width8(s[0]), b - width8(s[0]));
    }
}

/// A character of the basic plane is one unit, its number. Any other is two units, a high and a low
/// surrogate, which hold what its number is above 0xFFFF, ten bits each.
pub proof fn law_units_of_a_character(c: char)
    ensures
        (c as u32) < 0x1_0000 ==> units_of(c).len() == 1 && units_of(c)[0] == c as u32,
        c as u32 >= 0x1_0000 ==> {
            let u = units_of(c);
            &&& u.len() == 2
            &&& 0xD800 <= u[0] <= 0xDBFF
            &&& 0xDC00 <= u[1] <= 0xDFFF
            &&& c as u32 == 0x1_0000 + 0x400 * (u[0] - 0xD800) + (u[1] - 0xDC00)
        },
{
    char_is_scalar(c);
    let n = c as u32;
    if n >= 0x1_0000 {
        let v = n - 0x1_0000;
        assert(v / 0x400 < 0x400 && v % 0x400 < 0x400);
        assert(v == 0x400 * (v / 0x400) + v % 0x400);
    }
}

/// A text is encoded character by character.
pub proof fn law_encoded(c: char, rest: Seq<char>)
    ensures
        encoded(seq![]) == Seq::<u16>::empty(),
        encoded(seq![c] + rest) == units_of(c) + encoded(rest),
{
    let s = seq![c] + rest;
    lemma_encoded_front(s);
    assert(s.drop_first() =~= rest);
}

/// A surrogate without its other half is read as the replacement character, and what follows is read
/// as if it were not there. Any other unit is the character of its number.
pub proof fn law_decoded(unit: u16, rest: Seq<u16>)
    ensures
        decoded(seq![]) == Seq::<char>::empty(),
        unit < 0xD800 || unit > 0xDFFF ==> decoded(seq![unit] + rest) == seq![(unit as u32) as char]
            + decoded(rest),
        0xDC00 <= unit <= 0xDFFF ==> decoded(seq![unit] + rest) == seq!['\u{FFFD}'] + decoded(
            rest,
        ),
        0xD800 <= unit <= 0xDBFF && (rest.len() == 0 || rest[0] < 0xDC00 || rest[0] > 0xDFFF)
            ==> decoded(seq![unit] + rest) == seq!['\u{FFFD}'] + decoded(rest),
{
    let all = seq![unit] + rest;
    assert(all.skip(1) =~= rest);
    if rest.len() > 0 {
        assert(all[1] == rest[0]);
    }
}

/// Reading stops at the first zero, and at the end where there is none.
pub proof fn law_before_nul(head: Seq<u16>, behind: Seq<u16>)
    requires
        forall|i: int| 0 <= i < head.len() ==> head[i] != 0,
    ensures
        before_nul(head) == head,
        before_nul(head.push(0) + behind) == head,
    decreases head.len(),
{
    let all = head.push(0) + behind;
    if head.len() > 0 {
        let rest = head.skip(1);
        law_before_nul(rest, behind);
        assert(all.skip(1) =~= rest.push(0) + behind);
        assert(seq![head[0]] + rest =~= head);
        assert(all[0] == head[0]);
    } else {
        assert(before_nul(head) =~= head);
        assert(before_nul(all) =~= head);
    }
}

/// A position inside of a character, or at its end, has the whole character before it; one at the
/// start of the text has nothing before it, and one beyond its end has all of it.
pub proof fn law_units_before(s: Seq<char>, k: int, byte: int)
    requires
        0 <= k < s.len(),
    ensures
        byte <= 0 ==> units_before(s, byte) == 0,
        encode_utf8(s.take(k)).len() < byte <= encode_utf8(s.take(k + 1)).len() ==> units_before(
            s,
            byte,
        ) == encoded(s.take(k + 1)).len(),
        byte > encode_utf8(s).len() ==> units_before(s, byte) == encoded(s).len(),
    decreases s.len(),
{
    let rest = s.drop_first();
    char_is_scalar(s[0]);
    lemma_encoded_front(s);
    assert(s.take(k + 1).drop_first() =~= rest.take(k));
    lemma_encoded_front(s.take(k + 1));
    if k > 0 {
        assert(s.take(k).drop_first() =~= rest.take(k - 1));
        law_units_before(rest, k - 1, byte - width8(s[0]));
    } else {
        assert(s.take(0) =~= seq![]);
        assert(rest.take(0) =~= seq![]);
        if rest.len() > 0 {
            law_units_before(rest, 0, byte - width8(s[0]));
        }
    }
}

/// A part of a text, given by the bytes where its characters start and end, lies as many units from
/// the start as the text before it has, and is as long as its own characters are.
pub proof fn law_range(s: Seq<char>, from: int, to: int)
    requires
        0 <= from < to <= s.len(),
    ensures
        range_units(
            s,
            encode_utf8(s.take(from)).len() as int,
            encode_utf8(s.take(to)).len() as int,
        ) == Some((encoded(s.take(from)).len(), encoded(s.subrange(from, to)).len())),
{
    law_units_before_a_boundary(s, from);
    law_units_before_a_boundary(s, to);
    assert(s.take(from) + s.subrange(from, to) =~= s.take(to));
    lemma_encoded_parts(s.take(from), s.subrange(from, to));
    let part = s.subrange(from, to);
    assert(encoded(part) == encoded(part.drop_last()) + units_of(part.last()));
}

/// A range that ends where it starts, or before, is none.
pub proof fn law_empty_range(s: Seq<char>, from: int, to: int)
    requires
        to <= from,
    ensures
        range_units(s, from, to) is None,
{
    law_units_before_is_monotone(s, to, from);
}

proof fn lemma_encoded_parts(a: Seq<char>, b: Seq<char>)
    ensures
        encoded(a + b) == encoded(a) + encoded(b),
    decreases b.len(),
{
    if b.len() == 0 {
        assert(a + b =~= a);
        assert(encoded(a) + encoded(b) =~= encoded(a));
    } else {
        lemma_encoded_parts(a, b.drop_last());
        assert((a + b).drop_last() =~= a + b.drop_last());
        assert(encoded(a + b) =~= encoded(a) + encoded(b));
    }
}

} // verus!
