//! Small building blocks for text: characters in and out of strings, comparison and decimal
//! digits.

use vstd::prelude::*;

verus! {

/// `String::push` appends one character at the end of the string.
pub assume_specification[ String::push ](s: &mut String, c: char)
    ensures
        final(s)@ == old(s)@.push(c),
;

/// `std::str::from_utf8` reads a byte slice as text: it succeeds exactly on well-formed UTF-8, and
/// the text it gives has those bytes as its encoding.
#[verifier::external_body]
pub(crate) fn utf8_text(bytes: &[u8]) -> (text: Option<&str>)
    ensures
        text is Some <==> vstd::utf8::valid_utf8(bytes@),
        text matches Some(s) ==> vstd::utf8::encode_utf8(s@) == bytes@,
{
    std::str::from_utf8(bytes).ok()
}

/// The characters of each text.
pub open spec fn texts(v: Seq<String>) -> Seq<Seq<char>> {
    Seq::new(v.len(), |i: int| v[i]@)
}

/// The characters of `s`, in order.
pub fn chars_of(s: &str) -> (chars: Vec<char>)
    ensures
        chars@ == s@,
{
    let mut chars: Vec<char> = Vec::new();
    for c in it: s.chars()
        invariant
            chars@ == it.seq().take(it.index()),
            it.seq() == s@,
    {
        chars.push(c);
        assert(it.seq().take(it.index() + 1) =~= it.seq().take(it.index()).push(c));
    }
    assert(s@.take(s@.len() as int) =~= s@);
    chars
}

/// The string made of `chars[from..to]`.
pub fn string_of(chars: &[char], from: usize, to: usize) -> (s: String)
    requires
        from <= to <= chars@.len(),
    ensures
        s@ == chars@.subrange(from as int, to as int),
{
    let mut s = String::new();
    let mut i: usize = from;
    while i < to
        invariant
            from <= i <= to <= chars@.len(),
            s@ == chars@.subrange(from as int, i as int),
        decreases to - i,
    {
        s.push(chars[i]);
        assert(chars@.subrange(from as int, i + 1) =~= chars@.subrange(from as int, i as int).push(
            chars@[i as int],
        ));
        i = i + 1;
    }
    s
}

/// Whether two texts hold the same characters.
pub fn str_eq(a: &str, b: &str) -> (same: bool)
    ensures
        same == (a@ == b@),
{
    let left = a.as_bytes();
    let right = b.as_bytes();
    proof {
        vstd::utf8::encode_utf8_decode_utf8(a@);
        vstd::utf8::encode_utf8_decode_utf8(b@);
    }
    if left.len() != right.len() {
        return false;
    }
    let mut i: usize = 0;
    while i < left.len()
        invariant
            i <= left@.len() == right@.len(),
            left@ == vstd::utf8::encode_utf8(a@),
            right@ == vstd::utf8::encode_utf8(b@),
            forall|j: int| 0 <= j < i ==> left@[j] == right@[j],
        decreases left@.len() - i,
    {
        if left[i] != right[i] {
            return false;
        }
        i = i + 1;
    }
    assert(left@ =~= right@);
    true
}

/// What stands in `s` before the first `stop`; all of `s` where there is none.
pub open spec fn until(s: Seq<char>, stop: char) -> Seq<char>
    decreases s.len(),
{
    if s.len() == 0 || s[0] == stop {
        seq![]
    } else {
        seq![s[0]] + until(s.drop_first(), stop)
    }
}

/// The text before the first `stop`.
pub fn text_until(s: &str, stop: char) -> (head: String)
    ensures
        head@ == until(s@, stop),
{
    let chars = chars_of(s);
    let mut i: usize = 0;
    assert(s@.skip(0) =~= s@);
    assert(s@.take(0) + until(s@, stop) =~= until(s@, stop));
    while i < chars.len() && chars[i] != stop
        invariant
            i <= chars@.len(),
            chars@ == s@,
            until(s@, stop) == s@.take(i as int) + until(s@.skip(i as int), stop),
        decreases chars@.len() - i,
    {
        assert(s@.skip(i as int).drop_first() =~= s@.skip(i + 1));
        assert(s@.take(i as int) + (seq![s@[i as int]] + until(s@.skip(i + 1), stop)) =~= s@.take(
            i + 1,
        ) + until(s@.skip(i + 1), stop));
        i = i + 1;
    }
    assert(until(s@, stop) =~= s@.take(i as int));
    string_of(chars.as_slice(), 0, i)
}

/// Whether `c` is white space: the characters that Unicode gives the property White_Space.
pub open spec fn is_white(c: char) -> bool {
    let n = c as u32;
    ||| 0x9 <= n <= 0xd
    ||| n == 0x20
    ||| n == 0x85
    ||| n == 0xa0
    ||| n == 0x1680
    ||| 0x2000 <= n <= 0x200a
    ||| n == 0x2028
    ||| n == 0x2029
    ||| n == 0x202f
    ||| n == 0x205f
    ||| n == 0x3000
}

/// Whether `c` is white space.
pub fn white(c: char) -> (white: bool)
    ensures
        white == is_white(c),
{
    let n: u32 = c as u32;
    (0x9 <= n && n <= 0xd) || n == 0x20 || n == 0x85 || n == 0xa0 || n == 0x1680 || (0x2000 <= n
        && n <= 0x200a) || n == 0x2028 || n == 0x2029 || n == 0x202f || n == 0x205f || n == 0x3000
}

/// `s` without the white space at its start.
pub open spec fn trimmed_start(s: Seq<char>) -> Seq<char>
    decreases s.len(),
{
    if s.len() > 0 && is_white(s[0]) {
        trimmed_start(s.drop_first())
    } else {
        s
    }
}

/// `s` without the white space at its end.
pub open spec fn trimmed_end(s: Seq<char>) -> Seq<char>
    decreases s.len(),
{
    if s.len() > 0 && is_white(s.last()) {
        trimmed_end(s.drop_last())
    } else {
        s
    }
}

/// `s` without the white space around it.
pub open spec fn trimmed(s: Seq<char>) -> Seq<char> {
    trimmed_end(trimmed_start(s))
}

/// The text without the white space around it.
pub fn trim(s: &str) -> (out: String)
    ensures
        out@ == trimmed(s@),
{
    let chars = chars_of(s);
    let mut from: usize = 0;
    assert(s@.skip(0) =~= s@);
    while from < chars.len() && white(chars[from])
        invariant
            from <= chars@.len(),
            chars@ == s@,
            trimmed_start(s@) == trimmed_start(s@.skip(from as int)),
        decreases chars@.len() - from,
    {
        assert(s@.skip(from as int).drop_first() =~= s@.skip(from + 1));
        from = from + 1;
    }
    let ghost rest = s@.skip(from as int);
    assert(trimmed_start(s@) == rest);
    let mut to: usize = chars.len();
    assert(s@.subrange(from as int, to as int) =~= rest);
    while to > from && white(chars[to - 1])
        invariant
            from <= to <= chars@.len(),
            chars@ == s@,
            trimmed_end(rest) == trimmed_end(s@.subrange(from as int, to as int)),
        decreases to,
    {
        assert(s@.subrange(from as int, to as int).drop_last() =~= s@.subrange(
            from as int,
            to - 1,
        ));
        to = to - 1;
    }
    string_of(chars.as_slice(), from, to)
}

/// The part before the first `stop` is a part of the text, and a whole one where there is no `stop`.
pub proof fn lemma_until(s: Seq<char>, stop: char)
    ensures
        until(s, stop).len() <= s.len(),
        until(s, stop) == s.take(until(s, stop).len() as int),
        forall|i: int| 0 <= i < until(s, stop).len() ==> s[i] != stop,
        until(s, stop).len() < s.len() ==> s[until(s, stop).len() as int] == stop,
    decreases s.len(),
{
    if s.len() > 0 && s[0] != stop {
        let rest = s.drop_first();
        lemma_until(rest, stop);
        let n = until(s, stop).len() as int;
        assert(until(s, stop) =~= s.take(n));
        assert forall|i: int| 0 <= i < n implies s[i] != stop by {
            if i > 0 {
                assert(s[i] == rest[i - 1]);
            }
        }
        if n < s.len() {
            assert(s[n] == rest[n - 1]);
        }
    } else {
        assert(until(s, stop) =~= s.take(0));
    }
}

/// The pieces of `s` between the separators: one more than there are separators.
pub open spec fn pieces(s: Seq<char>, separator: char) -> Seq<Seq<char>>
    decreases s.len(),
{
    proof {
        lemma_until(s, separator);
    }
    let head = until(s, separator);
    if head.len() == s.len() {
        seq![s]
    } else {
        seq![head] + pieces(s.skip(head.len() as int + 1), separator)
    }
}

/// The pieces of `s` between the separators.
pub fn split(s: &str, separator: char) -> (out: Vec<String>)
    ensures
        texts(out@) == pieces(s@, separator),
{
    let chars = chars_of(s);
    let mut out: Vec<String> = Vec::new();
    let mut start: usize = 0;
    let mut i: usize = 0;
    assert(s@.skip(0) =~= s@);
    assert(texts(out@) + pieces(s@, separator) =~= pieces(s@, separator));
    while i < chars.len()
        invariant
            start <= i <= chars@.len(),
            chars@ == s@,
            forall|k: int| start <= k < i ==> s@[k] != separator,
            pieces(s@, separator) == texts(out@) + pieces(s@.skip(start as int), separator),
        decreases chars@.len() - i,
    {
        if chars[i] == separator {
            let ghost rest = s@.skip(start as int);
            let ghost was = texts(out@);
            let ghost piece = rest.take(i - start);
            proof {
                lemma_until_is(rest, separator, i - start);
                assert(rest.take(i - start) =~= chars@.subrange(start as int, i as int));
                assert(rest.skip(i - start + 1) =~= s@.skip(i + 1));
            }
            out.push(string_of(chars.as_slice(), start, i));
            start = i + 1;
            assert(texts(out@) =~= was.push(piece));
            assert(was + (seq![piece] + pieces(
                s@.skip(start as int),
                separator,
            )) =~= texts(out@) + pieces(s@.skip(start as int), separator));
        }
        i = i + 1;
    }
    let ghost rest = s@.skip(start as int);
    let ghost was = texts(out@);
    proof {
        lemma_until_is(rest, separator, rest.len() as int);
        assert(rest.take(rest.len() as int) =~= rest);
        assert(chars@.subrange(start as int, chars@.len() as int) =~= rest);
    }
    out.push(string_of(chars.as_slice(), start, chars.len()));
    assert(texts(out@) =~= was + seq![rest]);
    out
}

/// The first `stop` ends the part before it.
pub proof fn lemma_until_is(s: Seq<char>, stop: char, n: int)
    requires
        0 <= n <= s.len(),
        forall|i: int| 0 <= i < n ==> s[i] != stop,
        n < s.len() ==> s[n] == stop,
    ensures
        until(s, stop) == s.take(n),
{
    lemma_until(s, stop);
    let m = until(s, stop).len() as int;
    if m < n {
        assert(s[m] == stop);
    }
}

/// `s` with every `from` replaced by `to`.
pub open spec fn replaced(s: Seq<char>, from: char, to: char) -> Seq<char> {
    Seq::new(
        s.len(),
        |i: int|
            if s[i] == from {
                to
            } else {
                s[i]
            },
    )
}

/// The text with every `from` replaced by `to`.
pub fn replace(s: &str, from: char, to: char) -> (out: String)
    ensures
        out@ == replaced(s@, from, to),
{
    let chars = chars_of(s);
    let mut out = String::new();
    let mut i: usize = 0;
    while i < chars.len()
        invariant
            i <= chars@.len(),
            chars@ == s@,
            out@ == replaced(s@, from, to).take(i as int),
        decreases chars@.len() - i,
    {
        let c = chars[i];
        out.push(
            if c == from {
                to
            } else {
                c
            },
        );
        assert(out@ =~= replaced(s@, from, to).take(i + 1));
        i = i + 1;
    }
    assert(out@ =~= replaced(s@, from, to));
    out
}

/// The small letter of an ASCII capital; any other character as it is.
pub open spec fn ascii_lower(c: char) -> u32 {
    let n = c as u32;
    if 0x41 <= n <= 0x5a {
        (n + 0x20) as u32
    } else {
        n
    }
}

/// Whether two texts differ at most in the case of ASCII letters.
pub open spec fn same_ignoring_case(a: Seq<char>, b: Seq<char>) -> bool {
    &&& a.len() == b.len()
    &&& forall|i: int| 0 <= i < a.len() ==> ascii_lower(#[trigger] a[i]) == ascii_lower(b[i])
}

fn lower(c: char) -> (n: u32)
    ensures
        n == ascii_lower(c),
{
    let n: u32 = c as u32;
    if 0x41 <= n && n <= 0x5a {
        n + 0x20
    } else {
        n
    }
}

/// Whether two texts differ at most in the case of ASCII letters.
pub fn eq_ignore_ascii_case(a: &str, b: &str) -> (same: bool)
    ensures
        same == same_ignoring_case(a@, b@),
{
    let left = chars_of(a);
    let right = chars_of(b);
    if left.len() != right.len() {
        return false;
    }
    let mut i: usize = 0;
    while i < left.len()
        invariant
            i <= left@.len() == right@.len(),
            left@ == a@,
            right@ == b@,
            forall|k: int| 0 <= k < i ==> ascii_lower(#[trigger] a@[k]) == ascii_lower(b@[k]),
        decreases left@.len() - i,
    {
        if lower(left[i]) != lower(right[i]) {
            assert(ascii_lower(a@[i as int]) != ascii_lower(b@[i as int]));
            return false;
        }
        i = i + 1;
    }
    true
}

/// The character of one decimal digit.
pub open spec fn digit_char(d: int) -> char {
    ('0' as u32 + d) as char
}

/// `n` written in decimal, without leading zeros.
pub open spec fn decimal(n: nat) -> Seq<char>
    decreases n,
{
    if n < 10 {
        seq![digit_char(n as int)]
    } else {
        decimal(n / 10).push(digit_char((n % 10) as int))
    }
}

/// `n` written in decimal, with a leading minus sign where it is negative.
pub open spec fn signed_decimal(n: int) -> Seq<char> {
    if n < 0 {
        seq!['-'] + decimal((-n) as nat)
    } else {
        decimal(n as nat)
    }
}

/// One decimal digit as a character.
fn digit(d: u64) -> (c: char)
    requires
        d < 10,
    ensures
        c == digit_char(d as int),
{
    ('0' as u8 + d as u8) as char
}

/// Appends `n` in decimal.
pub fn push_decimal(out: &mut String, n: u64)
    ensures
        final(out)@ == old(out)@ + decimal(n as nat),
    decreases n,
{
    if n >= 10 {
        push_decimal(out, n / 10);
    }
    out.push(digit(n % 10));
    assert(out@ =~= old(out)@ + decimal(n as nat));
}

/// Appends `n` in decimal, with its sign where it is negative.
pub fn push_signed(out: &mut String, n: i64)
    ensures
        final(out)@ == old(out)@ + signed_decimal(n as int),
{
    if n < 0 {
        out.push('-');
        let magnitude: u64 = if n == i64::MIN {
            0x8000_0000_0000_0000
        } else {
            (-n) as u64
        };
        push_decimal(out, magnitude);
    } else {
        push_decimal(out, n as u64);
    }
    assert(out@ =~= old(out)@ + signed_decimal(n as int));
}

// ---- laws ----
/// White space is the tab up to the carriage return, the space, the next line, and the spaces and
/// separators beyond ASCII.
pub proof fn law_white_space(c: char)
    ensures
        is_white(c) <==> {
            ||| c == '\u{9}' || c == '\u{a}' || c == '\u{b}' || c == '\u{c}' || c == '\u{d}'
            ||| c == ' '
            ||| c == '\u{85}' || c == '\u{a0}' || c == '\u{1680}'
            ||| '\u{2000}' as u32 <= c as u32 <= '\u{200a}' as u32
            ||| c == '\u{2028}' || c == '\u{2029}' || c == '\u{202f}' || c == '\u{205f}'
            ||| c == '\u{3000}'
        },
{
}

/// Trimming takes away the white space around a text, all of it and nothing else.
pub proof fn law_trimmed(before: Seq<char>, text: Seq<char>, behind: Seq<char>)
    requires
        forall|i: int| 0 <= i < before.len() ==> is_white(#[trigger] before[i]),
        forall|i: int| 0 <= i < behind.len() ==> is_white(#[trigger] behind[i]),
        text.len() > 0 ==> !is_white(text[0]) && !is_white(text.last()),
    ensures
        trimmed(before + text + behind) == text,
{
    let rest = text + behind;
    assert(before + text + behind =~= before + rest);
    lemma_white_before(before, rest);
    if text.len() == 0 {
        assert(rest =~= behind + seq![]);
        lemma_white_before(behind, seq![]);
        assert(trimmed(before + text + behind) =~= text);
    } else {
        assert(rest[0] == text[0]);
        lemma_white_behind(text, behind);
    }
}

proof fn lemma_white_before(before: Seq<char>, rest: Seq<char>)
    requires
        forall|i: int| 0 <= i < before.len() ==> is_white(#[trigger] before[i]),
    ensures
        trimmed_start(before + rest) == trimmed_start(rest),
    decreases before.len(),
{
    if before.len() == 0 {
        assert(before + rest =~= rest);
    } else {
        assert(is_white(before[0]));
        assert((before + rest).drop_first() =~= before.drop_first() + rest);
        lemma_white_before(before.drop_first(), rest);
    }
}

proof fn lemma_white_behind(text: Seq<char>, behind: Seq<char>)
    requires
        forall|i: int| 0 <= i < behind.len() ==> is_white(#[trigger] behind[i]),
    ensures
        trimmed_end(text + behind) == trimmed_end(text),
    decreases behind.len(),
{
    if behind.len() == 0 {
        assert(text + behind =~= text);
    } else {
        assert(is_white(behind[behind.len() - 1]));
        assert((text + behind).drop_last() =~= text + behind.drop_last());
        lemma_white_behind(text, behind.drop_last());
    }
}

/// A text is cut at each separator: what stands before the first one is a piece, and what stands
/// behind it is cut again.
pub proof fn law_pieces(head: Seq<char>, separator: char, rest: Seq<char>)
    requires
        !head.contains(separator),
    ensures
        until(head, separator) == head,
        until(head.push(separator) + rest, separator) == head,
        pieces(head, separator) == seq![head],
        pieces(head.push(separator) + rest, separator) == seq![head] + pieces(rest, separator),
{
    let s = head.push(separator) + rest;
    let n = head.len() as int;
    assert forall|i: int| 0 <= i < n implies head[i] != separator && s[i] != separator by {
        assert(head.contains(head[i]));
    }
    lemma_until_is(head, separator, n);
    assert(head.take(n) =~= head);
    lemma_until_is(s, separator, n);
    assert(s.take(n) =~= head);
    assert(s.skip(n + 1) =~= rest);
}

/// Replacing a character changes where it stands, and nowhere else.
pub proof fn law_replaced(s: Seq<char>, from: char, to: char, i: int)
    requires
        0 <= i < s.len(),
    ensures
        replaced(s, from, to).len() == s.len(),
        s[i] == from ==> replaced(s, from, to)[i] == to,
        s[i] != from ==> replaced(s, from, to)[i] == s[i],
        from != to ==> !replaced(s, from, to).contains(from),
{
    if from != to && replaced(s, from, to).contains(from) {
        let k = choose|k: int| 0 <= k < s.len() && replaced(s, from, to)[k] == from;
        assert(false);
    }
}

/// Whether two characters are the same letter of the alphabet, a capital and a small one.
pub open spec fn same_letter(a: char, b: char) -> bool {
    ||| 'A' as u32 <= a as u32 <= 'Z' as u32 && b as u32 - a as u32 == 'a' as u32 - 'A' as u32
    ||| 'A' as u32 <= b as u32 <= 'Z' as u32 && a as u32 - b as u32 == 'a' as u32 - 'A' as u32
}

/// Texts that are the same but for the case of letters have as many characters, each of them the
/// same or the same letter.
pub proof fn law_ignoring_case(a: Seq<char>, b: Seq<char>)
    ensures
        same_ignoring_case(a, b) <==> a.len() == b.len() && (forall|i: int|
            0 <= i < a.len() ==> (#[trigger] a[i] == b[i] || same_letter(a[i], b[i]))),
{
    assert forall|x: char, y: char|
        #[trigger] ascii_lower(x) == #[trigger] ascii_lower(y) <==> (x == y || same_letter(x, y)) by {
        lemma_same_letter(x, y);
    }
    if a.len() == b.len() {
        if same_ignoring_case(a, b) {
            assert forall|i: int| 0 <= i < a.len() implies (#[trigger] a[i] == b[i] || same_letter(
                a[i],
                b[i],
            )) by {
                assert(ascii_lower(a[i]) == ascii_lower(b[i]));
            }
        }
    }
}

proof fn lemma_same_letter(x: char, y: char)
    ensures
        ascii_lower(x) == ascii_lower(y) <==> (x == y || same_letter(x, y)),
{
    assert('A' as u32 == 0x41 && 'Z' as u32 == 0x5a && 'a' as u32 == 0x61);
}

/// The number that decimal digits stand for.
pub open spec fn number_of(digits: Seq<char>) -> int
    decreases digits.len(),
{
    if digits.len() == 0 {
        0
    } else {
        10 * number_of(digits.drop_last()) + (digits.last() as u32 - '0' as u32)
    }
}

/// A number in decimal is made of digits, has no zero in front of other digits, and stands for the
/// number.
pub proof fn law_decimal(n: nat)
    ensures
        number_of(decimal(n)) == n,
        decimal(n).len() >= 1,
        forall|i: int|
            0 <= i < decimal(n).len() ==> '0' as u32 <= (#[trigger] decimal(n)[i]) as u32
                <= '9' as u32,
        decimal(n).len() > 1 ==> decimal(n)[0] != '0',
        decimal(n)[0] == '0' ==> n == 0,
    decreases n,
{
    lemma_digit((n % 10) as int);
    let last = digit_char((n % 10) as int);
    if n < 10 {
        assert(n % 10 == n);
        assert(decimal(n) =~= seq![last]);
        assert(decimal(n).drop_last() =~= seq![]);
        reveal_with_fuel(number_of, 2);
    } else {
        law_decimal(n / 10);
        assert(decimal(n).drop_last() =~= decimal(n / 10));
        assert(decimal(n).last() == last);
        assert(decimal(n)[0] == decimal(n / 10)[0]);
    }
}

proof fn lemma_digit(d: int)
    requires
        0 <= d < 10,
    ensures
        digit_char(d) as u32 == '0' as u32 + d,
{
}

/// A negative number has a minus sign in front of its digits, and no other number has one.
pub proof fn law_signed_decimal(n: int)
    ensures
        n >= 0 ==> signed_decimal(n) == decimal(n as nat),
        n < 0 ==> signed_decimal(n) == seq!['-'] + decimal((-n) as nat),
{
}

} // verus!
