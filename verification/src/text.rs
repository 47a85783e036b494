//! Line breaks.
//!
//! Text that was taken from somewhere may break its lines by `\r\n`, `\n` or `\r`. In here it is
//! always a list of lines, as in an nvim buffer. On the way back the lines are joined by `\r\n`.

use vstd::prelude::*;

use crate::strings;

verus! {

/// Whether `c` breaks a line.
pub open spec fn is_break(c: char) -> bool {
    c == '\r' || c == '\n'
}

/// Where the first line break of `s` starts; the length of `s` where there is none.
pub open spec fn first_break(s: Seq<char>) -> int
    decreases s.len(),
{
    if s.len() == 0 || is_break(s[0]) {
        0
    } else {
        1 + first_break(s.drop_first())
    }
}

/// How many characters the line break at `at` has: `\r\n` is one break of two.
pub open spec fn break_len(s: Seq<char>, at: int) -> int {
    if s[at] == '\r' && at + 1 < s.len() && s[at + 1] == '\n' {
        2
    } else {
        1
    }
}

/// The pieces between the line breaks of `s`: one more than there are breaks.
pub open spec fn pieces(s: Seq<char>) -> Seq<Seq<char>>
    decreases s.len(),
{
    let at = first_break(s);
    if at < 0 || at >= s.len() {
        seq![s]
    } else {
        seq![s.take(at)] + pieces(s.skip(at + break_len(s, at)))
    }
}

/// The lines of `s`. A line break at the very end ends the last line and starts no other.
pub open spec fn lines_of(s: Seq<char>) -> Seq<Seq<char>> {
    let all = pieces(s);
    if all.len() > 1 && all.last().len() == 0 {
        all.drop_last()
    } else {
        all
    }
}

/// The lines with `\r\n` between them, and none at the end.
pub open spec fn crlf_of(lines: Seq<Seq<char>>) -> Seq<char>
    decreases lines.len(),
{
    if lines.len() == 0 {
        seq![]
    } else if lines.len() == 1 {
        lines[0]
    } else {
        crlf_of(lines.drop_last()) + seq!['\r', '\n'] + lines.last()
    }
}

/// Whether no line break stands in `s`.
pub open spec fn unbroken(s: Seq<char>) -> bool {
    forall|i: int| 0 <= i < s.len() ==> !is_break(#[trigger] s[i])
}

/// Whether no line holds a line break.
pub open spec fn all_unbroken(lines: Seq<Seq<char>>) -> bool {
    forall|i: int| 0 <= i < lines.len() ==> unbroken(#[trigger] lines[i])
}

/// Whether `s` ends with a line break.
pub open spec fn ends_with_break(s: Seq<char>) -> bool {
    s.len() > 0 && is_break(s.last())
}

/// Whether every line break of `s` is a `\r\n`.
pub open spec fn only_crlf(s: Seq<char>) -> bool {
    forall|i: int|
        #![trigger s[i]]
        0 <= i < s.len() ==> {
            &&& s[i] == '\r' ==> i + 1 < s.len() && s[i + 1] == '\n'
            &&& s[i] == '\n' ==> i > 0 && s[i - 1] == '\r'
        }
}

/// What the first line break is.
proof fn lemma_first_break(s: Seq<char>)
    ensures
        0 <= first_break(s) <= s.len(),
        unbroken(s.take(first_break(s))),
        first_break(s) < s.len() ==> is_break(s[first_break(s)]),
    decreases s.len(),
{
    if s.len() > 0 && !is_break(s[0]) {
        let rest = s.drop_first();
        lemma_first_break(rest);
        let at = first_break(s);
        assert forall|i: int| 0 <= i < at implies !is_break(#[trigger] s.take(at)[i]) by {
            if i > 0 {
                assert(rest.take(at - 1)[i - 1] == s[i]);
            }
        }
    }
}

/// A position that ends an unbroken part at a break is the first break.
proof fn lemma_first_break_is(s: Seq<char>, at: int)
    requires
        0 <= at <= s.len(),
        unbroken(s.take(at)),
        at < s.len() ==> is_break(s[at]),
    ensures
        first_break(s) == at,
{
    lemma_first_break(s);
    let found = first_break(s);
    if found < at {
        assert(s.take(at)[found] == s[found]);
    } else if at < found {
        assert(s.take(found)[at] == s[at]);
    }
}

/// Splits raw text into lines.
///
/// `\r\n`, `\n` and `\r` all break a line. A break at the end only ends the last line (`"a\r\n"` is
/// `["a"]`): otherwise a field of one line would come back with a break that it never had. Only one
/// break is dropped, so a deliberate empty last line stays (`"a\n\n"` is `["a", ""]`). The empty
/// text is `[""]`: a buffer always has a line.
pub fn to_lines(raw: &str) -> (lines: Vec<String>)
    ensures
        strings::texts(lines@) == lines_of(raw@),
{
    let chars = strings::chars_of(raw);
    let mut lines: Vec<String> = Vec::new();
    let mut start: usize = 0;
    let mut i: usize = 0;
    assert(raw@.skip(0) =~= raw@);
    assert(strings::texts(lines@) + pieces(raw@) =~= pieces(raw@));
    while i < chars.len()
        invariant
            start <= i <= chars@.len(),
            chars@ == raw@,
            unbroken(raw@.subrange(start as int, i as int)),
            pieces(raw@) == strings::texts(lines@) + pieces(raw@.skip(start as int)),
        decreases chars@.len() - i,
    {
        let c = chars[i];
        let ghost rest = raw@.skip(start as int);
        let ghost at = i - start;
        assert(rest.take(at) =~= raw@.subrange(start as int, i as int));
        if c == '\n' || c == '\r' {
            proof {
                lemma_first_break_is(rest, at);
            }
            let ghost was = strings::texts(lines@);
            let ghost from = start as int;
            lines.push(strings::string_of(chars.as_slice(), start, i));
            let width: usize = if c == '\r' && i + 1 < chars.len() && chars[i + 1] == '\n' {
                2
            } else {
                1
            };
            i = i + width;
            start = i;
            proof {
                assert(width == break_len(rest, at));
                assert(rest.skip(at + width) =~= raw@.skip(i as int));
                assert(strings::texts(lines@) =~= was + seq![rest.take(at)]);
                assert(was + (seq![rest.take(at)] + pieces(raw@.skip(i as int)))
                    =~= strings::texts(lines@) + pieces(raw@.skip(i as int)));
                assert(raw@.subrange(start as int, i as int) =~= seq![]);
            }
        } else {
            i = i + 1;
            assert forall|k: int| 0 <= k < i - start implies !is_break(
                #[trigger] raw@.subrange(start as int, i as int)[k],
            ) by {
                if k < at {
                    assert(raw@.subrange(start as int, start + at)[k] == raw@[start + k]);
                }
            }
        }
    }
    let ghost was = strings::texts(lines@);
    let ghost rest = raw@.skip(start as int);
    assert(rest.take(i - start) =~= raw@.subrange(start as int, i as int));
    proof {
        lemma_first_break_is(rest, i - start);
    }
    lines.push(strings::string_of(chars.as_slice(), start, chars.len()));
    assert(chars@.subrange(start as int, chars@.len() as int) =~= rest);
    assert(strings::texts(lines@) =~= was + seq![rest]);
    assert(strings::texts(lines@) == pieces(raw@));
    if lines.len() > 1 && lines[lines.len() - 1].as_str().is_empty() {
        let ghost all = strings::texts(lines@);
        lines.pop();
        assert(strings::texts(lines@) =~= all.drop_last());
    }
    lines
}

/// Joins the lines by `\r\n`, without a break at the end.
pub fn to_crlf(lines: &[String]) -> (out: String)
    ensures
        out@ == crlf_of(strings::texts(lines@)),
{
    let ghost all = strings::texts(lines@);
    let mut out = String::new();
    let mut i: usize = 0;
    assert(all.take(0) =~= seq![]);
    assert(crlf_of(all.take(0)) =~= out@);
    while i < lines.len()
        invariant
            i <= lines@.len(),
            all == strings::texts(lines@),
            out@ == crlf_of(all.take(i as int)),
        decreases lines@.len() - i,
    {
        assert(all.take(i + 1).drop_last() =~= all.take(i as int));
        if i > 0 {
            out.append("\r\n");
            proof {
                reveal_strlit("\r\n");
                assert("\r\n"@ =~= seq!['\r', '\n']);
            }
        }
        out.append(lines[i].as_str());
        assert(out@ =~= crlf_of(all.take(i + 1)));
        i = i + 1;
    }
    assert(all.take(all.len() as int) =~= all);
    out
}

// ---- laws ----
/// There is always at least one line, and no line holds a line break.
pub proof fn law_lines_are_unbroken(s: Seq<char>)
    ensures
        lines_of(s).len() >= 1,
        all_unbroken(lines_of(s)),
{
    lemma_pieces_are_unbroken(s);
}

proof fn lemma_pieces_are_unbroken(s: Seq<char>)
    ensures
        pieces(s).len() >= 1,
        all_unbroken(pieces(s)),
    decreases s.len(),
{
    lemma_first_break(s);
    let at = first_break(s);
    if at >= s.len() {
        assert(s.take(at) =~= s);
    } else {
        lemma_pieces_are_unbroken(s.skip(at + break_len(s, at)));
    }
}

/// What follows a piece and a `\r\n` is split on its own.
proof fn lemma_pieces_of_joined(head: Seq<char>, tail: Seq<char>)
    requires
        unbroken(head),
    ensures
        pieces(head + seq!['\r', '\n'] + tail) == seq![head] + pieces(tail),
{
    let s = head + seq!['\r', '\n'] + tail;
    let at = head.len() as int;
    assert(s.take(at) =~= head);
    lemma_first_break_is(s, at);
    assert(s.skip(at + 2) =~= tail);
}

/// The joined lines, with the first line taken off.
proof fn lemma_join_front(lines: Seq<Seq<char>>)
    requires
        lines.len() >= 2,
    ensures
        crlf_of(lines) == lines[0] + seq!['\r', '\n'] + crlf_of(lines.drop_first()),
    decreases lines.len(),
{
    if lines.len() == 2 {
        assert(lines.drop_last() =~= seq![lines[0]]);
        assert(lines.drop_first() =~= seq![lines[1]]);
        reveal_with_fuel(crlf_of, 3);
    } else {
        lemma_join_front(lines.drop_last());
        assert(lines.drop_last().drop_first() =~= lines.drop_first().drop_last());
        assert(crlf_of(lines) =~= lines[0] + seq!['\r', '\n'] + crlf_of(lines.drop_first()));
    }
}

/// Splitting what was joined gives the lines back.
proof fn lemma_pieces_of_crlf(lines: Seq<Seq<char>>)
    requires
        lines.len() >= 1,
        all_unbroken(lines),
    ensures
        pieces(crlf_of(lines)) == lines,
    decreases lines.len(),
{
    if lines.len() == 1 {
        assert(lines[0].take(lines[0].len() as int) =~= lines[0]);
        lemma_first_break_is(lines[0], lines[0].len() as int);
        assert(lines =~= seq![lines[0]]);
    } else {
        let rest = lines.drop_first();
        assert forall|i: int| 0 <= i < rest.len() implies unbroken(#[trigger] rest[i]) by {
            assert(rest[i] == lines[i + 1]);
        }
        lemma_pieces_of_crlf(rest);
        lemma_join_front(lines);
        lemma_pieces_of_joined(lines[0], crlf_of(rest));
        assert(seq![lines[0]] + rest =~= lines);
    }
}

/// Lines that are joined and split again come back as they were, unless the last of several is
/// empty: that one is dropped, once.
pub proof fn law_join_and_split(lines: Seq<Seq<char>>)
    requires
        lines.len() >= 1,
        all_unbroken(lines),
    ensures
        lines.len() == 1 || lines.last().len() > 0 ==> lines_of(crlf_of(lines)) == lines,
        lines.len() > 1 && lines.last().len() == 0 ==> lines_of(crlf_of(lines))
            == lines.drop_last(),
{
    lemma_pieces_of_crlf(lines);
}

/// Joining the pieces of a text whose breaks are all `\r\n` gives the text back.
proof fn lemma_join_pieces(s: Seq<char>)
    requires
        only_crlf(s),
    ensures
        crlf_of(pieces(s)) == s,
    decreases s.len(),
{
    lemma_first_break(s);
    let at = first_break(s);
    if at < s.len() {
        if s[at] == '\n' {
            assert(at > 0 && s[at - 1] == '\r');
            assert(s.take(at)[at - 1] == s[at - 1]);
            assert(false);
        }
        assert(s[at] == '\r' && s[at + 1] == '\n');
        let rest = s.skip(at + 2);
        assert forall|i: int| #![trigger rest[i]] 0 <= i < rest.len() implies {
            &&& rest[i] == '\r' ==> i + 1 < rest.len() && rest[i + 1] == '\n'
            &&& rest[i] == '\n' ==> i > 0 && rest[i - 1] == '\r'
        } by {
            assert(rest[i] == s[at + 2 + i]);
            if i == 0 && rest[i] == '\n' {
                assert(s[at + 1] == '\r');
            }
        }
        lemma_join_pieces(rest);
        lemma_pieces_are_unbroken(rest);
        let all = pieces(s);
        assert(all =~= seq![s.take(at)] + pieces(rest));
        assert(all.drop_first() =~= pieces(rest));
        lemma_join_front(all);
        assert(s =~= s.take(at) + seq!['\r', '\n'] + rest);
    }
}

/// The last piece is empty exactly where the text is empty or ends with a break.
proof fn lemma_last_piece(s: Seq<char>)
    ensures
        pieces(s).len() >= 1,
        pieces(s).last().len() == 0 <==> s.len() == 0 || ends_with_break(s),
        pieces(s).len() == 1 <==> unbroken(s),
    decreases s.len(),
{
    lemma_first_break(s);
    let at = first_break(s);
    if at >= s.len() {
        assert(s.take(at) =~= s);
        if ends_with_break(s) {
            assert(s[s.len() - 1] == s.last());
        }
    } else {
        let width = break_len(s, at);
        let rest = s.skip(at + width);
        lemma_last_piece(rest);
        assert(pieces(s).last() == pieces(rest).last());
        if rest.len() > 0 {
            assert(rest.last() == s.last());
        } else {
            assert(s.last() == s[at + width - 1]);
        }
        assert(!unbroken(s)) by {
            assert(is_break(s[at]));
        }
    }
}

/// A text without a break at its end, whose breaks are all `\r\n`, survives the way through the
/// lines and back exactly.
pub proof fn law_round_trip_without_trailing_break(s: Seq<char>)
    requires
        only_crlf(s),
        !ends_with_break(s),
    ensures
        crlf_of(lines_of(s)) == s,
{
    lemma_join_pieces(s);
    lemma_last_piece(s);
    if s.len() == 0 {
        assert(unbroken(s));
    }
}

/// A break at the end is lost on the way through the lines and back, and nothing else: what comes
/// back ends where the last line ends.
pub proof fn law_round_trip_drops_one_trailing_break(s: Seq<char>)
    requires
        only_crlf(s),
        ends_with_break(s),
    ensures
        crlf_of(lines_of(s)) + seq!['\r', '\n'] == s,
{
    lemma_join_pieces(s);
    lemma_last_piece(s);
    let all = pieces(s);
    assert(!unbroken(s)) by {
        assert(is_break(s[s.len() - 1]));
    }
    assert(crlf_of(all) == crlf_of(all.drop_last()) + seq!['\r', '\n'] + all.last());
    assert(crlf_of(all.drop_last()) + seq!['\r', '\n'] =~= crlf_of(all));
}

/// Whatever breaks a text has, the lines read back from the joined lines are the same lines, unless
/// the text ended with an empty line.
pub proof fn law_joining_normalizes_breaks(s: Seq<char>)
    ensures
        lines_of(s).len() == 1 || lines_of(s).last().len() > 0 ==> lines_of(crlf_of(lines_of(s)))
            == lines_of(s),
        only_crlf(crlf_of(lines_of(s))),
{
    law_lines_are_unbroken(s);
    law_join_and_split(lines_of(s));
    lemma_joined_breaks(lines_of(s));
}

/// Joined lines hold no other breaks than `\r\n`.
proof fn lemma_joined_breaks(lines: Seq<Seq<char>>)
    requires
        all_unbroken(lines),
    ensures
        only_crlf(crlf_of(lines)),
    decreases lines.len(),
{
    let s = crlf_of(lines);
    if lines.len() == 1 {
        assert forall|i: int| #![trigger s[i]] 0 <= i < s.len() implies !is_break(s[i]) by {
            assert(unbroken(lines[0]));
        }
    } else if lines.len() > 1 {
        let front = lines.drop_last();
        assert forall|i: int| 0 <= i < front.len() implies unbroken(#[trigger] front[i]) by {
            assert(front[i] == lines[i]);
        }
        lemma_joined_breaks(front);
        let head = crlf_of(front);
        let last = lines.last();
        assert(unbroken(lines[lines.len() - 1]));
        assert forall|i: int| #![trigger s[i]] 0 <= i < s.len() implies {
            &&& s[i] == '\r' ==> i + 1 < s.len() && s[i + 1] == '\n'
            &&& s[i] == '\n' ==> i > 0 && s[i - 1] == '\r'
        } by {
            if i < head.len() {
                assert(s[i] == head[i]);
            } else if i >= head.len() + 2 {
                assert(s[i] == last[i - head.len() - 2]);
            }
        }
    }
}

/// Every break ends exactly one line: what stands before it is a line, and what follows is split on
/// its own. A lone `\n`, a lone `\r` and the pair `\r\n` are one break each.
pub proof fn law_each_break_ends_one_line(head: Seq<char>, tail: Seq<char>)
    requires
        forall|i: int| 0 <= i < head.len() ==> head[i] != '\r' && head[i] != '\n',
        tail.len() > 0,
    ensures
        lines_of(head + seq!['\n'] + tail) == seq![head] + lines_of(tail),
        lines_of(head + seq!['\r', '\n'] + tail) == seq![head] + lines_of(tail),
        tail[0] != '\n' ==> lines_of(head + seq!['\r'] + tail) == seq![head] + lines_of(tail),
{
    lemma_last_piece(tail);
    if pieces(tail).len() == 1 {
        assert(unbroken(tail));
        if ends_with_break(tail) {
            assert(is_break(tail[tail.len() - 1]));
        }
    }
    lemma_one_break(head, seq!['\n'], tail);
    lemma_one_break(head, seq!['\r', '\n'], tail);
    if tail[0] != '\n' {
        lemma_one_break(head, seq!['\r'], tail);
    }
}

/// The pieces around one break.
proof fn lemma_one_break(head: Seq<char>, mark: Seq<char>, tail: Seq<char>)
    requires
        unbroken(head),
        mark == seq!['\n'] || mark == seq!['\r', '\n'] || (mark == seq!['\r'] && (tail.len() == 0
            || tail[0] != '\n')),
    ensures
        pieces(head + mark + tail) == seq![head] + pieces(tail),
        tail.len() > 0 ==> lines_of(head + mark + tail) == seq![head] + lines_of(tail),
        tail.len() == 0 ==> lines_of(head + mark + tail) == seq![head],
{
    let s = head + mark + tail;
    let at = head.len() as int;
    assert(s.take(at) =~= head);
    assert(s[at] == mark[0]);
    lemma_first_break_is(s, at);
    assert(break_len(s, at) == mark.len());
    assert(s.skip(at + mark.len()) =~= tail);
    let all = pieces(s);
    lemma_last_piece(tail);
    assert(all =~= seq![head] + pieces(tail));
    assert(all.last() == pieces(tail).last());
    if tail.len() > 0 {
        if all.last().len() == 0 {
            assert(!unbroken(tail)) by {
                assert(is_break(tail[tail.len() - 1]));
            }
            assert(all.drop_last() =~= seq![head] + pieces(tail).drop_last());
        }
    } else {
        assert(unbroken(tail));
        assert(pieces(tail).len() == 1);
        assert(all.drop_last() =~= seq![head]);
    }
}

/// Text without a break is one line, and a break at its end changes nothing about that.
pub proof fn law_one_line(line: Seq<char>)
    requires
        forall|i: int| 0 <= i < line.len() ==> line[i] != '\r' && line[i] != '\n',
    ensures
        lines_of(line) == seq![line],
        lines_of(line + seq!['\n']) == seq![line],
        lines_of(line + seq!['\r']) == seq![line],
        lines_of(line + seq!['\r', '\n']) == seq![line],
{
    assert(line.take(line.len() as int) =~= line);
    lemma_first_break_is(line, line.len() as int);
    let none: Seq<char> = seq![];
    assert(line + seq!['\n'] + none =~= line + seq!['\n']);
    assert(line + seq!['\r'] + none =~= line + seq!['\r']);
    assert(line + seq!['\r', '\n'] + none =~= line + seq!['\r', '\n']);
    lemma_one_break(line, seq!['\n'], none);
    lemma_one_break(line, seq!['\r'], none);
    lemma_one_break(line, seq!['\r', '\n'], none);
}

/// Joined lines have one `\r\n` between each two of them and nothing else added.
pub proof fn law_joined_lines(first: Seq<char>, rest: Seq<Seq<char>>)
    ensures
        crlf_of(seq![]) == Seq::<char>::empty(),
        crlf_of(seq![first]) == first,
        rest.len() > 0 ==> crlf_of(seq![first] + rest) == first + seq!['\r', '\n'] + crlf_of(rest),
{
    if rest.len() > 0 {
        let lines = seq![first] + rest;
        lemma_join_front(lines);
        assert(lines.drop_first() =~= rest);
    }
}

} // verus!
