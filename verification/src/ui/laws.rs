//! What holds of redraw events in general.

use vstd::prelude::*;

use crate::ui::cell;
use crate::ui::cell::CellView;
use crate::ui::fault::Fault;
use crate::ui::grid;
use crate::ui::grid::GridView;
use crate::ui::highlight::{HlAttr, Underline};
use crate::ui::mode;
use crate::ui::protocol;
use crate::ui::protocol::{Change, Command, End, Pending, Run, Step};
use crate::ui::read;
use crate::ui::state::{RedrawOutcome, UiView};
use crate::value::Value;

verus! {

/// Whether the interpreter knows an event of this name.
pub open spec fn known_event(name: Seq<char>) -> bool {
    ||| name == "grid_resize"@
    ||| name == "grid_clear"@
    ||| name == "grid_destroy"@
    ||| name == "grid_cursor_goto"@
    ||| name == "grid_line"@
    ||| name == "grid_scroll"@
    ||| name == "hl_attr_define"@
    ||| name == "default_colors_set"@
    ||| name == "mode_info_set"@
    ||| name == "mode_change"@
    ||| name == "option_set"@
    ||| name == "set_title"@
    ||| name == "busy_start"@
    ||| name == "busy_stop"@
    ||| name == "flush"@
}

/// Whether the event of this name is about a grid, which is then its first argument.
pub open spec fn grid_event(name: Seq<char>) -> bool {
    ||| name == "grid_resize"@
    ||| name == "grid_clear"@
    ||| name == "grid_destroy"@
    ||| name == "grid_cursor_goto"@
    ||| name == "grid_line"@
    ||| name == "grid_scroll"@
}

/// An event of an unknown name is ignored, whatever it carries.
pub proof fn law_unknown_event_is_ignored(
    ui: UiView,
    out: RedrawOutcome,
    name: Seq<char>,
    args: Seq<Value>,
)
    requires
        !known_event(name),
    ensures
        protocol::run_one(ui, out, name, args) == (Step { ui, out, end: End::Fine }),
{
}

/// An event for another grid is dropped: it changes nothing and is no error, whatever else it
/// carries.
pub proof fn law_other_grid_is_dropped(
    ui: UiView,
    out: RedrawOutcome,
    name: Seq<char>,
    args: Seq<Value>,
)
    requires
        grid_event(name),
        args.len() > 0,
        args[0].number() matches Some(n) && 0 <= n <= u64::MAX && n != protocol::GRID,
    ensures
        protocol::run_one(ui, out, name, args) == (Step { ui, out, end: End::Fine }),
{
}

/// A call that cannot be decoded changes nothing and fails with what was wrong with it.
pub proof fn law_undecodable_call_changes_nothing(
    ui: UiView,
    out: RedrawOutcome,
    name: Seq<char>,
    args: Seq<Value>,
)
    requires
        protocol::decode(name, args) is Err,
    ensures
        protocol::run_one(ui, out, name, args) == (Step {
            ui,
            out,
            end: End::Broken(protocol::decode(name, args)->Err_0),
        }),
{
}

/// A `grid_line` whose first item names no highlight is refused and paints nothing: what an earlier
/// call left behind is never inherited.
pub proof fn law_highlight_is_not_inherited_across_calls(
    ui: UiView,
    out: RedrawOutcome,
    row: int,
    col: int,
    items: Seq<Value>,
)
    requires
        0 <= row < ui.grid.rows(),
        items.len() > 0,
        items[0].items() matches Some(parts) && parts.len() == 1 && parts[0].text() is Some,
    ensures
        protocol::perform_line(ui, out, row, col, items) == (Step {
            ui,
            out,
            end: End::Broken(Fault::NoHighlight),
        }),
{
    assert(ui.grid.with_line(row, ui.grid.lines[row]).lines =~= ui.grid.lines);
}

/// Within a call, an item that names no highlight takes that of the item before it.
pub proof fn law_highlight_is_inherited_within_a_call(
    line: Seq<CellView>,
    col: int,
    inherited: Option<u32>,
    items: Seq<Value>,
)
    requires
        items.len() > 1,
        protocol::decode_run(items[0], inherited) is Ok,
        protocol::overflow_of(line, col, protocol::decode_run(items[0], inherited)->Ok_0) is None,
        items[1].items() matches Some(parts) && parts.len() == 1 && parts[0].text() is Some,
    ensures
        ({
            let first = protocol::decode_run(items[0], inherited)->Ok_0;
            let second = Run {
                cell: CellView {
                    text: cell::cell_text(items[1].items()->0[0].text()->0),
                    hl_id: first.cell.hl_id,
                },
                repeat: 1,
            };
            let after = protocol::with_run(line, col, first);
            protocol::paint(line, col, inherited, items) == match protocol::overflow_of(
                after,
                col + first.repeat,
                second,
            ) {
                Some(f) => protocol::Painted {
                    line: protocol::with_run(after, col + first.repeat, second),
                    fault: Some(f),
                },
                None => protocol::paint(
                    protocol::with_run(after, col + first.repeat, second),
                    col + first.repeat + 1,
                    Some(first.cell.hl_id),
                    items.skip(2),
                ),
            }
        }),
{
    let rest = items.drop_first();
    assert(rest[0] == items[1]);
    assert(rest.drop_first() =~= items.skip(2));
    reveal_with_fuel(protocol::paint, 3);
}

/// A run covers exactly as many columns as its repeat says, and no other column changes.
pub proof fn law_run_covers_its_repeat(line: Seq<CellView>, col: int, run: Run, c: int)
    requires
        0 <= c < line.len(),
        protocol::overflow_of(line, col, run) is None,
    ensures
        col <= c < col + run.repeat ==> protocol::with_run(line, col, run)[c] == run.cell,
        !(col <= c < col + run.repeat) ==> protocol::with_run(line, col, run)[c] == line[c],
{
}

/// Painting keeps the width of the line and changes nothing before the column it starts at.
pub proof fn law_painting_stays_in_the_line(
    line: Seq<CellView>,
    col: int,
    inherited: Option<u32>,
    items: Seq<Value>,
)
    ensures
        protocol::paint(line, col, inherited, items).line.len() == line.len(),
        forall|c: int|
            0 <= c < col && c < line.len() ==> #[trigger] protocol::paint(
                line,
                col,
                inherited,
                items,
            ).line[c] == line[c],
    decreases items.len(),
{
    if items.len() > 0 {
        if let Ok(run) = protocol::decode_run(items[0], inherited) {
            if protocol::overflow_of(line, col, run) is None {
                law_painting_stays_in_the_line(
                    protocol::with_run(line, col, run),
                    col + run.repeat,
                    Some(run.cell.hl_id),
                    items.drop_first(),
                );
            }
        }
    }
}

/// Scrolling keeps the size of the grid, changes nothing outside its part, and erases nothing: where
/// no line is moved to, the cells stay. A line that is moved is moved as it was, even where source
/// and target overlap.
pub proof fn law_scrolling(
    g: GridView,
    top: int,
    bot: int,
    left: int,
    right: int,
    rows: int,
    r: int,
    c: int,
)
    requires
        g.rectangular(),
        0 <= top <= bot <= g.rows(),
        0 <= left <= right <= g.cols,
        0 <= r < g.rows(),
        0 <= c < g.cols,
    ensures
        ({
            let after = protocol::scrolled(g, top, bot, left, right, rows);
            let in_part = top <= r < bot && left <= c < right;
            &&& after.rectangular()
            &&& after.cols == g.cols
            &&& after.rows() == g.rows()
            &&& in_part && top <= r + rows < bot ==> after.at(r, c) == g.at(r + rows, c)
            &&& in_part && !(top <= r + rows < bot) ==> after.at(r, c) == g.at(r, c)
            &&& !in_part ==> after.at(r, c) == g.at(r, c)
        }),
{
}

/// A scroll further than its part is high changes nothing.
pub proof fn law_scrolling_too_far_changes_nothing(
    g: GridView,
    top: int,
    bot: int,
    left: int,
    right: int,
    rows: int,
)
    requires
        g.rectangular(),
        0 <= top <= bot <= g.rows(),
        rows >= bot - top || -rows >= bot - top,
    ensures
        protocol::scrolled(g, top, bot, left, right, rows) == g,
{
    let after = protocol::scrolled(g, top, bot, left, right, rows);
    assert forall|r: int| 0 <= r < g.rows() implies after.lines[r] == g.lines[r] by {
        assert(after.lines[r] =~= g.lines[r]);
    }
    assert(after.lines =~= g.lines);
}

/// Scrolling back puts every line that is still there where it was.
pub proof fn law_scrolling_back(
    g: GridView,
    top: int,
    bot: int,
    left: int,
    right: int,
    rows: int,
    r: int,
    c: int,
)
    requires
        g.rectangular(),
        0 <= top <= bot <= g.rows(),
        0 <= left <= right <= g.cols,
        top <= r < bot,
        left <= c < right,
        top <= r - rows < bot,
    ensures
        ({
            let moved = protocol::scrolled(g, top, bot, left, right, rows);
            protocol::scrolled(moved, top, bot, left, right, -rows).at(r, c) == g.at(r, c)
        }),
{
}

/// An erased cell holds one space: it is never taken for the second half of a wide character.
pub proof fn law_erased_cells_are_not_empty(cols: nat, rows: nat, r: int, c: int)
    requires
        0 <= r < rows,
        0 <= c < cols,
    ensures
        grid::blank_grid(cols, rows).at(r, c).text == seq![' '],
        grid::blank_grid(cols, rows).at(r, c).text.len() > 0,
        grid::blank_grid(cols, rows).at(r, c).hl_id == 0,
{
}

/// Whether the colours have 24 bits and the blend is a percentage.
pub open spec fn sound_attr(attr: HlAttr) -> bool {
    &&& attr.fg matches Some(rgb) ==> rgb.0 <= 0x00ff_ffff
    &&& attr.bg matches Some(rgb) ==> rgb.0 <= 0x00ff_ffff
    &&& attr.sp matches Some(rgb) ==> rgb.0 <= 0x00ff_ffff
    &&& attr.blend <= 100
}

/// A highlight that is accepted has 24-bit colours and a blend of at most 100.
pub proof fn law_accepted_highlights_are_sound(entries: Seq<(Value, Value)>)
    ensures
        protocol::attr_fold(entries) matches Ok(p) ==> sound_attr(protocol::settled(p)),
    decreases entries.len(),
{
    if entries.len() > 0 {
        law_accepted_highlights_are_sound(entries.drop_last());
        if let Ok(p) = protocol::attr_fold(entries.drop_last()) {
            lemma_step_is_sound(p, entries.last());
        }
    }
}

/// Which attribute an entry sets.
spec fn kind_of(change: Change) -> int {
    match change {
        Change::Nothing => 0,
        Change::Fg(_) => 1,
        Change::Bg(_) => 2,
        Change::Sp(_) => 3,
        Change::Reverse(_) => 4,
        Change::Bold(_) => 5,
        Change::Italic(_) => 6,
        Change::Strikethrough(_) => 7,
        Change::Line(_) => 8,
        Change::Curl(_) => 9,
        Change::Double(_) => 10,
        Change::Dotted(_) => 11,
        Change::Dashed(_) => 12,
        Change::Blend(_) => 13,
    }
}

/// The attribute that an entry of a known name sets is told by the name.
proof fn lemma_name_tells_attribute(a: Seq<char>, v: Value, b: Seq<char>, w: Value)
    requires
        protocol::decode_attr(a, v) is Ok,
        protocol::decode_attr(b, w) is Ok,
        kind_of(protocol::decode_attr(a, v)->Ok_0) == kind_of(protocol::decode_attr(b, w)->Ok_0),
        kind_of(protocol::decode_attr(a, v)->Ok_0) != 0,
    ensures
        a == b,
{
}

/// `q` is `p` but for the one attribute that `change` sets.
spec fn sets(p: Pending, change: Change, q: Pending) -> bool {
    &&& q.attr.fg == (if change is Fg { Some(change->Fg_0) } else { p.attr.fg })
    &&& q.attr.bg == (if change is Bg { Some(change->Bg_0) } else { p.attr.bg })
    &&& q.attr.sp == (if change is Sp { Some(change->Sp_0) } else { p.attr.sp })
    &&& q.attr.reverse == (if change is Reverse { change->Reverse_0 } else { p.attr.reverse })
    &&& q.attr.bold == (if change is Bold { change->Bold_0 } else { p.attr.bold })
    &&& q.attr.italic == (if change is Italic { change->Italic_0 } else { p.attr.italic })
    &&& q.attr.strikethrough == (if change is Strikethrough {
        change->Strikethrough_0
    } else {
        p.attr.strikethrough
    })
    &&& q.attr.underline == p.attr.underline
    &&& q.attr.blend == (if change is Blend { change->Blend_0 } else { p.attr.blend })
    &&& q.line == (if change is Line { change->Line_0 } else { p.line })
    &&& q.curl == (if change is Curl { change->Curl_0 } else { p.curl })
    &&& q.double == (if change is Double { change->Double_0 } else { p.double })
    &&& q.dotted == (if change is Dotted { change->Dotted_0 } else { p.dotted })
    &&& q.dashed == (if change is Dashed { change->Dashed_0 } else { p.dashed })
}

proof fn lemma_changed_sets(p: Pending, change: Change)
    ensures
        sets(p, change, protocol::changed(p, change)),
{
}

/// Setting two different attributes gives the same in either order.
proof fn lemma_sets_commute(
    p: Pending,
    a: Change,
    b: Change,
    pa: Pending,
    pb: Pending,
    x: Pending,
    y: Pending,
)
    requires
        kind_of(a) != kind_of(b) || kind_of(a) == 0,
        sets(p, a, pa),
        sets(p, b, pb),
        sets(pa, b, x),
        sets(pb, a, y),
    ensures
        x == y,
{
    assert(x.attr.fg == y.attr.fg);
    assert(x.attr.bg == y.attr.bg);
    assert(x.attr.sp == y.attr.sp);
    assert(x.attr == y.attr);
}

/// Entries that set different attributes can be taken over in either order.
proof fn lemma_changes_commute(p: Pending, a: Change, b: Change)
    requires
        kind_of(a) != kind_of(b) || kind_of(a) == 0,
    ensures
        protocol::changed(protocol::changed(p, a), b) == protocol::changed(
            protocol::changed(p, b),
            a,
        ),
{
    let pa = protocol::changed(p, a);
    let pb = protocol::changed(p, b);
    lemma_changed_sets(p, a);
    lemma_changed_sets(p, b);
    lemma_changed_sets(pa, b);
    lemma_changed_sets(pb, a);
    lemma_sets_commute(
        p,
        a,
        b,
        pa,
        pb,
        protocol::changed(pa, b),
        protocol::changed(pb, a),
    );
}

/// An entry that is accepted keeps the highlight sound.
proof fn lemma_step_is_sound(p: Pending, entry: (Value, Value))
    requires
        sound_attr(p.attr),
    ensures
        protocol::attr_step(p, entry) matches Ok(q) ==> sound_attr(q.attr),
{
}

/// Two entries of different names can be read in either order.
proof fn lemma_steps_commute(p: Pending, a: (Value, Value), b: (Value, Value))
    requires
        a.0.text() != b.0.text(),
        protocol::attr_step(p, a) is Ok,
        protocol::attr_step(protocol::attr_step(p, a)->Ok_0, b) is Ok,
    ensures
        protocol::attr_step(p, b) is Ok,
        protocol::attr_step(protocol::attr_step(p, b)->Ok_0, a) == protocol::attr_step(
            protocol::attr_step(p, a)->Ok_0,
            b,
        ),
{
    let x = protocol::decode_change(a)->Ok_0;
    let y = protocol::decode_change(b)->Ok_0;
    if kind_of(x) == kind_of(y) && kind_of(x) != 0 {
        lemma_name_tells_attribute(a.0.text()->0, a.1, b.0.text()->0, b.1);
    }
    lemma_changes_commute(p, x, y);
}

/// Two neighbouring attributes of different names can change places.
proof fn lemma_neighbours_commute(
    before: Seq<(Value, Value)>,
    a: (Value, Value),
    b: (Value, Value),
    after: Seq<(Value, Value)>,
)
    requires
        a.0.text() != b.0.text(),
        protocol::attr_fold(before + seq![a, b] + after) is Ok,
    ensures
        protocol::attr_fold(before + seq![b, a] + after) == protocol::attr_fold(
            before + seq![a, b] + after,
        ),
    decreases after.len(),
{
    let one = before + seq![a, b] + after;
    let two = before + seq![b, a] + after;
    if after.len() > 0 {
        assert(one.drop_last() =~= before + seq![a, b] + after.drop_last());
        assert(two.drop_last() =~= before + seq![b, a] + after.drop_last());
        lemma_neighbours_commute(before, a, b, after.drop_last());
    } else {
        assert(one.drop_last() =~= before.push(a));
        assert(two.drop_last() =~= before.push(b));
        assert(before.push(a).drop_last() =~= before);
        assert(before.push(b).drop_last() =~= before);
        assert(one.last() == b && two.last() == a);
        assert(before.push(a).last() == a && before.push(b).last() == b);
        reveal_with_fuel(protocol::attr_fold, 3);
        lemma_steps_commute(protocol::attr_fold(before)->Ok_0, a, b);
    }
}

/// Whether no two entries have the same name.
pub open spec fn distinct_names(entries: Seq<(Value, Value)>) -> bool {
    forall|i: int, j: int|
        0 <= i < j < entries.len() ==> #[trigger] entries[i].0.text()
            != #[trigger] entries[j].0.text()
}

/// An entry can be moved to the end.
proof fn lemma_entry_moves_last(entries: Seq<(Value, Value)>, k: int)
    requires
        0 <= k < entries.len(),
        distinct_names(entries),
        protocol::attr_fold(entries) is Ok,
    ensures
        protocol::attr_fold(entries.remove(k).push(entries[k])) == protocol::attr_fold(entries),
    decreases entries.len() - k,
{
    let moved = entries.remove(k).push(entries[k]);
    if k == entries.len() - 1 {
        assert(moved =~= entries);
    } else {
        let before = entries.take(k);
        let after = entries.skip(k + 2);
        let (a, b) = (entries[k], entries[k + 1]);
        let next = before + seq![b, a] + after;
        assert(before + seq![a, b] + after =~= entries);
        assert(entries[k].0.text() != entries[k + 1].0.text());
        lemma_neighbours_commute(before, a, b, after);
        assert(next =~= entries.update(k, b).update(k + 1, a));
        assert(distinct_names(next)) by {
            assert forall|i: int, j: int| 0 <= i < j < next.len() implies #[trigger] next[i].0.text()
                != #[trigger] next[j].0.text() by {
                let was = |n: int|
                    if n == k {
                        k + 1
                    } else if n == k + 1 {
                        k
                    } else {
                        n
                    };
                assert(next[i] == entries[was(i)] && next[j] == entries[was(j)]);
                if was(i) < was(j) {
                    assert(entries[was(i)].0.text() != entries[was(j)].0.text());
                } else {
                    assert(entries[was(j)].0.text() != entries[was(i)].0.text());
                }
            }
        }
        lemma_entry_moves_last(next, k + 1);
        assert(next.remove(k + 1).push(next[k + 1]) =~= moved);
    }
}

/// Entries that can be read, each name given once, give the same in whatever order they are listed.
pub proof fn law_attributes_in_any_order(one: Seq<(Value, Value)>, two: Seq<(Value, Value)>)
    requires
        distinct_names(one),
        one.to_multiset() == two.to_multiset(),
        protocol::attr_fold(one) is Ok,
    ensures
        protocol::attr_fold(two) == protocol::attr_fold(one),
    decreases one.len(),
{
    one.to_multiset_ensures();
    two.to_multiset_ensures();
    assert(one.len() == two.len());
    if one.len() > 0 {
        let last = two.last();
        assert(two.contains(last));
        assert(two.to_multiset().count(last) > 0);
        assert(one.contains(last));
        let k = choose|k: int| 0 <= k < one.len() && one[k] == last;
        lemma_entry_moves_last(one, k);
        let rest = one.remove(k);
        let moved = rest.push(last);
        assert(moved.drop_last() =~= rest);
        assert(moved.last() == last);
        assert(two.remove(two.len() - 1) =~= two.drop_last());
        assert(rest.to_multiset() =~= two.drop_last().to_multiset());
        assert(distinct_names(rest)) by {
            assert forall|i: int, j: int| 0 <= i < j < rest.len() implies #[trigger] rest[i].0.text()
                != #[trigger] rest[j].0.text() by {
                let was = |n: int|
                    if n < k {
                        n
                    } else {
                        n + 1
                    };
                assert(rest[i] == one[was(i)] && rest[j] == one[was(j)]);
                assert(one[was(i)].0.text() != one[was(j)].0.text());
            }
        }
        law_attributes_in_any_order(rest, two.drop_last());
    } else {
        assert(one =~= two);
    }
}

/// The highlight that a call with a map in its second place defines.
proof fn lemma_define_reads_the_map(args: Seq<Value>, id: u32)
    requires
        args.len() >= 2,
        args[0].number() == Some(id as int),
        args[1].entries() is Some,
    ensures
        protocol::decode("hl_attr_define"@, args) == (match protocol::attr_fold(
            args[1].entries()->0,
        ) {
            Err(f) => Err::<Command, Fault>(f),
            Ok(p) => Ok::<Command, Fault>(Command::Define { id, attr: protocol::settled(p) }),
        }),
{
    let event = "hl_attr_define"@;
    reveal_strlit("grid_resize");
    reveal_strlit("grid_clear");
    reveal_strlit("grid_destroy");
    reveal_strlit("grid_cursor_goto");
    reveal_strlit("grid_line");
    reveal_strlit("grid_scroll");
    reveal_strlit("hl_attr_define");
    assert(event.len() != "grid_resize"@.len());
    assert(event.len() != "grid_clear"@.len());
    assert(event.len() != "grid_destroy"@.len());
    assert(event.len() != "grid_cursor_goto"@.len());
    assert(event.len() != "grid_line"@.len());
    assert(event.len() != "grid_scroll"@.len());
    assert(protocol::decode(event, args) == protocol::decode_define(args));
    assert(read::read_u32(args[0], "hl_attr_define id"@) == Ok::<u32, Fault>(id));
}

/// The order in which a call lists the attributes of a highlight does not matter: the same entries,
/// each name given once, lead to the same state in whatever order. This holds of the kinds of
/// underline too.
pub proof fn law_defining_in_any_order(
    ui: UiView,
    out: RedrawOutcome,
    id: u32,
    one: Seq<Value>,
    two: Seq<Value>,
)
    requires
        one.len() >= 2,
        two.len() >= 2,
        one[0].number() == Some(id as int),
        two[0].number() == Some(id as int),
        one[1].entries() is Some,
        two[1].entries() is Some,
        distinct_names(one[1].entries()->0),
        one[1].entries()->0.to_multiset() == two[1].entries()->0.to_multiset(),
        protocol::run_one(ui, out, "hl_attr_define"@, one).end == End::Fine,
    ensures
        protocol::run_one(ui, out, "hl_attr_define"@, two) == protocol::run_one(
            ui,
            out,
            "hl_attr_define"@,
            one,
        ),
{
    lemma_define_reads_the_map(one, id);
    lemma_define_reads_the_map(two, id);
    law_attributes_in_any_order(one[1].entries()->0, two[1].entries()->0);
}

/// Whether an entry of this name is true.
pub open spec fn is_set(entries: Seq<(Value, Value)>, name: Seq<char>) -> bool {
    exists|i: int|
        0 <= i < entries.len() && #[trigger] entries[i].0.text() == Some(name)
            && entries[i].1.truth() == Some(true)
}

/// The one underline of a highlight: the first of these that is true.
pub open spec fn first_underline(entries: Seq<(Value, Value)>) -> Underline {
    if is_set(entries, "underline"@) {
        Underline::Line
    } else if is_set(entries, "undercurl"@) {
        Underline::Undercurl
    } else if is_set(entries, "underdouble"@) {
        Underline::Double
    } else if is_set(entries, "underdotted"@) {
        Underline::Dotted
    } else if is_set(entries, "underdashed"@) {
        Underline::Dashed
    } else {
        Underline::Off
    }
}

/// A name is true in a list whose last entry does not repeat an earlier name if the last entry says
/// so, or, where that has another name, if the entries before it do.
proof fn lemma_set_by_the_last(entries: Seq<(Value, Value)>, name: Seq<char>)
    requires
        entries.len() > 0,
        distinct_names(entries),
    ensures
        is_set(entries, name) == (if entries.last().0.text() == Some(name) {
            entries.last().1.truth() == Some(true)
        } else {
            is_set(entries.drop_last(), name)
        }),
{
    let before = entries.drop_last();
    let n = entries.len() - 1;
    if entries.last().0.text() == Some(name) {
        assert forall|i: int| 0 <= i < n implies #[trigger] entries[i].0.text() != Some(name) by {
            assert(entries[i].0.text() != entries[n].0.text());
        }
        if entries.last().1.truth() == Some(true) {
            assert(entries[n].0.text() == Some(name));
        }
    } else {
        if is_set(before, name) {
            let i = choose|i: int|
                0 <= i < before.len() && #[trigger] before[i].0.text() == Some(name)
                    && before[i].1.truth() == Some(true);
            assert(entries[i].0.text() == Some(name));
        }
        if is_set(entries, name) {
            let i = choose|i: int|
                0 <= i < entries.len() && #[trigger] entries[i].0.text() == Some(name)
                    && entries[i].1.truth() == Some(true);
            assert(before[i].0.text() == Some(name));
        }
    }
}

/// Which names are those of the kinds of underline, and what their entries set.
proof fn lemma_underline_names(key: Seq<char>, v: Value)
    requires
        protocol::decode_attr(key, v) is Ok,
    ensures
        ({
            let change = protocol::decode_attr(key, v)->Ok_0;
            &&& change is Line <==> key == "underline"@
            &&& change is Curl <==> key == "undercurl"@
            &&& change is Double <==> key == "underdouble"@
            &&& change is Dotted <==> key == "underdotted"@
            &&& change is Dashed <==> key == "underdashed"@
            &&& change is Line ==> v.truth() == Some(change->Line_0)
            &&& change is Curl ==> v.truth() == Some(change->Curl_0)
            &&& change is Double ==> v.truth() == Some(change->Double_0)
            &&& change is Dotted ==> v.truth() == Some(change->Dotted_0)
            &&& change is Dashed ==> v.truth() == Some(change->Dashed_0)
        }),
{
    reveal_strlit("foreground");
    reveal_strlit("background");
    reveal_strlit("special");
    reveal_strlit("reverse");
    reveal_strlit("bold");
    reveal_strlit("italic");
    reveal_strlit("strikethrough");
    reveal_strlit("underline");
    reveal_strlit("undercurl");
    reveal_strlit("underdouble");
    reveal_strlit("underdotted");
    reveal_strlit("underdashed");
    assert("foreground"@.len() == 10);
    assert("background"@.len() == 10);
    assert("special"@.len() == 7);
    assert("reverse"@.len() == 7);
    assert("bold"@.len() == 4);
    assert("italic"@.len() == 6);
    assert("strikethrough"@.len() == 13);
    assert("underline"@.len() == 9);
    assert("undercurl"@.len() == 9);
    assert("underdouble"@.len() == 11);
    assert("underdotted"@.len() == 11);
    assert("underdashed"@.len() == 11);
    assert("underline"@[5] != "undercurl"@[5]);
    assert("underdouble"@[7] != "underdotted"@[7]);
    assert("underdouble"@[6] != "underdashed"@[6]);
    assert("underdotted"@[6] != "underdashed"@[6]);
}

/// Each kind of underline is noted as its entry says.
proof fn lemma_underlines_noted(entries: Seq<(Value, Value)>)
    requires
        distinct_names(entries),
        protocol::attr_fold(entries) is Ok,
    ensures
        ({
            let p = protocol::attr_fold(entries)->Ok_0;
            &&& p.line == is_set(entries, "underline"@)
            &&& p.curl == is_set(entries, "undercurl"@)
            &&& p.double == is_set(entries, "underdouble"@)
            &&& p.dotted == is_set(entries, "underdotted"@)
            &&& p.dashed == is_set(entries, "underdashed"@)
        }),
    decreases entries.len(),
{
    if entries.len() > 0 {
        let before = entries.drop_last();
        let last = entries.last();
        assert(distinct_names(before)) by {
            assert forall|i: int, j: int| 0 <= i < j < before.len() implies #[trigger] before[
                i
            ].0.text() != #[trigger] before[j].0.text() by {
                assert(entries[i].0.text() != entries[j].0.text());
            }
        }
        lemma_underlines_noted(before);
        lemma_underline_names(last.0.text()->0, last.1);
        lemma_changed_sets(protocol::attr_fold(before)->Ok_0, protocol::decode_change(last)->Ok_0);
        lemma_set_by_the_last(entries, "underline"@);
        lemma_set_by_the_last(entries, "undercurl"@);
        lemma_set_by_the_last(entries, "underdouble"@);
        lemma_set_by_the_last(entries, "underdotted"@);
        lemma_set_by_the_last(entries, "underdashed"@);
    }
}

/// A highlight that is defined has one underline: of the kinds that its map sets, the line comes
/// first, and after it the curl, the double line, the dots and the dashes.
pub proof fn law_underline_precedence(ui: UiView, out: RedrawOutcome, id: u32, args: Seq<Value>)
    requires
        args.len() >= 2,
        args[0].number() == Some(id as int),
        args[1].entries() is Some,
        distinct_names(args[1].entries()->0),
        protocol::run_one(ui, out, "hl_attr_define"@, args).end == End::Fine,
    ensures
        protocol::run_one(ui, out, "hl_attr_define"@, args).ui.hl.attr(id).underline
            == first_underline(args[1].entries()->0),
{
    lemma_define_reads_the_map(args, id);
    lemma_underlines_noted(args[1].entries()->0);
}

/// The guifont is never the empty text: nvim's empty text means that it is not set.
pub proof fn law_guifont_is_never_empty(
    ui: UiView,
    out: RedrawOutcome,
    name: Seq<char>,
    args: Seq<Value>,
)
    requires
        ui.guifont matches Some(spec) ==> spec.len() > 0,
    ensures
        protocol::run_one(ui, out, name, args).ui.guifont matches Some(spec) ==> spec.len() > 0,
{
}

/// A table of modes leaves no dangling mode: after it came, the current mode is in it, unless it is
/// empty.
pub proof fn law_new_table_has_the_current_mode(
    m: mode::ModeView,
    modes: Seq<mode::ModeInfoView>,
    enabled: bool,
)
    ensures
        modes.len() > 0 ==> m.with_modes(modes, enabled).info() is Some,
        modes.len() == 0 ==> m.with_modes(modes, enabled).info() is None,
        m.with_modes(modes, enabled).name == m.name,
{
}

/// What two batches report together.
pub open spec fn joined(a: RedrawOutcome, b: RedrawOutcome) -> RedrawOutcome {
    RedrawOutcome {
        flushed: a.flushed || b.flushed,
        resized: a.resized || b.resized,
        mode_changed: a.mode_changed || b.mode_changed,
        font_changed: a.font_changed || b.font_changed,
        title_changed: a.title_changed || b.title_changed,
    }
}

/// A step that started with `earlier` already reported.
pub open spec fn reported_before(step: Step, earlier: RedrawOutcome) -> Step {
    Step { out: joined(earlier, step.out), ..step }
}

/// What was reported before a call does not change what the call does.
proof fn lemma_one_after(
    ui: UiView,
    earlier: RedrawOutcome,
    out: RedrawOutcome,
    name: Seq<char>,
    args: Seq<Value>,
)
    ensures
        protocol::run_one(ui, joined(earlier, out), name, args) == reported_before(
            protocol::run_one(ui, out, name, args),
            earlier,
        ),
{
    match protocol::decode(name, args) {
        Err(_) => {},
        Ok(command) => {
            lemma_command_after(ui, earlier, out, command);
        },
    }
}

/// What was reported before a command does not change what the command does.
proof fn lemma_command_after(
    ui: UiView,
    earlier: RedrawOutcome,
    out: RedrawOutcome,
    command: Command,
)
    ensures
        protocol::perform(ui, joined(earlier, out), command) == reported_before(
            protocol::perform(ui, out, command),
            earlier,
        ),
{
}

/// What was reported before the calls of an event does not change what they do.
proof fn lemma_calls_after(step: Step, earlier: RedrawOutcome, name: Seq<char>, calls: Seq<Value>)
    ensures
        protocol::run_calls(reported_before(step, earlier), name, calls) == reported_before(
            protocol::run_calls(step, name, calls),
            earlier,
        ),
    decreases calls.len(),
{
    if calls.len() > 0 {
        lemma_calls_after(step, earlier, name, calls.drop_last());
        let before = protocol::run_calls(step, name, calls.drop_last());
        if let Ok(args) = read::read_array(calls.last(), name) {
            lemma_one_after(before.ui, earlier, before.out, name, args);
        }
    }
}

/// What was reported before an event does not change what it does.
proof fn lemma_event_after(step: Step, earlier: RedrawOutcome, event: Value)
    ensures
        protocol::run_event(reported_before(step, earlier), event) == reported_before(
            protocol::run_event(step, event),
            earlier,
        ),
{
    if let Some(parts) = event.items() {
        if parts.len() > 0 {
            if let Some(name) = parts[0].text() {
                lemma_one_after(step.ui, earlier, step.out, name, seq![]);
                lemma_calls_after(step, earlier, name, parts.drop_first());
            }
        }
    }
}

/// It does not matter how nvim cuts its events into batches: applying one batch and then another
/// does what applying both as one batch does, and reports what both report.
pub proof fn law_batches_compose(ui: UiView, first: Seq<Value>, second: Seq<Value>)
    requires
        protocol::run_batch(ui, first).end == End::Fine,
    ensures
        protocol::run_batch(ui, first + second) == reported_before(
            protocol::run_batch(protocol::run_batch(ui, first).ui, second),
            protocol::run_batch(ui, first).out,
        ),
    decreases second.len(),
{
    let mid = protocol::run_batch(ui, first);
    if second.len() == 0 {
        assert(first + second =~= first);
    } else {
        law_batches_compose(ui, first, second.drop_last());
        assert((first + second).drop_last() =~= first + second.drop_last());
        let tail = protocol::run_batch(mid.ui, second.drop_last());
        if tail.end == End::Fine {
            lemma_event_after(tail, mid.out, second.last());
        }
    }
}

/// Calls that are made in two goes.
proof fn lemma_calls_in_two(start: Step, name: Seq<char>, a: Seq<Value>, b: Seq<Value>)
    ensures
        protocol::run_calls(start, name, a + b) == ({
            let mid = protocol::run_calls(start, name, a);
            if mid.end == End::Fine {
                protocol::run_calls(mid, name, b)
            } else {
                mid
            }
        }),
    decreases b.len(),
{
    if b.len() == 0 {
        assert(a + b =~= a);
    } else {
        assert((a + b).drop_last() =~= a + b.drop_last());
        assert((a + b).last() == b.last());
        lemma_calls_in_two(start, name, a, b.drop_last());
    }
}

/// It does not matter how nvim groups the calls of an event: two events of one name, one after the
/// other, do what one event with the calls of both does.
pub proof fn law_calls_compose(
    step: Step,
    whole: Value,
    first: Value,
    second: Value,
    name: Value,
    a: Seq<Value>,
    b: Seq<Value>,
)
    requires
        step.end == End::Fine,
        a.len() > 0,
        b.len() > 0,
        whole.items() == Some(seq![name] + a + b),
        first.items() == Some(seq![name] + a),
        second.items() == Some(seq![name] + b),
    ensures
        protocol::run_event(step, whole) == ({
            let mid = protocol::run_event(step, first);
            if mid.end == End::Fine {
                protocol::run_event(mid, second)
            } else {
                mid
            }
        }),
{
    assert((seq![name] + a + b).drop_first() =~= a + b);
    assert((seq![name] + a).drop_first() =~= a);
    assert((seq![name] + b).drop_first() =~= b);
    if let Some(text) = name.text() {
        lemma_calls_in_two(step, text, a, b);
    }
}

/// A batch that is refused keeps what its events before the broken one did.
pub proof fn law_refused_batch_keeps_what_came_before(ui: UiView, done: Seq<Value>, rest: Seq<Value>)
    requires
        protocol::run_batch(ui, done).end == End::Fine,
        rest.len() > 0,
        protocol::run_event(protocol::run_batch(ui, done), rest[0]).end != End::Fine,
    ensures
        protocol::run_batch(ui, done + rest) == protocol::run_event(
            protocol::run_batch(ui, done),
            rest[0],
        ),
{
    let all = done + rest;
    let n = done.len() + 1;
    assert(all.take(n as int).drop_last() =~= done);
    assert(all.take(n as int).last() == rest[0]);
    protocol::lemma_stopped_batch(ui, all, n as int);
}

} // verus!
