//! Injecting keys.
//!
//! Right after the hotkey its modifiers are still held down. A `Ctrl+A` sent then would arrive as
//! `Ctrl+Alt+A`, so nothing is sent before all modifiers are up; if they do not come up in time,
//! nothing is sent at all.

use vstd::prelude::*;

verus! {

pub const VK_SHIFT: u16 = 0x10;

pub const VK_CONTROL: u16 = 0x11;

pub const VK_MENU: u16 = 0x12;

pub const VK_A: u16 = 0x41;

pub const VK_C: u16 = 0x43;

pub const VK_V: u16 = 0x56;

pub const VK_LWIN: u16 = 0x5B;

pub const VK_RWIN: u16 = 0x5C;

/// How long the modifiers may take to come up, in milliseconds.
pub const RELEASE_TIMEOUT_MS: u64 = 1500;

/// One key going down or up.
#[derive(Clone, Copy, Debug, PartialEq, Eq, Structural)]
pub struct KeyEvent {
    pub vk: u16,
    pub up: bool,
}

/// The state of the modifiers, as the system reports it for each of them.
#[derive(Clone, Copy, Debug)]
pub struct Modifiers {
    pub control: u16,
    pub shift: u16,
    pub menu: u16,
    pub left_win: u16,
    pub right_win: u16,
}

/// What to do about the modifiers.
#[derive(Clone, Copy, Debug, PartialEq, Eq, Structural)]
pub enum ReleaseStep {
    /// All are up.
    Ready,
    /// Look again in a moment.
    Wait,
    /// This one stayed down. Nothing is sent.
    GiveUp { vk: u16 },
}

/// Whether a reported state means that the key is down now. The lowest bit only tells that it was
/// down at some time since the last question.
pub open spec fn down(state: u16) -> bool {
    state >= 0x8000
}

/// The first modifier that is down.
pub open spec fn first_held(m: Modifiers) -> Option<u16> {
    if down(m.control) {
        Some(VK_CONTROL)
    } else if down(m.shift) {
        Some(VK_SHIFT)
    } else if down(m.menu) {
        Some(VK_MENU)
    } else if down(m.left_win) {
        Some(VK_LWIN)
    } else if down(m.right_win) {
        Some(VK_RWIN)
    } else {
        None
    }
}

/// Whether a reported state means that the key is down now.
pub fn is_down(state: u16) -> (is: bool)
    ensures
        is == down(state),
{
    assert(state & 0x8000 != 0 <==> state >= 0x8000) by (bit_vector);
    state & 0x8000 != 0
}

/// The first modifier that is down.
pub fn held_modifier(m: &Modifiers) -> (held: Option<u16>)
    ensures
        held == first_held(*m),
{
    if is_down(m.control) {
        Some(VK_CONTROL)
    } else if is_down(m.shift) {
        Some(VK_SHIFT)
    } else if is_down(m.menu) {
        Some(VK_MENU)
    } else if is_down(m.left_win) {
        Some(VK_LWIN)
    } else if is_down(m.right_win) {
        Some(VK_RWIN)
    } else {
        None
    }
}

/// What to do about the modifiers; `late` tells that the time is up.
pub fn wait_modifiers_released(m: &Modifiers, late: bool) -> (step: ReleaseStep)
    ensures
        step == match first_held(*m) {
            None => ReleaseStep::Ready,
            Some(vk) => if late {
                ReleaseStep::GiveUp { vk }
            } else {
                ReleaseStep::Wait
            },
        },
{
    match held_modifier(m) {
        None => ReleaseStep::Ready,
        Some(vk) => if late {
            ReleaseStep::GiveUp { vk }
        } else {
            ReleaseStep::Wait
        },
    }
}

/// The strokes of `Ctrl` and a key.
pub open spec fn chord(vk: u16) -> Seq<KeyEvent> {
    seq![
        KeyEvent { vk: VK_CONTROL, up: false },
        KeyEvent { vk, up: false },
        KeyEvent { vk, up: true },
        KeyEvent { vk: VK_CONTROL, up: true },
    ]
}

fn ctrl_chord(vk: u16) -> (events: Vec<KeyEvent>)
    ensures
        events@ == chord(vk),
{
    let mut events: Vec<KeyEvent> = Vec::new();
    events.push(KeyEvent { vk: VK_CONTROL, up: false });
    events.push(KeyEvent { vk, up: false });
    events.push(KeyEvent { vk, up: true });
    events.push(KeyEvent { vk: VK_CONTROL, up: true });
    assert(events@ =~= chord(vk));
    events
}

/// `Ctrl+A`. When the focus comes back the selection is lost, so this goes before a paste too.
pub fn select_all() -> (events: Vec<KeyEvent>)
    ensures
        events@ == chord(VK_A),
{
    ctrl_chord(VK_A)
}

/// `Ctrl+C`.
pub fn copy() -> (events: Vec<KeyEvent>)
    ensures
        events@ == chord(VK_C),
{
    ctrl_chord(VK_C)
}

/// `Ctrl+V`.
pub fn paste() -> (events: Vec<KeyEvent>)
    ensures
        events@ == chord(VK_V),
{
    ctrl_chord(VK_V)
}

/// Which keys are down after some strokes, if `held` were down before.
pub open spec fn held_after(events: Seq<KeyEvent>, held: Set<u16>) -> Set<u16>
    decreases events.len(),
{
    if events.len() == 0 {
        held
    } else {
        let before = held_after(events.drop_last(), held);
        let last = events.last();
        if last.up {
            before.remove(last.vk)
        } else {
            before.insert(last.vk)
        }
    }
}

/// Whether an event of a hotkey starts something: only a press does, and only of our own.
pub fn is_press_of(hotkey: u32, id: u32, pressed: bool) -> (is: bool)
    ensures
        is == (id == hotkey && pressed),
{
    id == hotkey && pressed
}

/// A chord leaves no key down: after it, what was down before it is down and nothing else.
pub proof fn law_chord_leaves_nothing_down(vk: u16, held: Set<u16>)
    requires
        !held.contains(VK_CONTROL),
        !held.contains(vk),
    ensures
        held_after(chord(vk), held) == held,
{
    let c = chord(vk);
    assert(c.drop_last() =~= seq![c[0], c[1], c[2]]);
    assert(c.drop_last().drop_last() =~= seq![c[0], c[1]]);
    assert(c.drop_last().drop_last().drop_last() =~= seq![c[0]]);
    assert(c.drop_last().drop_last().drop_last().drop_last() =~= seq![]);
    reveal_with_fuel(held_after, 5);
    assert(held_after(c, held) =~= held);
}

/// Keys are sent only while no modifier is down.
pub proof fn law_ready_means_all_released(m: Modifiers)
    ensures
        first_held(m) is None <==> !down(m.control) && !down(m.shift) && !down(m.menu) && !down(
            m.left_win,
        ) && !down(m.right_win),
{
}

/// A chord is `Ctrl` and the key going down, and the key and `Ctrl` going up again, in this order.
pub proof fn law_chord(vk: u16)
    ensures
        chord(vk).len() == 4,
        chord(vk)[0] == (KeyEvent { vk: 0x11, up: false }),
        chord(vk)[1] == (KeyEvent { vk, up: false }),
        chord(vk)[2] == (KeyEvent { vk, up: true }),
        chord(vk)[3] == (KeyEvent { vk: 0x11, up: true }),
        VK_A == 0x41 && VK_C == 0x43 && VK_V == 0x56,
{
}

/// A key is down where the highest bit of its state is set. Of several modifiers that are down the
/// first is named, in the order control, shift, alt, left and right logo key.
pub proof fn law_held_modifier(m: Modifiers, state: u16)
    ensures
        down(state) <==> state / 0x8000 == 1,
        first_held(m) matches Some(vk) ==> {
            ||| vk == 0x11 && m.control >= 0x8000
            ||| vk == 0x10 && m.control < 0x8000 && m.shift >= 0x8000
            ||| vk == 0x12 && m.control < 0x8000 && m.shift < 0x8000 && m.menu >= 0x8000
            ||| vk == 0x5b && m.control < 0x8000 && m.shift < 0x8000 && m.menu < 0x8000
                && m.left_win >= 0x8000
            ||| vk == 0x5c && m.control < 0x8000 && m.shift < 0x8000 && m.menu < 0x8000
                && m.left_win < 0x8000 && m.right_win >= 0x8000
        },
        first_held(m) is None <==> m.control < 0x8000 && m.shift < 0x8000 && m.menu < 0x8000
            && m.left_win < 0x8000 && m.right_win < 0x8000,
{
}

} // verus!
