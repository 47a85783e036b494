//! Which field is edited, and whether it is still there when the text goes back.
//!
//! Keys are never sent to anything that is not known to be a text field, and nothing is pasted into
//! a field other than the one that was captured.

use vstd::prelude::*;

use crate::strings;
use crate::text;

verus! {

/// The control type of a single-line or multi-line text field.
pub const EDIT_CONTROL: i32 = 50004;

/// The control type of a document.
pub const DOCUMENT_CONTROL: i32 = 50030;

/// The text that was captured, and the window that gets the focus back.
#[derive(Clone, Debug)]
pub struct Captured {
    pub lines: Vec<String>,
    pub hwnd: isize,
}

#[verifier::ext_equal]
pub struct CapturedView {
    pub lines: Seq<Seq<char>>,
    pub hwnd: isize,
}

/// What can be seen of the element that has the focus. `None` where a query failed.
#[derive(Debug)]
pub struct Focused {
    pub control_type: Option<i32>,
    pub focusable: Option<bool>,
    /// The window of the element itself, where it has one.
    pub native_hwnd: Option<isize>,
    /// The identity of the element, where it has one.
    pub runtime_id: Option<Vec<i32>>,
}

/// The field that was captured.
#[derive(Debug)]
struct Target {
    runtime_id: Option<Vec<i32>>,
    hwnd: isize,
}

#[verifier::ext_equal]
pub struct TargetView {
    pub runtime_id: Option<Seq<i32>>,
    pub hwnd: isize,
}

/// What to do about the element that has the focus.
#[derive(Debug, PartialEq, Eq)]
pub enum CaptureStep {
    /// There is nothing to edit.
    NoTarget,
    /// Copy the text out of the field; this window gets the focus back later.
    CopyFrom { hwnd: isize },
}

/// Why nothing is pasted.
#[derive(Clone, Copy, Debug, PartialEq, Eq, Structural)]
pub enum Refusal {
    /// No field was captured.
    NoTarget,
    /// It is not known what has the focus.
    NoFocus,
    /// What has the focus is no text field.
    NotEditable,
    /// What has the focus could not be compared with the field.
    NotComparable,
    /// What has the focus is another field.
    OtherElement,
    /// The window of the field is not in front.
    NotForeground,
}

/// The field that is held between capture and write-back.
#[derive(Debug)]
pub struct Uia {
    target: Option<Target>,
}

impl View for Captured {
    type V = CapturedView;

    open spec fn view(&self) -> CapturedView {
        CapturedView { lines: strings::texts(self.lines@), hwnd: self.hwnd }
    }
}

/// An identity that can be compared. An empty one cannot: all empty ones would be the same.
pub open spec fn usable_id(id: Option<Vec<i32>>) -> Option<Seq<i32>> {
    match id {
        Some(v) => if v@.len() > 0 {
            Some(v@)
        } else {
            None
        },
        None => None,
    }
}

impl View for Uia {
    type V = Option<TargetView>;

    closed spec fn view(&self) -> Option<TargetView> {
        match self.target {
            Some(target) => Some(
                TargetView {
                    runtime_id: match target.runtime_id {
                        Some(id) => Some(id@),
                        None => None,
                    },
                    hwnd: target.hwnd,
                },
            ),
            None => None,
        }
    }
}

/// Whether an element is a text field that takes the keyboard.
pub open spec fn edit_like(control_type: Option<i32>, focusable: Option<bool>) -> bool {
    &&& control_type == Some(EDIT_CONTROL) || control_type == Some(DOCUMENT_CONTROL)
    &&& focusable == Some(true)
}

/// The window that gets the focus back: that of the element, or the one in front where the element
/// has none of its own, as in a browser.
pub open spec fn window_of(native: Option<isize>, foreground: isize) -> Option<isize> {
    if native is Some && native->0 != 0 {
        native
    } else if foreground != 0 {
        Some(foreground)
    } else {
        None
    }
}

/// What to do about the element that has the focus, if there is one.
pub open spec fn capture_step(focused: Option<Focused>, foreground: isize) -> CaptureStep {
    match focused {
        Some(f) => if window_of(f.native_hwnd, foreground) is Some && edit_like(
            f.control_type,
            f.focusable,
        ) {
            CaptureStep::CopyFrom { hwnd: window_of(f.native_hwnd, foreground)->0 }
        } else {
            CaptureStep::NoTarget
        },
        None => CaptureStep::NoTarget,
    }
}

/// Why the element that has the focus is not the one that was captured. `compared` is what comparing
/// the elements themselves gave, for fields that have no identity.
pub open spec fn mismatch(
    target: Option<TargetView>,
    focused: Option<Focused>,
    compared: Option<bool>,
) -> Option<Refusal> {
    match (target, focused) {
        (None, _) => Some(Refusal::NoTarget),
        (_, None) => Some(Refusal::NoFocus),
        (Some(t), Some(f)) => if !edit_like(f.control_type, f.focusable) {
            Some(Refusal::NotEditable)
        } else {
            match t.runtime_id {
                Some(want) => if usable_id(f.runtime_id) == Some(want) {
                    None
                } else {
                    Some(Refusal::OtherElement)
                },
                None => match compared {
                    Some(true) => None,
                    Some(false) => Some(Refusal::OtherElement),
                    None => Some(Refusal::NotComparable),
                },
            }
        },
    }
}

/// Whether an element is a text field that takes the keyboard.
pub fn is_edit_like(control_type: Option<i32>, focusable: Option<bool>) -> (is: bool)
    ensures
        is == edit_like(control_type, focusable),
{
    let right_type = match control_type {
        Some(id) => id == EDIT_CONTROL || id == DOCUMENT_CONTROL,
        None => false,
    };
    match focusable {
        Some(yes) => right_type && yes,
        None => false,
    }
}

/// The window that gets the focus back.
pub fn target_hwnd(native: Option<isize>, foreground: isize) -> (hwnd: Option<isize>)
    ensures
        hwnd == window_of(native, foreground),
{
    if let Some(hwnd) = native {
        if hwnd != 0 {
            return Some(hwnd);
        }
    }
    if foreground != 0 {
        Some(foreground)
    } else {
        None
    }
}

/// Whether two identities are the same.
fn same_id(a: &Vec<i32>, b: &Vec<i32>) -> (same: bool)
    ensures
        same == (a@ == b@),
{
    if a.len() != b.len() {
        return false;
    }
    let mut i: usize = 0;
    while i < a.len()
        invariant
            i <= a@.len() == b@.len(),
            forall|k: int| 0 <= k < i ==> a@[k] == b@[k],
        decreases a@.len() - i,
    {
        if a[i] != b[i] {
            return false;
        }
        i = i + 1;
    }
    assert(a@ =~= b@);
    true
}

/// What was copied, where `changed` tells whether the clipboard changed after the copy. It does not
/// when the field is empty, so no change means no text. A change to something that is no text is an
/// error.
pub fn copied_text(changed: bool, text: Option<String>) -> (copied: Option<String>)
    ensures
        (match copied {
            Some(s) => if changed {
                text matches Some(t) && s@ == t@
            } else {
                s@.len() == 0
            },
            None => changed && text is None,
        }),
{
    if !changed {
        return Some(String::new());
    }
    text
}

/// Whether the clipboard has to be put back after a capture: only where the copy changed it. An
/// untouched clipboard may hold what cannot be put back.
pub fn must_restore(baseline: u32, now: u32) -> (must: bool)
    ensures
        must == (baseline != now),
{
    baseline != now
}

/// Whether the window of the field is in front, by the top-level windows of both. Keys that go to
/// another window would destroy what is in it.
pub fn in_foreground(expected_root: isize, actual_root: isize) -> (r: Result<(), Refusal>)
    ensures
        r == (if expected_root != 0 && expected_root == actual_root {
            Ok::<(), Refusal>(())
        } else {
            Err::<(), Refusal>(Refusal::NotForeground)
        }),
{
    if expected_root == 0 || expected_root != actual_root {
        Err(Refusal::NotForeground)
    } else {
        Ok(())
    }
}

impl Uia {
    /// No field is held.
    pub fn start() -> (uia: Uia)
        ensures
            uia@ is None,
    {
        Uia { target: None }
    }

    /// Looks at the element that has the focus. The field of an earlier session is let go whatever
    /// comes of it: nothing may go back to it any more.
    pub fn capture(&mut self, focused: &Option<Focused>, foreground: isize) -> (step: CaptureStep)
        ensures
            final(self)@ is None,
            step == capture_step(*focused, foreground),
    {
        self.target = None;
        match focused {
            None => CaptureStep::NoTarget,
            Some(f) => match target_hwnd(f.native_hwnd, foreground) {
                None => CaptureStep::NoTarget,
                Some(hwnd) => if is_edit_like(f.control_type, f.focusable) {
                    CaptureStep::CopyFrom { hwnd }
                } else {
                    CaptureStep::NoTarget
                },
            },
        }
    }

    /// Holds the field that `copied` was copied out of.
    pub fn retain(&mut self, focused: Focused, hwnd: isize, copied: &str) -> (captured: Captured)
        ensures
            final(self)@ == Some(TargetView { runtime_id: usable_id(focused.runtime_id), hwnd }),
            captured@ == (CapturedView { lines: text::lines_of(copied@), hwnd }),
    {
        let runtime_id = match focused.runtime_id {
            Some(id) => if id.len() > 0 {
                Some(id)
            } else {
                None
            },
            None => None,
        };
        self.target = Some(Target { runtime_id, hwnd });
        Captured { lines: text::to_lines(copied), hwnd }
    }

    /// Whether the lines may go back to what has the focus now, and what is then pasted into which
    /// window. The field is let go: a session writes back once.
    pub fn write_back(
        &mut self,
        focused: &Option<Focused>,
        compared: Option<bool>,
        lines: &[String],
    ) -> (r: Result<(isize, String), Refusal>)
        ensures
            final(self)@ is None,
            (match r {
                Ok((hwnd, pasted)) => {
                    &&& mismatch(old(self)@, *focused, compared) is None
                    &&& hwnd == old(self)@->0.hwnd
                    &&& pasted@ == text::crlf_of(strings::texts(lines@))
                },
                Err(refusal) => mismatch(old(self)@, *focused, compared) == Some(refusal),
            }),
    {
        let target = match self.target.take() {
            Some(target) => target,
            None => return Err(Refusal::NoTarget),
        };
        let focused = match focused {
            Some(focused) => focused,
            None => return Err(Refusal::NoFocus),
        };
        if !is_edit_like(focused.control_type, focused.focusable) {
            return Err(Refusal::NotEditable);
        }
        let same = match &target.runtime_id {
            Some(want) => match &focused.runtime_id {
                Some(actual) => actual.len() > 0 && same_id(actual, want),
                None => false,
            },
            None => match compared {
                Some(same) => same,
                None => return Err(Refusal::NotComparable),
            },
        };
        if !same {
            return Err(Refusal::OtherElement);
        }
        Ok((target.hwnd, text::to_crlf(lines)))
    }
}

/// What is captured and written back unchanged is the text that was there, but for its line breaks:
/// the lines pasted back are the lines captured, joined by `\r\n`.
pub proof fn law_unchanged_text_goes_back_as_its_lines(copied: Seq<char>)
    ensures
        ({
            let lines = text::lines_of(copied);
            let pasted = text::crlf_of(lines);
            &&& text::only_crlf(pasted)
            &&& lines.len() == 1 || lines.last().len() > 0 ==> text::lines_of(pasted) == lines
            &&& text::only_crlf(copied) && !text::ends_with_break(copied) ==> pasted == copied
        }),
{
    text::law_joining_normalizes_breaks(copied);
    if text::only_crlf(copied) && !text::ends_with_break(copied) {
        text::law_round_trip_without_trailing_break(copied);
    }
}

/// The field that was captured is taken again, and a field of another identity never is.
pub proof fn law_identity_decides(target: TargetView, focused: Focused, compared: Option<bool>)
    requires
        target.runtime_id is Some,
        edit_like(focused.control_type, focused.focusable),
    ensures
        mismatch(Some(target), Some(focused), compared) is None <==> usable_id(focused.runtime_id)
            == target.runtime_id,
{
}

/// A text field or a document that takes the keyboard is captured, by its own window where it has
/// one, and by the window in front where it has none, as in a browser. Nothing else is captured.
pub proof fn law_capture(focused: Focused, foreground: isize)
    ensures
        ({
            let step = capture_step(Some(focused), foreground);
            let field = (focused.control_type == Some(50004i32) || focused.control_type == Some(
                50030i32,
            )) && focused.focusable == Some(true);
            let own = focused.native_hwnd is Some && focused.native_hwnd->0 != 0;
            &&& field && own ==> step == (CaptureStep::CopyFrom { hwnd: focused.native_hwnd->0 })
            &&& field && !own && foreground != 0 ==> step == (CaptureStep::CopyFrom {
                hwnd: foreground,
            })
            &&& field && !own && foreground == 0 ==> step == CaptureStep::NoTarget
            &&& !field ==> step == CaptureStep::NoTarget
        }),
        capture_step(None, foreground) == CaptureStep::NoTarget,
{
}

/// The window in front makes no difference to a field that has a window of its own, and a field
/// without one is captured by whatever window is in front.
pub proof fn law_window_of_a_field(native: isize, foreground: isize, other: isize)
    requires
        native != 0,
        other != 0,
    ensures
        window_of(Some(native), foreground) == Some(native),
        window_of(None, other) == Some(other),
        window_of(Some(0), other) == Some(other),
        window_of(None, 0) is None,
        window_of(Some(0), 0) is None,
{
}

/// Only an identity that holds something can be told from others.
pub proof fn law_usable_identity(id: Vec<i32>)
    ensures
        id@.len() > 0 ==> usable_id(Some(id)) == Some(id@),
        id@.len() == 0 ==> usable_id(Some(id)) is None,
        usable_id(None) is None,
{
}

/// The text goes back to the field that it came from and to no other. With an identity, that alone
/// decides; without one, what comparing the elements gave does. What has the focus has to be a text
/// field still.
pub proof fn law_write_back_goes_to_the_captured_field(
    target: TargetView,
    focused: Focused,
    compared: Option<bool>,
)
    ensures
        ({
            let refusal = mismatch(Some(target), Some(focused), compared);
            let field = (focused.control_type == Some(50004i32) || focused.control_type == Some(
                50030i32,
            )) && focused.focusable == Some(true);
            let actual = match focused.runtime_id {
                Some(id) => id@,
                None => seq![],
            };
            &&& !field ==> refusal == Some(Refusal::NotEditable)
            &&& field && target.runtime_id is Some && target.runtime_id->0.len() > 0 ==> {
                if actual == target.runtime_id->0 {
                    refusal is None
                } else {
                    refusal == Some(Refusal::OtherElement)
                }
            }
            &&& field && target.runtime_id is None ==> match compared {
                Some(true) => refusal is None,
                Some(false) => refusal == Some(Refusal::OtherElement),
                None => refusal == Some(Refusal::NotComparable),
            }
        }),
        mismatch(None, Some(focused), compared) == Some(Refusal::NoTarget),
        mismatch(None, None, compared) == Some(Refusal::NoTarget),
        mismatch(Some(target), None, compared) == Some(Refusal::NoFocus),
{
}

} // verus!
