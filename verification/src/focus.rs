//! Bringing a window to the front.
//!
//! The system refuses that to most callers, and may say that it did it when it did not. So the input
//! queue of the window in front is joined for the time of the call, and what counts is which window
//! is in front afterwards. Controls are windows too: only their topmost ancestors are compared.

use vstd::prelude::*;

verus! {

/// What to do about a window that is to come to the front.
#[derive(Clone, Copy, Debug, PartialEq, Eq, Structural)]
pub enum FocusStep {
    /// It is in front already.
    Done,
    /// It does not exist any more.
    Gone,
    /// The system does not say whose it is.
    NoOwner,
    /// Ask for it.
    Ask,
}

/// The window that stands for `hwnd` when windows are compared.
pub open spec fn topmost(ancestor: isize, hwnd: isize) -> isize {
    if ancestor == 0 {
        hwnd
    } else {
        ancestor
    }
}

/// What to do about a window that is to come to the front.
pub open spec fn focus_step(alive: bool, root: isize, front: isize, owner: u32) -> FocusStep {
    if !alive {
        FocusStep::Gone
    } else if front == root {
        FocusStep::Done
    } else if owner == 0 {
        FocusStep::NoOwner
    } else {
        FocusStep::Ask
    }
}

/// The thread whose input queue is joined.
pub open spec fn joined_thread(front: u32, this: u32) -> Option<u32> {
    if front == 0 || front == this {
        None
    } else {
        Some(front)
    }
}

/// The topmost ancestor of a window, as the system gives it, or the window itself if it gives none.
pub fn root_of(ancestor: isize, hwnd: isize) -> (root: isize)
    ensures
        root == topmost(ancestor, hwnd),
{
    if ancestor == 0 {
        hwnd
    } else {
        ancestor
    }
}

/// What to do about a window whose topmost ancestor is `root`; `front` is that of the window in
/// front, and `owner` the thread that the window belongs to.
pub fn set_foreground(alive: bool, root: isize, front: isize, owner: u32) -> (step: FocusStep)
    ensures
        step == focus_step(alive, root, front, owner),
{
    if !alive {
        FocusStep::Gone
    } else if front == root {
        FocusStep::Done
    } else if owner == 0 {
        FocusStep::NoOwner
    } else {
        FocusStep::Ask
    }
}

/// Whether the window came to the front, whatever the system said.
pub fn came_to_front(root: isize, front: isize) -> (came: bool)
    ensures
        came == (root == front),
{
    root == front
}

/// The thread whose input queue to join: that of the window in front, unless there is none or it is
/// our own.
pub fn thread_to_join(front: u32, this: u32) -> (thread: Option<u32>)
    ensures
        thread == joined_thread(front, this),
{
    if front == 0 || front == this {
        None
    } else {
        Some(front)
    }
}

/// A window is asked for only where it exists, is not in front already and has an owner; a window
/// that does not exist is gone, whatever else is said of it.
pub proof fn law_focus(root: isize, front: isize, owner: u32)
    ensures
        focus_step(false, root, front, owner) == FocusStep::Gone,
        focus_step(true, root, root, owner) == FocusStep::Done,
        front != root ==> focus_step(true, root, front, 0) == FocusStep::NoOwner,
        front != root && owner != 0 ==> focus_step(true, root, front, owner) == FocusStep::Ask,
{
}

/// A control is compared by the window that it is in, and a window that is in none by itself.
pub proof fn law_topmost(ancestor: isize, hwnd: isize)
    ensures
        topmost(0, hwnd) == hwnd,
        ancestor != 0 ==> topmost(ancestor, hwnd) == ancestor,
{
}

/// The thread of the window in front is joined, but never our own, and none where there is none.
pub proof fn law_joined_thread(front: u32, this: u32)
    ensures
        joined_thread(0, this) is None,
        joined_thread(this, this) is None,
        front != 0 && front != this ==> joined_thread(front, this) == Some(front),
{
}

} // verus!
