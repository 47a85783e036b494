//! Editing in a Neovide window.
//!
//! Neovide is another program, so two things can go wrong that a window of our own cannot do: the
//! process can end, and its window can go while the process lives on. Both end like a lost nvim: the
//! pair of nvim and Neovide is started anew.

use vstd::prelude::*;

use crate::controller;
use crate::controller::{Capture, CaptureView, ControllerView};
use crate::event::{HostEvent, HostEventView};
use crate::session;
use crate::session::Phase;

verus! {

/// How long Neovide may take to show its window, in milliseconds.
pub const WINDOW_TIMEOUT_MS: u64 = 30_000;

/// The bit in a window's extended style that marks a tool window.
pub const WS_EX_TOOLWINDOW: u32 = 0x80;

/// A command from the hotkey, from the watch on Neovide or from nvim.
#[derive(Debug)]
pub enum Cmd {
    Hotkey,
    Exit,
    /// Neovide is of no use any more; why.
    EditorLost(&'static str),
    Host(HostEvent),
}

/// What the controller is told.
#[derive(Debug)]
pub enum Event {
    Cmd(Cmd),
    /// Neovide's window was looked for; whether it is there.
    WindowChecked(bool),
    /// The field was looked for.
    Captured(Capture),
    /// nvim was asked to start the session; whether it did.
    Started(bool),
    /// The window was asked to show; whether it could be asked.
    Shown(bool),
    /// The pair was restarted; whether it came up.
    Restarted(bool),
}

/// What the host has to do.
#[derive(Debug, PartialEq, Eq)]
pub enum Action {
    /// Look whether Neovide's window is still there.
    CheckWindow,
    Do(controller::Action),
}

#[derive(Debug)]
pub struct Controller {
    inner: controller::Controller,
}

#[verifier::ext_equal]
pub enum CmdView {
    Hotkey,
    Exit,
    EditorLost(Seq<char>),
    Host(HostEventView),
}

#[verifier::ext_equal]
pub enum EventView {
    Cmd(CmdView),
    WindowChecked(bool),
    Captured(CaptureView),
    Started(bool),
    Shown(bool),
    Restarted(bool),
}

#[verifier::ext_equal]
pub enum ActionView {
    CheckWindow,
    Do(controller::ActionView),
}

impl View for Cmd {
    type V = CmdView;

    open spec fn view(&self) -> CmdView {
        match *self {
            Cmd::Hotkey => CmdView::Hotkey,
            Cmd::Exit => CmdView::Exit,
            Cmd::EditorLost(why) => CmdView::EditorLost(why@),
            Cmd::Host(event) => CmdView::Host(event@),
        }
    }
}

impl View for Event {
    type V = EventView;

    open spec fn view(&self) -> EventView {
        match *self {
            Event::Cmd(cmd) => EventView::Cmd(cmd@),
            Event::WindowChecked(alive) => EventView::WindowChecked(alive),
            Event::Captured(capture) => EventView::Captured(capture@),
            Event::Started(ok) => EventView::Started(ok),
            Event::Shown(ok) => EventView::Shown(ok),
            Event::Restarted(ok) => EventView::Restarted(ok),
        }
    }
}

impl View for Action {
    type V = ActionView;

    open spec fn view(&self) -> ActionView {
        match *self {
            Action::CheckWindow => ActionView::CheckWindow,
            Action::Do(action) => ActionView::Do(action@),
        }
    }
}

impl View for Controller {
    type V = ControllerView;

    closed spec fn view(&self) -> ControllerView {
        self.inner@
    }
}

/// The state and what to do in it.
#[verifier::ext_equal]
pub struct Next {
    pub state: ControllerView,
    pub action: ActionView,
}

/// As the controller of a window of our own goes on.
pub open spec fn like(n: controller::Next) -> Next {
    Next { state: n.state, action: ActionView::Do(n.action) }
}

/// The state and the action that follow an event.
pub open spec fn step(s: ControllerView, shutting_down: bool, event: EventView) -> Next {
    match event {
        EventView::Cmd(CmdView::Hotkey) => if s.session.phase == Phase::Idle {
            // a window may just have gone
            Next { state: s, action: ActionView::CheckWindow }
        } else {
            like(controller::after_hotkey(s))
        },
        // After a restart the new Neovide has the focus: a field that was captured then would be the
        // wrong one, so the press is dropped.
        EventView::WindowChecked(alive) => if alive {
            like(controller::after_hotkey(s))
        } else {
            like(controller::recovered(s, shutting_down))
        },
        EventView::Cmd(CmdView::EditorLost(_)) => like(controller::recovered(s, shutting_down)),
        EventView::Cmd(CmdView::Exit) => like(
            controller::step(
                s,
                shutting_down,
                controller::EventView::Cmd(controller::CmdView::Exit),
            ),
        ),
        EventView::Cmd(CmdView::Host(event)) => like(
            controller::after_host(s, shutting_down, event),
        ),
        EventView::Captured(capture) => like(controller::after_capture(s, capture)),
        EventView::Started(ok) => like(controller::after_start(s, ok)),
        EventView::Shown(ok) => like(
            controller::step(s, shutting_down, controller::EventView::Shown(ok)),
        ),
        // a new Neovide starts hidden
        EventView::Restarted(ok) => Next {
            state: controller::step(s, shutting_down, controller::EventView::Restarted(ok)).state,
            action: ActionView::Do(controller::ActionView::Wait),
        },
    }
}

impl Controller {
    /// The first pair is up, and nothing is edited.
    pub fn new() -> (controller: Controller)
        ensures
            controller@ == (ControllerView {
                session: session::idle(),
                target_hwnd: 0,
                generation: 0,
                pending: None,
            }),
    {
        Controller { inner: controller::Controller::new() }
    }

    pub fn phase(&self) -> (phase: Phase)
        ensures
            phase == self@.session.phase,
    {
        self.inner.phase()
    }

    /// Which pair is the current one.
    pub fn generation(&self) -> (generation: u64)
        ensures
            generation == self@.generation,
    {
        self.inner.generation()
    }

    /// The lines and the window that were captured, until nvim has started the session.
    pub fn pending(&self) -> (captured: Option<&crate::uia::Captured>)
        ensures
            (match captured {
                Some(c) => self@.pending == Some(c@),
                None => self@.pending is None,
            }),
    {
        self.inner.pending()
    }

    /// The action that follows an event.
    pub fn step(&mut self, shutting_down: bool, event: Event) -> (action: Action)
        ensures
            (Next { state: final(self)@, action: action@ }) == step(
                old(self)@,
                shutting_down,
                event@,
            ),
    {
        match event {
            Event::Cmd(Cmd::Hotkey) => {
                if self.inner.phase() == Phase::Idle {
                    Action::CheckWindow
                } else {
                    Action::Do(
                        self.inner.step(
                            shutting_down,
                            controller::Event::Cmd(controller::Cmd::Hotkey),
                        ),
                    )
                }
            },
            Event::WindowChecked(alive) => {
                if alive {
                    Action::Do(
                        self.inner.step(
                            shutting_down,
                            controller::Event::Cmd(controller::Cmd::Hotkey),
                        ),
                    )
                } else {
                    Action::Do(self.inner.recover(shutting_down))
                }
            },
            Event::Cmd(Cmd::EditorLost(why)) => Action::Do(self.inner.recover(shutting_down)),
            Event::Cmd(Cmd::Exit) => Action::Do(
                self.inner.step(shutting_down, controller::Event::Cmd(controller::Cmd::Exit)),
            ),
            Event::Cmd(Cmd::Host(event)) => Action::Do(
                self.inner.step(
                    shutting_down,
                    controller::Event::Cmd(controller::Cmd::Host(event)),
                ),
            ),
            Event::Captured(capture) => Action::Do(
                self.inner.step(shutting_down, controller::Event::Captured(capture)),
            ),
            Event::Started(ok) => Action::Do(
                self.inner.step(shutting_down, controller::Event::Started(ok)),
            ),
            Event::Shown(ok) => Action::Do(
                self.inner.step(shutting_down, controller::Event::Shown(ok)),
            ),
            Event::Restarted(ok) => {
                let _hide = self.inner.step(shutting_down, controller::Event::Restarted(ok));
                Action::Do(controller::Action::Wait)
            },
        }
    }
}

/// What is known of the Neovide process.
#[derive(Clone, Copy, Debug, PartialEq, Eq, Structural)]
pub enum Process {
    Running,
    Exited,
    /// It could not be asked.
    Unwatchable,
}

/// What the watch on Neovide does next.
#[derive(Clone, Copy, Debug, PartialEq, Eq, Structural)]
pub enum WatchStep {
    /// The watch is over.
    Stop,
    /// The process ended on its own: report it.
    ProcessLost,
    /// The window went while the process lives: report it.
    WindowLost,
    /// Look again in a moment.
    Again,
}

/// One look at Neovide. It may be killed on purpose at any time: `abandoned` tells whether it was
/// before the look, `abandoned_now` whether it was after it.
pub open spec fn watch_step(
    abandoned: bool,
    process: Process,
    window_alive: bool,
    abandoned_now: bool,
) -> WatchStep {
    if abandoned || process == Process::Unwatchable {
        WatchStep::Stop
    } else if process == Process::Running && window_alive {
        WatchStep::Again
    } else if abandoned_now {
        WatchStep::Stop
    } else if process == Process::Exited {
        WatchStep::ProcessLost
    } else {
        WatchStep::WindowLost
    }
}

/// What the watch on Neovide does after a look at it.
pub fn watch(
    abandoned: bool,
    process: Process,
    window_alive: bool,
    abandoned_now: bool,
) -> (step: WatchStep)
    ensures
        step == watch_step(abandoned, process, window_alive, abandoned_now),
{
    if abandoned {
        return WatchStep::Stop;
    }
    match process {
        Process::Exited => {
            if abandoned_now {
                return WatchStep::Stop;
            }
            return WatchStep::ProcessLost;
        },
        Process::Running => {},
        Process::Unwatchable => {
            return WatchStep::Stop;
        },
    }
    if !window_alive {
        if abandoned_now {
            return WatchStep::Stop;
        }
        return WatchStep::WindowLost;
    }
    WatchStep::Again
}

impl WatchStep {
    /// What is reported as lost.
    pub fn reason(self) -> (why: Option<&'static str>)
        ensures
            (match why {
                Some(text) => text@ == (if self == WatchStep::ProcessLost {
                    "neovide exited"@
                } else {
                    "neovide window destroyed"@
                }),
                None => true,
            }),
            why is Some <==> self == WatchStep::ProcessLost || self == WatchStep::WindowLost,
    {
        match self {
            WatchStep::ProcessLost => Some("neovide exited"),
            WatchStep::WindowLost => Some("neovide window destroyed"),
            WatchStep::Stop => None,
            WatchStep::Again => None,
        }
    }
}

/// What is known of a window on the screen.
#[derive(Clone, Copy, Debug)]
pub struct WindowFacts {
    pub hwnd: isize,
    pub pid: u32,
    /// It is its own topmost ancestor.
    pub is_root: bool,
    pub visible: bool,
    /// Its extended style.
    pub ex_style: u32,
}

/// Whether a window is one that the user sees. Neovide's process has a small tool window too, which
/// comes first: whoever takes that one hides the wrong window.
pub open spec fn app_window(w: WindowFacts) -> bool {
    w.is_root && w.visible && (w.ex_style / WS_EX_TOOLWINDOW) % 2 == 0
}

/// Whether a window is the one that is looked for.
pub open spec fn belongs(w: WindowFacts, pid: u32) -> bool {
    w.hwnd != 0 && w.pid == pid && app_window(w)
}

/// Whether a window is one that the user sees.
pub fn is_app_window(w: &WindowFacts) -> (is: bool)
    ensures
        is == app_window(*w),
{
    if !w.is_root || !w.visible {
        return false;
    }
    let style: u32 = w.ex_style;
    assert((style & 0x80 == 0) == ((style / 0x80) % 2 == 0)) by (bit_vector);
    style & WS_EX_TOOLWINDOW == 0
}

/// The window of the process `pid`: of all the windows, the first that belongs.
pub fn top_level_window_of(windows: &[WindowFacts], pid: u32) -> (hwnd: Option<isize>)
    ensures
        (match hwnd {
            Some(found) => exists|i: int|
                {
                    &&& 0 <= i < windows@.len()
                    &&& belongs(#[trigger] windows@[i], pid)
                    &&& windows@[i].hwnd == found
                    &&& forall|k: int| 0 <= k < i ==> !belongs(#[trigger] windows@[k], pid)
                },
            None => forall|k: int|
                0 <= k < windows@.len() ==> !belongs(#[trigger] windows@[k], pid),
        }),
{
    let mut i: usize = 0;
    while i < windows.len()
        invariant
            i <= windows@.len(),
            forall|k: int| 0 <= k < i ==> !belongs(#[trigger] windows@[k], pid),
        decreases windows@.len() - i,
    {
        let w = &windows[i];
        if w.hwnd != 0 && w.pid == pid && is_app_window(w) {
            assert(belongs(windows@[i as int], pid));
            return Some(w.hwnd);
        }
        i = i + 1;
    }
    None
}

/// What to do while Neovide has not shown its window yet.
#[derive(Clone, Copy, Debug, PartialEq, Eq, Structural)]
pub enum WindowStep {
    Found(isize),
    /// The process could not be asked.
    Unwatchable,
    /// It ended before it showed a window.
    Exited,
    TimedOut,
    /// Look again in a moment.
    Again,
}

/// What to do after a look for the window.
pub open spec fn window_step(window: Option<isize>, process: Process, late: bool) -> WindowStep {
    match window {
        Some(hwnd) => WindowStep::Found(hwnd),
        None => match process {
            Process::Unwatchable => WindowStep::Unwatchable,
            Process::Exited => WindowStep::Exited,
            Process::Running => if late {
                WindowStep::TimedOut
            } else {
                WindowStep::Again
            },
        },
    }
}

/// What to do after a look for the window; `late` tells that the time is up. A window that is there
/// counts even if the process has ended or the time is up.
pub fn wait_for_window(window: Option<isize>, process: Process, late: bool) -> (step: WindowStep)
    ensures
        step == window_step(window, process, late),
{
    match window {
        Some(hwnd) => WindowStep::Found(hwnd),
        None => match process {
            Process::Unwatchable => WindowStep::Unwatchable,
            Process::Exited => WindowStep::Exited,
            Process::Running => if late {
                WindowStep::TimedOut
            } else {
                WindowStep::Again
            },
        },
    }
}

/// Where a window of the length `window` starts on a screen of the length `screen`.
pub open spec fn middle(screen: int, window: int) -> int {
    if screen > window {
        (screen - window) / 2
    } else {
        0
    }
}

/// The left or upper edge of a window of the length `window` in the middle of a screen of the length
/// `screen`. One that is longer than the screen starts at its edge.
pub fn centered(screen: i32, window: i32) -> (at: i32)
    requires
        i32::MIN <= screen - window <= i32::MAX,
    ensures
        at == middle(screen as int, window as int),
{
    let room: i32 = screen - window;
    if room <= 0 {
        0
    } else {
        room / 2
    }
}

/// Neovide that was killed on purpose is never reported as lost, at whatever moment it was killed.
pub proof fn law_killed_on_purpose_is_not_lost(
    abandoned: bool,
    process: Process,
    window_alive: bool,
    abandoned_now: bool,
)
    requires
        abandoned || abandoned_now,
    ensures
        watch_step(abandoned, process, window_alive, abandoned_now) != WatchStep::ProcessLost,
        watch_step(abandoned, process, window_alive, abandoned_now) != WatchStep::WindowLost,
{
}

/// A press of the hotkey while the window is gone restarts the pair and captures nothing.
pub proof fn law_press_without_a_window_captures_nothing(s: ControllerView)
    requires
        s.session.phase == Phase::Idle,
    ensures
        ({
            let pressed = step(s, false, EventView::Cmd(CmdView::Hotkey));
            let gone = step(pressed.state, false, EventView::WindowChecked(false));
            let up = step(gone.state, false, EventView::Restarted(true));
            &&& pressed == (Next { state: s, action: ActionView::CheckWindow })
            &&& gone.state.session == s.session
            &&& gone.action == ActionView::Do(
                controller::ActionView::Restart { generation: gone.state.generation },
            )
            &&& gone.state.generation != s.generation
            &&& up.state.session == session::idle()
            &&& up.action == ActionView::Do(controller::ActionView::Wait)
        }),
{
}

/// While the window is there, a press starts a session as it does with a window of our own.
pub proof fn law_press_with_a_window_captures(s: ControllerView, down: bool)
    requires
        s.session.phase == Phase::Idle,
    ensures
        step(s, down, EventView::WindowChecked(true)).state == controller::step(
            s,
            down,
            controller::EventView::Cmd(controller::CmdView::Hotkey),
        ).state,
        step(s, down, EventView::WindowChecked(true)).action == ActionView::Do(
            controller::ActionView::Capture,
        ),
{
}

/// Losing Neovide is like losing nvim; and on its way out the host restarts nothing.
pub proof fn law_lost_editor_restarts_the_pair(s: ControllerView, why: Seq<char>)
    ensures
        step(s, false, EventView::Cmd(CmdView::EditorLost(why))) == step(
            s,
            false,
            EventView::Cmd(CmdView::Host(HostEventView::Disconnected)),
        ),
        step(s, true, EventView::Cmd(CmdView::EditorLost(why))) == (Next {
            state: s,
            action: ActionView::Do(controller::ActionView::Wait),
        }),
{
}

/// Apart from the window, which is Neovide's, the controller does what the controller of a window of
/// our own does: with what nvim says, with what was captured, with how the start went and at the
/// exit.
pub proof fn law_goes_on_like_the_other_controller(
    s: ControllerView,
    down: bool,
    host: HostEventView,
    capture: CaptureView,
    ok: bool,
)
    ensures
        ({
            let same = |event: EventView, other: controller::EventView|
                {
                    let mine = step(s, down, event);
                    let theirs = controller::step(s, down, other);
                    mine.state == theirs.state && mine.action == ActionView::Do(theirs.action)
                };
            &&& same(
                EventView::Cmd(CmdView::Host(host)),
                controller::EventView::Cmd(controller::CmdView::Host(host)),
            )
            &&& same(EventView::Captured(capture), controller::EventView::Captured(capture))
            &&& same(EventView::Started(ok), controller::EventView::Started(ok))
            &&& same(EventView::Shown(ok), controller::EventView::Shown(ok))
            &&& same(
                EventView::Cmd(CmdView::Exit),
                controller::EventView::Cmd(controller::CmdView::Exit),
            )
            &&& s.session.phase != Phase::Idle ==> same(
                EventView::Cmd(CmdView::Hotkey),
                controller::EventView::Cmd(controller::CmdView::Hotkey),
            )
            &&& same(
                EventView::WindowChecked(true),
                controller::EventView::Cmd(controller::CmdView::Hotkey),
            )
            &&& same(
                EventView::WindowChecked(false),
                controller::EventView::Cmd(
                    controller::CmdView::Host(HostEventView::Disconnected),
                ),
            )
        }),
        step(s, down, EventView::Restarted(ok)).state == controller::step(
            s,
            down,
            controller::EventView::Restarted(ok),
        ).state,
        step(s, down, EventView::Restarted(ok)).action == ActionView::Do(
            controller::ActionView::Wait,
        ),
        s.session.phase == Phase::Idle ==> step(s, down, EventView::Cmd(CmdView::Hotkey)) == (Next {
            state: s,
            action: ActionView::CheckWindow,
        }),
{
}

/// Neovide that nobody killed is reported as soon as its process or its window is gone, and is looked
/// at again as long as both are there.
pub proof fn law_a_loss_is_reported(process: Process, window_alive: bool)
    ensures
        ({
            let seen = watch_step(false, process, window_alive, false);
            &&& process == Process::Exited ==> seen == WatchStep::ProcessLost
            &&& process == Process::Running && !window_alive ==> seen == WatchStep::WindowLost
            &&& process == Process::Running && window_alive ==> seen == WatchStep::Again
            &&& process == Process::Unwatchable ==> seen == WatchStep::Stop
        }),
        watch_step(true, process, window_alive, true) == WatchStep::Stop,
        watch_step(true, process, window_alive, false) == WatchStep::Stop,
        process == Process::Running && window_alive ==> watch_step(false, process, window_alive, true)
            == WatchStep::Again,
        !(process == Process::Running && window_alive) ==> watch_step(
            false,
            process,
            window_alive,
            true,
        ) == WatchStep::Stop,
{
}

/// The window that is looked for is one of the process, at the top, visible, and no tool window.
pub proof fn law_window_that_is_looked_for(w: WindowFacts, pid: u32)
    ensures
        belongs(w, pid) <==> w.hwnd != 0 && w.pid == pid && w.is_root && w.visible && (w.ex_style
            / 128) % 2 == 0,
        app_window(w) <==> w.is_root && w.visible && (w.ex_style / 128) % 2 == 0,
{
}

/// A window that is there is taken, whatever else is the case. Without one the end of the process and
/// a process that cannot be asked come before the time being up.
pub proof fn law_waiting(hwnd: isize, process: Process, late: bool)
    ensures
        window_step(Some(hwnd), process, late) == WindowStep::Found(hwnd),
        window_step(None, Process::Unwatchable, late) == WindowStep::Unwatchable,
        window_step(None, Process::Exited, late) == WindowStep::Exited,
        window_step(None, Process::Running, true) == WindowStep::TimedOut,
        window_step(None, Process::Running, false) == WindowStep::Again,
        WINDOW_TIMEOUT_MS == 30_000,
{
}

/// A window that is shorter than the screen has as much room on either side, up to one pixel; any
/// other starts at the edge.
pub proof fn law_middle(screen: int, window: int)
    ensures
        screen > window ==> {
            let after = screen - window - middle(screen, window);
            &&& 0 <= middle(screen, window) <= after <= middle(screen, window) + 1
        },
        screen <= window ==> middle(screen, window) == 0,
{
}

} // verus!
