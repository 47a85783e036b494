//! The course of a session.
//!
//! The controller decides; the host acts. Each event leads to the next state and to one action, and
//! what comes of the action is the next event.

use vstd::prelude::*;

use crate::event::{HostEvent, HostEventView};
use crate::session;
use crate::session::{Applied, AppliedView, Phase, Session, SessionView};
use crate::uia::{Captured, CapturedView};

verus! {

/// A command from the window or from nvim.
#[derive(Debug)]
pub enum Cmd {
    Hotkey,
    Exit,
    Host(HostEvent),
    /// Keys from the window, in nvim's notation already.
    Input(String),
    /// The window has another size.
    Resize { cols: u16, rows: u16 },
    /// The window is to be closed. Nothing is written back.
    CloseRequested,
}

/// What came of looking for a field to edit.
#[derive(Debug)]
pub enum Capture {
    Target(Captured),
    NoTarget,
    Failed,
}

/// What the controller is told.
#[derive(Debug)]
pub enum Event {
    Cmd(Cmd),
    /// The field was looked for.
    Captured(Capture),
    /// nvim was asked to start the session; whether it did.
    Started(bool),
    /// The window was asked to show; whether it could be asked.
    Shown(bool),
    /// nvim was restarted; whether it came up.
    Restarted(bool),
}

/// What the host has to do.
#[derive(Debug, PartialEq, Eq)]
pub enum Action {
    /// Wait for the next command.
    Wait,
    /// Bring the window to the front.
    Focus,
    /// Look for a field to edit.
    Capture,
    /// Start a session in nvim with the lines that were captured.
    StartSession,
    /// Show the window.
    Show,
    /// Hide the window, bring the window `hwnd` to the front, and do what was decided on. Even where
    /// the focus does not come back, what was written is not dropped.
    Finish { hwnd: isize, applied: Applied },
    /// Hand keys to nvim.
    Input(String),
    /// Tell nvim the size of the window.
    Resize { cols: u16, rows: u16 },
    /// Make nvim leave the session.
    Quit,
    /// Shut nvim down and start it anew, as this generation.
    Restart { generation: u64 },
    /// Hide the window.
    Hide,
    /// Shut nvim down for good.
    TearDown,
}

#[derive(Debug)]
pub struct Controller {
    session: Session,
    /// The window that the text goes back to.
    target_hwnd: isize,
    /// Which nvim is the current one. Events of another are dropped.
    generation: u64,
    /// What was captured, until nvim has started the session.
    pending: Option<Captured>,
}

#[verifier::ext_equal]
pub enum CmdView {
    Hotkey,
    Exit,
    Host(HostEventView),
    Input(Seq<char>),
    Resize { cols: u16, rows: u16 },
    CloseRequested,
}

#[verifier::ext_equal]
pub enum CaptureView {
    Target(CapturedView),
    NoTarget,
    Failed,
}

#[verifier::ext_equal]
pub enum EventView {
    Cmd(CmdView),
    Captured(CaptureView),
    Started(bool),
    Shown(bool),
    Restarted(bool),
}

#[verifier::ext_equal]
pub enum ActionView {
    Wait,
    Focus,
    Capture,
    StartSession,
    Show,
    Finish { hwnd: isize, applied: AppliedView },
    Input(Seq<char>),
    Resize { cols: u16, rows: u16 },
    Quit,
    Restart { generation: u64 },
    Hide,
    TearDown,
}

#[verifier::ext_equal]
pub struct ControllerView {
    pub session: SessionView,
    pub target_hwnd: isize,
    pub generation: u64,
    pub pending: Option<CapturedView>,
}

impl View for Cmd {
    type V = CmdView;

    open spec fn view(&self) -> CmdView {
        match *self {
            Cmd::Hotkey => CmdView::Hotkey,
            Cmd::Exit => CmdView::Exit,
            Cmd::Host(event) => CmdView::Host(event@),
            Cmd::Input(keys) => CmdView::Input(keys@),
            Cmd::Resize { cols, rows } => CmdView::Resize { cols, rows },
            Cmd::CloseRequested => CmdView::CloseRequested,
        }
    }
}

impl View for Capture {
    type V = CaptureView;

    open spec fn view(&self) -> CaptureView {
        match *self {
            Capture::Target(captured) => CaptureView::Target(captured@),
            Capture::NoTarget => CaptureView::NoTarget,
            Capture::Failed => CaptureView::Failed,
        }
    }
}

impl View for Event {
    type V = EventView;

    open spec fn view(&self) -> EventView {
        match *self {
            Event::Cmd(cmd) => EventView::Cmd(cmd@),
            Event::Captured(capture) => EventView::Captured(capture@),
            Event::Started(ok) => EventView::Started(ok),
            Event::Shown(ok) => EventView::Shown(ok),
            Event::Restarted(ok) => EventView::Restarted(ok),
        }
    }
}

impl View for Action {
    type V = ActionView;

    open spec fn view(&self) -> ActionView {
        match *self {
            Action::Wait => ActionView::Wait,
            Action::Focus => ActionView::Focus,
            Action::Capture => ActionView::Capture,
            Action::StartSession => ActionView::StartSession,
            Action::Show => ActionView::Show,
            Action::Finish { hwnd, applied } => ActionView::Finish { hwnd, applied: applied@ },
            Action::Input(keys) => ActionView::Input(keys@),
            Action::Resize { cols, rows } => ActionView::Resize { cols, rows },
            Action::Quit => ActionView::Quit,
            Action::Restart { generation } => ActionView::Restart { generation },
            Action::Hide => ActionView::Hide,
            Action::TearDown => ActionView::TearDown,
        }
    }
}

impl View for Controller {
    type V = ControllerView;

    closed spec fn view(&self) -> ControllerView {
        ControllerView {
            session: self.session@,
            target_hwnd: self.target_hwnd,
            generation: self.generation,
            pending: match self.pending {
                Some(captured) => Some(captured@),
                None => None,
            },
        }
    }
}

/// The generation after another. After the last one they start over.
pub open spec fn next_generation(generation: u64) -> u64 {
    if generation == u64::MAX {
        0
    } else {
        (generation + 1) as u64
    }
}

/// The state and what to do in it.
#[verifier::ext_equal]
pub struct Next {
    pub state: ControllerView,
    pub action: ActionView,
}

pub open spec fn next(state: ControllerView, action: ActionView) -> Next {
    Next { state, action }
}

/// nvim is lost. It is started anew, as another generation, unless the host is on its way out: what
/// ends then ends on purpose.
pub open spec fn recovered(s: ControllerView, shutting_down: bool) -> Next {
    if shutting_down {
        next(s, ActionView::Wait)
    } else {
        let generation = next_generation(s.generation);
        next(ControllerView { generation, ..s }, ActionView::Restart { generation })
    }
}

/// The hotkey: back to the window while a session is edited, a new session while there is none.
pub open spec fn after_hotkey(s: ControllerView) -> Next {
    match s.session.phase {
        Phase::Editing => next(s, ActionView::Focus),
        Phase::Idle => next(
            ControllerView { session: s.session.capturing(), pending: None, ..s },
            ActionView::Capture,
        ),
        _ => next(s, ActionView::Wait),
    }
}

/// An event from nvim.
pub open spec fn after_host(s: ControllerView, shutting_down: bool, event: HostEventView) -> Next {
    match event {
        HostEventView::SessionWrite(lines) => next(
            ControllerView { session: s.session.wrote(lines), ..s },
            ActionView::Wait,
        ),
        HostEventView::SessionEnd => if s.session.phase == Phase::Editing {
            next(
                ControllerView { session: s.session.ended(), ..s },
                ActionView::Finish { hwnd: s.target_hwnd, applied: s.session.verdict() },
            )
        } else {
            next(s, ActionView::Wait)
        },
        HostEventView::ConfigResolved { .. } => next(s, ActionView::Wait),
        HostEventView::InitError { .. } => next(s, ActionView::Wait),
        HostEventView::NvimDying => recovered(s, shutting_down),
        HostEventView::Disconnected => recovered(s, shutting_down),
    }
}

/// The field was looked for. Without one the session is over before it began.
pub open spec fn after_capture(s: ControllerView, capture: CaptureView) -> Next {
    if s.session.phase != Phase::Capturing || s.pending is Some {
        next(s, ActionView::Wait)
    } else {
        match capture {
            CaptureView::Target(captured) => next(
                ControllerView { pending: Some(captured), ..s },
                ActionView::StartSession,
            ),
            _ => next(
                ControllerView { session: s.session.aborted(), ..s },
                ActionView::Wait,
            ),
        }
    }
}

/// nvim was asked to start the session.
pub open spec fn after_start(s: ControllerView, ok: bool) -> Next {
    match s.pending {
        Some(captured) => if ok {
            next(
                ControllerView {
                    session: s.session.editing(captured.lines),
                    target_hwnd: captured.hwnd,
                    pending: None,
                    ..s
                },
                ActionView::Show,
            )
        } else {
            next(
                ControllerView { session: s.session.aborted(), pending: None, ..s },
                ActionView::Wait,
            )
        },
        None => next(s, ActionView::Wait),
    }
}

/// The state and the action that follow an event.
pub open spec fn step(s: ControllerView, shutting_down: bool, event: EventView) -> Next {
    match event {
        EventView::Cmd(CmdView::Hotkey) => after_hotkey(s),
        EventView::Cmd(CmdView::Exit) => next(
            ControllerView { generation: next_generation(s.generation), ..s },
            ActionView::TearDown,
        ),
        EventView::Cmd(CmdView::Host(event)) => after_host(s, shutting_down, event),
        EventView::Cmd(CmdView::Input(keys)) => next(s, ActionView::Input(keys)),
        EventView::Cmd(CmdView::Resize { cols, rows }) => next(
            s,
            ActionView::Resize { cols, rows },
        ),
        EventView::Cmd(CmdView::CloseRequested) => if s.session.phase == Phase::Editing {
            next(s, ActionView::Quit)
        } else {
            next(s, ActionView::Wait)
        },
        EventView::Captured(capture) => after_capture(s, capture),
        EventView::Started(ok) => after_start(s, ok),
        // without a window nothing can be edited
        EventView::Shown(ok) => if ok {
            next(s, ActionView::Wait)
        } else {
            next(ControllerView { session: session::idle(), ..s }, ActionView::Wait)
        },
        EventView::Restarted(ok) => if ok {
            next(
                ControllerView {
                    session: session::idle(),
                    target_hwnd: 0,
                    pending: None,
                    ..s
                },
                ActionView::Hide,
            )
        } else {
            next(s, ActionView::Wait)
        },
    }
}

/// Whether an event of the nvim of `generation` still counts.
pub fn is_current(generation: u64, current: u64) -> (is: bool)
    ensures
        is == (generation == current),
{
    generation == current
}

impl Controller {
    /// The first nvim is up, and nothing is edited.
    pub fn new() -> (controller: Controller)
        ensures
            controller@ == (ControllerView {
                session: session::idle(),
                target_hwnd: 0,
                generation: 0,
                pending: None,
            }),
    {
        Controller { session: Session::default(), target_hwnd: 0, generation: 0, pending: None }
    }

    pub fn phase(&self) -> (phase: Phase)
        ensures
            phase == self@.session.phase,
    {
        self.session.phase()
    }

    /// Which nvim is the current one.
    pub fn generation(&self) -> (generation: u64)
        ensures
            generation == self@.generation,
    {
        self.generation
    }

    /// What was captured, until nvim has started the session.
    pub fn pending(&self) -> (captured: Option<&Captured>)
        ensures
            (match captured {
                Some(c) => self@.pending == Some(c@),
                None => self@.pending is None,
            }),
    {
        self.pending.as_ref()
    }

    fn advance(&mut self) -> (generation: u64)
        ensures
            generation == next_generation(old(self)@.generation),
            final(self)@ == (ControllerView { generation, ..old(self)@ }),
    {
        self.generation = if self.generation == u64::MAX {
            0
        } else {
            self.generation + 1
        };
        self.generation
    }

    fn on_hotkey(&mut self) -> (action: Action)
        ensures
            next(final(self)@, action@) == after_hotkey(old(self)@),
    {
        match self.session.phase() {
            Phase::Editing => Action::Focus,
            Phase::Idle => {
                if self.session.begin_capture() {
                    self.pending = None;
                    Action::Capture
                } else {
                    Action::Wait
                }
            },
            _ => Action::Wait,
        }
    }

    pub(crate) fn recover(&mut self, shutting_down: bool) -> (action: Action)
        ensures
            next(final(self)@, action@) == recovered(old(self)@, shutting_down),
    {
        if shutting_down {
            return Action::Wait;
        }
        Action::Restart { generation: self.advance() }
    }

    fn on_host(&mut self, shutting_down: bool, event: HostEvent) -> (action: Action)
        ensures
            next(final(self)@, action@) == after_host(old(self)@, shutting_down, event@),
    {
        match event {
            HostEvent::SessionWrite(lines) => {
                self.session.on_write(lines);
                Action::Wait
            },
            HostEvent::SessionEnd => self.finish_session(),
            HostEvent::ConfigResolved { dir, loaded } => Action::Wait,
            HostEvent::InitError { kind, message } => Action::Wait,
            HostEvent::NvimDying => self.recover(shutting_down),
            HostEvent::Disconnected => self.recover(shutting_down),
        }
    }

    fn finish_session(&mut self) -> (action: Action)
        ensures
            next(final(self)@, action@) == after_host(
                old(self)@,
                false,
                HostEventView::SessionEnd,
            ),
    {
        if self.session.phase() != Phase::Editing {
            return Action::Wait;
        }
        let applied = self.session.on_end();
        Action::Finish { hwnd: self.target_hwnd, applied }
    }

    fn on_captured(&mut self, capture: Capture) -> (action: Action)
        ensures
            next(final(self)@, action@) == after_capture(old(self)@, capture@),
    {
        if self.session.phase() != Phase::Capturing || self.pending.is_some() {
            return Action::Wait;
        }
        match capture {
            Capture::Target(captured) => {
                self.pending = Some(captured);
                Action::StartSession
            },
            Capture::NoTarget => {
                self.session.abort_capture();
                Action::Wait
            },
            Capture::Failed => {
                self.session.abort_capture();
                Action::Wait
            },
        }
    }

    fn on_started(&mut self, ok: bool) -> (action: Action)
        ensures
            next(final(self)@, action@) == after_start(old(self)@, ok),
    {
        match self.pending.take() {
            Some(captured) => {
                if ok {
                    self.target_hwnd = captured.hwnd;
                    self.session.begin_edit(captured.lines);
                    Action::Show
                } else {
                    self.session.abort_capture();
                    Action::Wait
                }
            },
            None => Action::Wait,
        }
    }

    /// The action that follows an event.
    pub fn step(&mut self, shutting_down: bool, event: Event) -> (action: Action)
        ensures
            next(final(self)@, action@) == step(old(self)@, shutting_down, event@),
    {
        match event {
            Event::Cmd(Cmd::Hotkey) => self.on_hotkey(),
            Event::Cmd(Cmd::Exit) => {
                self.advance();
                Action::TearDown
            },
            Event::Cmd(Cmd::Host(event)) => self.on_host(shutting_down, event),
            Event::Cmd(Cmd::Input(keys)) => Action::Input(keys),
            Event::Cmd(Cmd::Resize { cols, rows }) => Action::Resize { cols, rows },
            Event::Cmd(Cmd::CloseRequested) => {
                if self.session.phase() == Phase::Editing {
                    Action::Quit
                } else {
                    Action::Wait
                }
            },
            Event::Captured(capture) => self.on_captured(capture),
            Event::Started(ok) => self.on_started(ok),
            Event::Shown(ok) => {
                if !ok {
                    self.session.reset();
                }
                Action::Wait
            },
            Event::Restarted(ok) => {
                if ok {
                    self.session.reset();
                    self.target_hwnd = 0;
                    self.pending = None;
                    Action::Hide
                } else {
                    Action::Wait
                }
            },
        }
    }
}

// ---- laws ----
/// A controller in which something is pending only while a field is captured.
pub open spec fn sound(s: ControllerView) -> bool {
    s.pending is Some ==> s.session.phase == Phase::Capturing
}

/// Something is pending only while a field is captured: every event keeps it so.
pub proof fn law_pending_only_while_capturing(
    s: ControllerView,
    shutting_down: bool,
    event: EventView,
)
    requires
        sound(s),
        // the window is shown after the session has started only
        event matches EventView::Shown(_) ==> s.pending is None,
    ensures
        sound(step(s, shutting_down, event).state),
{
}

/// A whole session, from the hotkey to its end: what goes back to the window that was captured is
/// what was written last, unless that is what was captured.
pub proof fn law_session_from_hotkey_to_end(
    s: ControllerView,
    down: bool,
    captured: CapturedView,
    lines: Seq<Seq<char>>,
)
    requires
        s.session.phase == Phase::Idle,
    ensures
        ({
            let a = step(s, down, EventView::Cmd(CmdView::Hotkey));
            let b = step(a.state, down, EventView::Captured(CaptureView::Target(captured)));
            let c = step(b.state, down, EventView::Started(true));
            let d = step(c.state, down, EventView::Shown(true));
            let write = EventView::Cmd(CmdView::Host(HostEventView::SessionWrite(lines)));
            let end = EventView::Cmd(CmdView::Host(HostEventView::SessionEnd));
            let e = step(d.state, down, write);
            let f = step(e.state, down, end);
            let g = step(d.state, down, end);
            &&& a.action == ActionView::Capture
            &&& b.action == ActionView::StartSession
            &&& b.state.pending == Some(captured)
            &&& c.action == ActionView::Show
            &&& d.state.session.phase == Phase::Editing
            &&& f.action == (ActionView::Finish {
                hwnd: captured.hwnd,
                applied: if lines == captured.lines {
                    AppliedView::Unchanged
                } else {
                    AppliedView::WriteBack(lines)
                },
            })
            &&& f.state.session == session::idle()
            // a session in which nothing was written changes nothing
            &&& g.action == (ActionView::Finish {
                hwnd: captured.hwnd,
                applied: AppliedView::Discarded,
            })
            &&& g.state.session == session::idle()
        }),
{
}

/// A session that cannot be started leaves nothing behind: without a field, without nvim or without
/// a window the controller is idle again.
pub proof fn law_failed_start_leaves_idleness(s: ControllerView, down: bool, captured: CapturedView)
    requires
        s.session.phase == Phase::Idle,
    ensures
        ({
            let a = step(s, down, EventView::Cmd(CmdView::Hotkey)).state;
            let none = step(a, down, EventView::Captured(CaptureView::NoTarget));
            let failed = step(a, down, EventView::Captured(CaptureView::Failed));
            let b = step(a, down, EventView::Captured(CaptureView::Target(captured))).state;
            let refused = step(b, down, EventView::Started(false));
            let c = step(b, down, EventView::Started(true)).state;
            let unseen = step(c, down, EventView::Shown(false));
            &&& none.state.session.phase == Phase::Idle && none.action == ActionView::Wait
            &&& failed.state.session.phase == Phase::Idle && failed.action == ActionView::Wait
            &&& refused.state.session.phase == Phase::Idle && refused.action == ActionView::Wait
            &&& refused.state.pending is None
            &&& unseen.state.session == session::idle() && unseen.action == ActionView::Wait
        }),
{
}

/// The hotkey never disturbs a session that is being edited.
pub proof fn law_hotkey_while_editing_only_focuses(s: ControllerView, down: bool)
    requires
        s.session.phase == Phase::Editing,
    ensures
        step(s, down, EventView::Cmd(CmdView::Hotkey)) == next(s, ActionView::Focus),
{
}

/// On its way out the host restarts nothing, however nvim ends.
pub proof fn law_no_recovery_while_shutting_down(s: ControllerView)
    ensures
        step(s, true, EventView::Cmd(CmdView::Host(HostEventView::Disconnected))) == next(
            s,
            ActionView::Wait,
        ),
        step(s, true, EventView::Cmd(CmdView::Host(HostEventView::NvimDying))) == next(
            s,
            ActionView::Wait,
        ),
{
}

/// A restart makes the events of the old nvim count no more, so that its end cannot set off another
/// restart; and once the new nvim is up nothing of the old session is left.
pub proof fn law_restart_supersedes(s: ControllerView)
    ensures
        ({
            let lost = step(s, false, EventView::Cmd(CmdView::Host(HostEventView::Disconnected)));
            let up = step(lost.state, false, EventView::Restarted(true));
            &&& lost.action == (ActionView::Restart { generation: lost.state.generation })
            &&& lost.state.generation != s.generation
            &&& up.state == (ControllerView {
                session: session::idle(),
                target_hwnd: 0,
                generation: lost.state.generation,
                pending: None,
            })
            &&& up.action == ActionView::Hide
        }),
{
}

/// Closing the window is left to nvim, and by itself writes nothing back.
pub proof fn law_closing_writes_nothing(s: ControllerView, down: bool)
    ensures
        step(s, down, EventView::Cmd(CmdView::CloseRequested)).state == s,
        step(s, down, EventView::Cmd(CmdView::CloseRequested)).action == (if s.session.phase
            == Phase::Editing {
            ActionView::Quit
        } else {
            ActionView::Wait
        }),
{
}

/// Keys always go to nvim as they are, and the size of the window is always told, whatever goes on;
/// neither changes anything else.
pub proof fn law_keys_and_sizes_reach_nvim(
    s: ControllerView,
    down: bool,
    keys: Seq<char>,
    cols: u16,
    rows: u16,
)
    ensures
        step(s, down, EventView::Cmd(CmdView::Input(keys))).state == s,
        step(s, down, EventView::Cmd(CmdView::Input(keys))).action == ActionView::Input(keys),
        step(s, down, EventView::Cmd(CmdView::Resize { cols, rows })).state == s,
        step(s, down, EventView::Cmd(CmdView::Resize { cols, rows })).action
            == (ActionView::Resize { cols, rows }),
{
}

/// Keys that are typed and sizes that change in the middle of a session leave it as it is: it goes on
/// as if they had not come.
pub proof fn law_typing_does_not_disturb(
    s: ControllerView,
    down: bool,
    keys: Seq<char>,
    cols: u16,
    rows: u16,
    later: EventView,
)
    ensures
        step(step(s, down, EventView::Cmd(CmdView::Input(keys))).state, down, later) == step(
            s,
            down,
            later,
        ),
        step(
            step(s, down, EventView::Cmd(CmdView::Resize { cols, rows })).state,
            down,
            later,
        ) == step(s, down, later),
{
}

/// The hotkey starts a capture out of idleness, with nothing pending, and changes nothing in the
/// midst of a capture or of a write-back.
pub proof fn law_hotkey(s: ControllerView, down: bool)
    ensures
        ({
            let after = step(s, down, EventView::Cmd(CmdView::Hotkey));
            &&& s.session.phase == Phase::Idle ==> {
                &&& after.action == ActionView::Capture
                &&& after.state.session == (SessionView {
                    phase: Phase::Capturing,
                    original: s.session.original,
                    written: s.session.written,
                })
                &&& after.state.pending is None
                &&& after.state.target_hwnd == s.target_hwnd
                &&& after.state.generation == s.generation
            }
            &&& s.session.phase == Phase::Capturing || s.session.phase == Phase::Applying ==> {
                &&& after.action == ActionView::Wait
                &&& after.state == s
            }
        }),
{
}

/// A field that was found is held until nvim has started; one that was not found ends the capture. An
/// answer that nobody waits for changes nothing.
pub proof fn law_captured(s: ControllerView, down: bool, captured: CapturedView)
    ensures
        ({
            let found = step(s, down, EventView::Captured(CaptureView::Target(captured)));
            let none = step(s, down, EventView::Captured(CaptureView::NoTarget));
            let failed = step(s, down, EventView::Captured(CaptureView::Failed));
            let idle = SessionView {
                phase: Phase::Idle,
                original: s.session.original,
                written: s.session.written,
            };
            if s.session.phase == Phase::Capturing && s.pending is None {
                &&& found.action == ActionView::StartSession
                &&& found.state == (ControllerView { pending: Some(captured), ..s })
                &&& none.action == ActionView::Wait
                &&& none.state == (ControllerView { session: idle, ..s })
                &&& failed == none
            } else {
                &&& found.action == ActionView::Wait && found.state == s
                &&& none.action == ActionView::Wait && none.state == s
                &&& failed == none
            }
        }),
{
}

/// Once nvim has started, what was captured is being edited, its window is the one that the text goes
/// back to, and the window is shown. If nvim could not start, the capture is over. An answer that
/// nobody waits for changes nothing.
pub proof fn law_started(s: ControllerView, down: bool, captured: CapturedView)
    requires
        s.session.phase == Phase::Capturing,
    ensures
        ({
            let held = ControllerView { pending: Some(captured), ..s };
            let yes = step(held, down, EventView::Started(true));
            let no = step(held, down, EventView::Started(false));
            &&& yes.action == ActionView::Show
            &&& yes.state == (ControllerView {
                session: SessionView {
                    phase: Phase::Editing,
                    original: captured.lines,
                    written: None,
                },
                target_hwnd: captured.hwnd,
                generation: s.generation,
                pending: None,
            })
            &&& no.action == ActionView::Wait
            &&& no.state == (ControllerView {
                session: SessionView {
                    phase: Phase::Idle,
                    original: s.session.original,
                    written: s.session.written,
                },
                target_hwnd: s.target_hwnd,
                generation: s.generation,
                pending: None,
            })
        }),
        s.pending is None ==> step(s, down, EventView::Started(true)) == next(s, ActionView::Wait),
        s.pending is None ==> step(s, down, EventView::Started(false)) == next(s, ActionView::Wait),
{
}

/// A window that shows lets the session go on; one that cannot be shown ends it.
pub proof fn law_shown(s: ControllerView, down: bool)
    ensures
        step(s, down, EventView::Shown(true)).state == s,
        step(s, down, EventView::Shown(true)).action == ActionView::Wait,
        step(s, down, EventView::Shown(false)).action == ActionView::Wait,
        step(s, down, EventView::Shown(false)).state == (ControllerView {
            session: SessionView { phase: Phase::Idle, original: seq![], written: None },
            ..s
        }),
{
}

/// What nvim writes is kept while editing, and nothing else comes of it; what it says of its
/// configuration changes nothing.
pub proof fn law_nvim_writes(
    s: ControllerView,
    down: bool,
    lines: Seq<Seq<char>>,
    a: Seq<char>,
    b: Seq<char>,
    loaded: bool,
)
    ensures
        ({
            let wrote = step(
                s,
                down,
                EventView::Cmd(CmdView::Host(HostEventView::SessionWrite(lines))),
            );
            let resolved = HostEventView::ConfigResolved { dir: a, loaded };
            let error = HostEventView::InitError { kind: a, message: b };
            &&& wrote.action == ActionView::Wait
            &&& s.session.phase == Phase::Editing ==> wrote.state == (ControllerView {
                session: SessionView {
                    phase: Phase::Editing,
                    original: s.session.original,
                    written: Some(lines),
                },
                ..s
            })
            &&& s.session.phase != Phase::Editing ==> wrote.state == s
            &&& step(s, down, EventView::Cmd(CmdView::Host(resolved))) == next(s, ActionView::Wait)
            &&& step(s, down, EventView::Cmd(CmdView::Host(error))) == next(s, ActionView::Wait)
        }),
{
}

/// The end of a session asks for what was written last to go to the window that the session came
/// from, and nothing of the session is left. An end that comes while nothing is edited changes
/// nothing.
pub proof fn law_session_end(s: ControllerView, down: bool)
    ensures
        ({
            let after = step(s, down, EventView::Cmd(CmdView::Host(HostEventView::SessionEnd)));
            if s.session.phase == Phase::Editing {
                &&& after.state == (ControllerView {
                    session: SessionView { phase: Phase::Idle, original: seq![], written: None },
                    ..s
                })
                &&& after.action == (ActionView::Finish {
                    hwnd: s.target_hwnd,
                    applied: match s.session.written {
                        None => AppliedView::Discarded,
                        Some(lines) => if lines == s.session.original {
                            AppliedView::Unchanged
                        } else {
                            AppliedView::WriteBack(lines)
                        },
                    },
                })
            } else {
                after == next(s, ActionView::Wait)
            }
        }),
{
}

/// nvim that is lost is started anew as the next generation, with all else left to when it is up; the
/// session is dropped once it is, and stays if it does not come up.
pub proof fn law_recovery(s: ControllerView, down: bool)
    ensures
        ({
            let dying = step(s, false, EventView::Cmd(CmdView::Host(HostEventView::NvimDying)));
            let gone = step(s, false, EventView::Cmd(CmdView::Host(HostEventView::Disconnected)));
            let up = step(s, down, EventView::Restarted(true));
            &&& dying == gone
            &&& gone.state == (ControllerView { generation: gone.state.generation, ..s })
            &&& gone.action == (ActionView::Restart { generation: gone.state.generation })
            &&& s.generation < u64::MAX ==> gone.state.generation == s.generation + 1
            &&& s.generation == u64::MAX ==> gone.state.generation == 0
            &&& up.action == ActionView::Hide
            &&& up.state == (ControllerView {
                session: SessionView { phase: Phase::Idle, original: seq![], written: None },
                target_hwnd: 0,
                generation: s.generation,
                pending: None,
            })
            &&& step(s, down, EventView::Restarted(false)) == next(s, ActionView::Wait)
        }),
{
}

/// The exit shuts nvim down for good, and makes its events count no more.
pub proof fn law_exit(s: ControllerView, down: bool)
    ensures
        ({
            let after = step(s, down, EventView::Cmd(CmdView::Exit));
            &&& after.action == ActionView::TearDown
            &&& after.state == (ControllerView { generation: after.state.generation, ..s })
            &&& after.state.generation != s.generation
            &&& s.generation < u64::MAX ==> after.state.generation == s.generation + 1
        }),
{
}

} // verus!
