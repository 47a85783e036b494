//! The session: what is being edited, and what becomes of it.
//!
//! Not the command that ended a session decides, but what was written in it: once something was
//! written, the last that was written goes back to the target; if nothing was, nothing does.

use vstd::prelude::*;

use crate::strings;

verus! {

/// Where a session stands.
#[derive(Debug, Clone, Copy, PartialEq, Eq, Structural)]
pub enum Phase {
    Idle,
    Capturing,
    Editing,
    Applying,
}

/// What to do at the end of a session.
#[derive(Clone, Debug, PartialEq, Eq)]
pub enum Applied {
    /// Write these lines back to the target.
    WriteBack(Vec<String>),
    /// Written, but the same as what was captured: the target is left alone.
    Unchanged,
    /// Never written.
    Discarded,
}

#[derive(Debug)]
pub struct Session {
    phase: Phase,
    /// What was captured. Of meaning while editing only.
    original: Vec<String>,
    /// What was written last in this session.
    written: Option<Vec<String>>,
}

#[verifier::ext_equal]
pub enum AppliedView {
    WriteBack(Seq<Seq<char>>),
    Unchanged,
    Discarded,
}

#[verifier::ext_equal]
pub struct SessionView {
    pub phase: Phase,
    pub original: Seq<Seq<char>>,
    pub written: Option<Seq<Seq<char>>>,
}

impl View for Applied {
    type V = AppliedView;

    open spec fn view(&self) -> AppliedView {
        match *self {
            Applied::WriteBack(lines) => AppliedView::WriteBack(strings::texts(lines@)),
            Applied::Unchanged => AppliedView::Unchanged,
            Applied::Discarded => AppliedView::Discarded,
        }
    }
}

impl View for Session {
    type V = SessionView;

    closed spec fn view(&self) -> SessionView {
        SessionView {
            phase: self.phase,
            original: strings::texts(self.original@),
            written: match self.written {
                Some(lines) => Some(strings::texts(lines@)),
                None => None,
            },
        }
    }
}

/// A session that holds nothing.
pub open spec fn idle() -> SessionView {
    SessionView { phase: Phase::Idle, original: seq![], written: None }
}

impl SessionView {
    /// A capture begins, but only out of idleness.
    pub open spec fn capturing(self) -> SessionView {
        if self.phase == Phase::Idle {
            SessionView { phase: Phase::Capturing, ..self }
        } else {
            self
        }
    }

    /// The capture found nothing to edit.
    pub open spec fn aborted(self) -> SessionView {
        if self.phase == Phase::Capturing {
            SessionView { phase: Phase::Idle, ..self }
        } else {
            self
        }
    }

    /// Editing begins with what was captured, and with nothing written.
    pub open spec fn editing(self, original: Seq<Seq<char>>) -> SessionView {
        if self.phase == Phase::Capturing {
            SessionView { phase: Phase::Editing, original, written: None }
        } else {
            self
        }
    }

    /// The last written lines are kept, while editing.
    pub open spec fn wrote(self, lines: Seq<Seq<char>>) -> SessionView {
        if self.phase == Phase::Editing {
            SessionView { written: Some(lines), ..self }
        } else {
            self
        }
    }

    /// What the end of the session asks for.
    pub open spec fn verdict(self) -> AppliedView {
        if self.phase != Phase::Editing {
            AppliedView::Discarded
        } else {
            match self.written {
                Some(lines) => if lines == self.original {
                    AppliedView::Unchanged
                } else {
                    AppliedView::WriteBack(lines)
                },
                None => AppliedView::Discarded,
            }
        }
    }

    /// After the end of the session nothing of it is left.
    pub open spec fn ended(self) -> SessionView {
        if self.phase == Phase::Editing {
            idle()
        } else {
            self
        }
    }
}

/// Whether two lists hold the same lines.
fn same_lines(a: &Vec<String>, b: &Vec<String>) -> (same: bool)
    ensures
        same == (strings::texts(a@) == strings::texts(b@)),
{
    let ghost left = strings::texts(a@);
    let ghost right = strings::texts(b@);
    if a.len() != b.len() {
        assert(left.len() != right.len());
        return false;
    }
    let mut i: usize = 0;
    while i < a.len()
        invariant
            i <= a@.len() == b@.len(),
            left == strings::texts(a@),
            right == strings::texts(b@),
            forall|j: int| 0 <= j < i ==> left[j] == right[j],
        decreases a@.len() - i,
    {
        if !strings::str_eq(a[i].as_str(), b[i].as_str()) {
            assert(left[i as int] != right[i as int]);
            return false;
        }
        i = i + 1;
    }
    assert(left =~= right);
    true
}

impl Default for Phase {
    fn default() -> (phase: Phase)
        ensures
            phase == Phase::Idle,
    {
        Phase::Idle
    }
}

impl Default for Session {
    fn default() -> (session: Session)
        ensures
            session@ == idle(),
    {
        let session = Session { phase: Phase::Idle, original: Vec::new(), written: None };
        assert(session@.original =~= seq![]);
        session
    }
}

impl Session {
    pub fn phase(&self) -> (phase: Phase)
        ensures
            phase == self@.phase,
    {
        self.phase
    }

    /// From idleness to capturing. Anywhere else nothing changes, and the answer is `false`.
    pub fn begin_capture(&mut self) -> (begun: bool)
        ensures
            begun == (old(self)@.phase == Phase::Idle),
            final(self)@ == old(self)@.capturing(),
    {
        if self.phase != Phase::Idle {
            return false;
        }
        self.phase = Phase::Capturing;
        true
    }

    /// There was nothing to capture.
    pub fn abort_capture(&mut self)
        ensures
            final(self)@ == old(self)@.aborted(),
    {
        if self.phase == Phase::Capturing {
            self.phase = Phase::Idle;
        }
    }

    /// From capturing to editing. What an earlier session wrote is forgotten.
    pub fn begin_edit(&mut self, original: Vec<String>)
        ensures
            final(self)@ == old(self)@.editing(strings::texts(original@)),
    {
        if self.phase == Phase::Capturing {
            self.original = original;
            self.written = None;
            self.phase = Phase::Editing;
        }
    }

    /// Keeps the lines that were written last. They go back to the target at the end only.
    pub fn on_write(&mut self, lines: Vec<String>)
        ensures
            final(self)@ == old(self)@.wrote(strings::texts(lines@)),
    {
        if self.phase == Phase::Editing {
            self.written = Some(lines);
        }
    }

    /// The session is over. Outside of editing nothing changes and nothing is to be done.
    pub fn on_end(&mut self) -> (applied: Applied)
        ensures
            applied@ == old(self)@.verdict(),
            final(self)@ == old(self)@.ended(),
    {
        if self.phase != Phase::Editing {
            return Applied::Discarded;
        }
        self.phase = Phase::Applying;
        let applied = match self.written.take() {
            Some(lines) => if same_lines(&lines, &self.original) {
                Applied::Unchanged
            } else {
                Applied::WriteBack(lines)
            },
            None => Applied::Discarded,
        };
        self.original.clear();
        self.phase = Phase::Idle;
        assert(self@.original =~= seq![]);
        applied
    }

    /// Back to idleness from anywhere, with nothing left of the session.
    pub fn reset(&mut self)
        ensures
            final(self)@ == idle(),
    {
        self.phase = Phase::Idle;
        self.original.clear();
        self.written = None;
        assert(self@.original =~= seq![]);
    }
}

// ---- laws ----
/// The phases follow one another: no step leads anywhere but to the next phase, back to idleness,
/// or nowhere.
pub proof fn law_phases(s: SessionView, lines: Seq<Seq<char>>)
    ensures
        s.capturing().phase == s.phase || (s.phase == Phase::Idle && s.capturing().phase
            == Phase::Capturing),
        s.aborted().phase == s.phase || (s.phase == Phase::Capturing && s.aborted().phase
            == Phase::Idle),
        s.editing(lines).phase == s.phase || (s.phase == Phase::Capturing && s.editing(lines).phase
            == Phase::Editing),
        s.wrote(lines).phase == s.phase,
        s.ended().phase == s.phase || (s.phase == Phase::Editing && s.ended().phase == Phase::Idle),
{
}

/// What was never written is discarded.
pub proof fn law_never_written_is_discarded(s: SessionView, original: Seq<Seq<char>>)
    requires
        s.phase == Phase::Capturing,
    ensures
        s.editing(original).verdict() == AppliedView::Discarded,
        s.editing(original).ended() == idle(),
{
}

/// The last written lines win: what was written before them leaves no trace.
pub proof fn law_last_write_wins(s: SessionView, first: Seq<Seq<char>>, last: Seq<Seq<char>>)
    ensures
        s.wrote(first).wrote(last) == s.wrote(last),
        s.phase == Phase::Editing ==> s.wrote(last).verdict() == (if last == s.original {
            AppliedView::Unchanged
        } else {
            AppliedView::WriteBack(last)
        }),
{
}

/// Lines that end up as they were captured are not written back, whatever was written in between.
pub proof fn law_back_to_the_original_is_unchanged(s: SessionView, between: Seq<Seq<char>>)
    requires
        s.phase == Phase::Editing,
    ensures
        s.wrote(between).wrote(s.original).verdict() == AppliedView::Unchanged,
{
}

/// A session knows nothing of the sessions before it: from idleness, what a session ends with
/// depends only on what it captures and what is written in it.
pub proof fn law_no_inheritance(
    a: SessionView,
    b: SessionView,
    original: Seq<Seq<char>>,
    lines: Seq<Seq<char>>,
)
    requires
        a.phase == Phase::Idle,
        b.phase == Phase::Idle,
    ensures
        a.capturing().editing(original) == b.capturing().editing(original),
        a.capturing().editing(original).verdict() == AppliedView::Discarded,
        a.capturing().editing(original).wrote(lines).verdict() == b.capturing().editing(
            original,
        ).wrote(lines).verdict(),
{
}

/// Events that come while nothing is edited change nothing.
pub proof fn law_stray_events_are_ignored(s: SessionView, lines: Seq<Seq<char>>)
    requires
        s.phase != Phase::Editing,
    ensures
        s.wrote(lines) == s,
        s.ended() == s,
        s.verdict() == AppliedView::Discarded,
{
}

/// What each step makes of a session, whatever it held: a capture starts from idleness only, ends in
/// idleness or in editing, and only editing keeps what is written.
pub proof fn law_steps(s: SessionView, lines: Seq<Seq<char>>)
    ensures
        s.phase == Phase::Idle ==> s.capturing() == (SessionView {
            phase: Phase::Capturing,
            original: s.original,
            written: s.written,
        }),
        s.phase != Phase::Idle ==> s.capturing() == s,
        s.phase == Phase::Capturing ==> s.aborted() == (SessionView {
            phase: Phase::Idle,
            original: s.original,
            written: s.written,
        }),
        s.phase != Phase::Capturing ==> s.aborted() == s,
        s.phase == Phase::Capturing ==> s.editing(lines) == (SessionView {
            phase: Phase::Editing,
            original: lines,
            written: None,
        }),
        s.phase != Phase::Capturing ==> s.editing(lines) == s,
        s.phase == Phase::Editing ==> s.wrote(lines) == (SessionView {
            phase: Phase::Editing,
            original: s.original,
            written: Some(lines),
        }),
        s.phase != Phase::Editing ==> s.wrote(lines) == s,
        s.phase == Phase::Editing ==> s.ended() == (SessionView {
            phase: Phase::Idle,
            original: seq![],
            written: None,
        }),
        s.phase != Phase::Editing ==> s.ended() == s,
        idle() == (SessionView { phase: Phase::Idle, original: seq![], written: None }),
{
}

/// What goes back is what was written last, if it is not what was captured.
pub proof fn law_verdict(original: Seq<Seq<char>>, lines: Seq<Seq<char>>)
    ensures
        (SessionView { phase: Phase::Editing, original, written: None }).verdict()
            == AppliedView::Discarded,
        (SessionView { phase: Phase::Editing, original: lines, written: Some(lines) }).verdict()
            == AppliedView::Unchanged,
        lines != original ==> (SessionView {
            phase: Phase::Editing,
            original,
            written: Some(lines),
        }).verdict() == AppliedView::WriteBack(lines),
{
}

} // verus!
