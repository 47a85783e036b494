//! What nvim tells the host.

use vstd::prelude::*;

use crate::strings;

verus! {

/// An event from nvim.
#[derive(Clone, Debug, PartialEq, Eq)]
pub enum HostEvent {
    /// The buffer was written. The lines are kept; nothing goes back to the target yet.
    SessionWrite(Vec<String>),
    /// The session is over. Whether anything goes back depends on what was written alone.
    SessionEnd,
    /// Where nvim looked for the user's configuration, and whether it loaded it.
    ConfigResolved { dir: String, loaded: bool },
    /// The user's configuration failed to load. nvim runs on.
    InitError { kind: String, message: String },
    /// nvim is about to leave. Only a hint: it may not arrive.
    NvimDying,
    /// The connection ended: nvim is gone.
    Disconnected,
}

#[verifier::ext_equal]
pub enum HostEventView {
    SessionWrite(Seq<Seq<char>>),
    SessionEnd,
    ConfigResolved { dir: Seq<char>, loaded: bool },
    InitError { kind: Seq<char>, message: Seq<char> },
    NvimDying,
    Disconnected,
}

impl View for HostEvent {
    type V = HostEventView;

    open spec fn view(&self) -> HostEventView {
        match *self {
            HostEvent::SessionWrite(lines) => HostEventView::SessionWrite(strings::texts(lines@)),
            HostEvent::SessionEnd => HostEventView::SessionEnd,
            HostEvent::ConfigResolved { dir, loaded } => HostEventView::ConfigResolved {
                dir: dir@,
                loaded,
            },
            HostEvent::InitError { kind, message } => HostEventView::InitError {
                kind: kind@,
                message: message@,
            },
            HostEvent::NvimDying => HostEventView::NvimDying,
            HostEvent::Disconnected => HostEventView::Disconnected,
        }
    }
}

} // verus!
