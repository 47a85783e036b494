//! The whole state of the screen.

use vstd::prelude::*;

use crate::ui::grid;
use crate::ui::grid::{Grid, GridView};
use crate::ui::highlight::{Highlights, HighlightsView, Rgb};
use crate::ui::mode::{ModeState, ModeView};

verus! {

/// The cell that the cursor is in.
#[derive(Clone, Copy, Debug, PartialEq, Eq, Structural)]
pub struct CursorPos {
    pub row: usize,
    pub col: usize,
}

/// All that a redraw changes and that drawing reads.
#[derive(Clone, Debug, PartialEq, Eq)]
pub struct UiState {
    pub grid: Grid,
    pub hl: Highlights,
    pub cursor: CursorPos,
    pub mode: ModeState,
    pub title: String,
    pub busy: bool,
    /// The `guifont` option; `None` where it is not set.
    pub guifont: Option<String>,
}

/// What a batch of redraw events asks of the drawing side.
#[derive(Clone, Copy, Debug, PartialEq, Eq, Structural)]
pub struct RedrawOutcome {
    /// A `flush` came: the frame is complete and is to be drawn.
    pub flushed: bool,
    /// A `grid_resize` came.
    pub resized: bool,
    /// A `mode_change` came: the input method may have to be switched.
    pub mode_changed: bool,
    /// `option_set guifont` came: the font has to be made anew.
    pub font_changed: bool,
    /// A `set_title` came.
    pub title_changed: bool,
}

#[verifier::ext_equal]
pub struct UiView {
    pub grid: GridView,
    pub hl: HighlightsView,
    pub cursor: CursorPos,
    pub mode: ModeView,
    pub title: Seq<char>,
    pub busy: bool,
    pub guifont: Option<Seq<char>>,
}

/// Nothing has come yet.
pub open spec fn no_outcome() -> RedrawOutcome {
    RedrawOutcome {
        flushed: false,
        resized: false,
        mode_changed: false,
        font_changed: false,
        title_changed: false,
    }
}

/// The characters of a text that may be missing.
pub open spec fn text_of(s: Option<String>) -> Option<Seq<char>> {
    match s {
        Some(s) => Some(s@),
        None => None,
    }
}

impl View for UiState {
    type V = UiView;

    open spec fn view(&self) -> UiView {
        UiView {
            grid: self.grid@,
            hl: self.hl@,
            cursor: self.cursor,
            mode: self.mode@,
            title: self.title@,
            busy: self.busy,
            guifont: text_of(self.guifont),
        }
    }
}

impl UiState {
    pub open spec fn well_formed(self) -> bool {
        self.grid.well_formed()
    }
}

impl Default for CursorPos {
    fn default() -> (pos: CursorPos)
        ensures
            pos == (CursorPos { row: 0, col: 0 }),
    {
        CursorPos { row: 0, col: 0 }
    }
}

impl Default for RedrawOutcome {
    fn default() -> (outcome: RedrawOutcome)
        ensures
            outcome == no_outcome(),
    {
        RedrawOutcome {
            flushed: false,
            resized: false,
            mode_changed: false,
            font_changed: false,
            title_changed: false,
        }
    }
}

impl Default for UiState {
    fn default() -> (state: UiState)
        ensures
            state.well_formed(),
            state@ == (UiView {
                grid: grid::blank_grid(0, 0),
                hl: HighlightsView { fg: Rgb(0), bg: Rgb(0), sp: Rgb(0), attrs: Map::empty() },
                cursor: CursorPos { row: 0, col: 0 },
                mode: ModeView {
                    modes: seq![],
                    current: 0,
                    name: seq![],
                    cursor_style_enabled: false,
                },
                title: seq![],
                busy: false,
                guifont: None,
            }),
    {
        let state = UiState {
            grid: Grid::default(),
            hl: Highlights::default(),
            cursor: CursorPos::default(),
            mode: ModeState::default(),
            title: String::new(),
            busy: false,
            guifont: None,
        };
        assert(state@.title =~= seq![]);
        state
    }
}

} // verus!
