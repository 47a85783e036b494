//! The state of nvim's screen as a UI client sees it.

pub mod cell;
pub mod fault;
pub mod grid;
pub mod highlight;
pub mod input;
pub mod laws;
pub mod meaning;
pub mod mode;
pub mod protocol;
pub mod read;
pub mod redraw;
pub mod state;

pub use cell::{Cell, CellText, MAX_CELL_BYTES};
pub use fault::RedrawError;
pub use grid::Grid;
pub use highlight::{Highlights, HlAttr, Rgb, Style, Underline};
pub use mode::{CursorShape, ModeInfo, ModeState};
pub use state::{CursorPos, RedrawOutcome, UiState};
