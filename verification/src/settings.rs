//! The keys of the preferences of the application.
use vstd::prelude::*;

verus! {

/// The preference whether the board is drawn with grid lines; its value is a `bool`.
#[derive(Debug, Clone, Copy, PartialEq, Eq, Structural)]
pub struct ShowBoardGridLines;

impl ShowBoardGridLines {
    /// The key of the setting in the settings schema.
    pub fn key(&self) -> (r: &'static str)
        ensures
            r@ == "show-board-grid-lines"@,
    {
        "show-board-grid-lines"
    }
}

} // verus!
