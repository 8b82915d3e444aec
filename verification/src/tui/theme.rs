//! Which palette the interface uses.

use vstd::prelude::*;

verus! {

/// Truecolor gradients when the terminal supports them, plain ANSI otherwise.
#[derive(Clone, Copy, Debug, PartialEq, Eq, Structural)]
pub struct Theme {
    pub truecolor: bool,
}

impl Theme {
    /// The theme for a terminal whose `COLORTERM` is `colorterm` (empty when unset).
    pub fn from_colorterm(colorterm: &str) -> (r: Theme)
        ensures
            r.truecolor == (colorterm@ == "truecolor"@ || colorterm@ == "24bit"@),
    {
        Theme { truecolor: crate::text::str_eq(colorterm, "truecolor") || crate::text::str_eq(colorterm, "24bit") }
    }
}

} // verus!
