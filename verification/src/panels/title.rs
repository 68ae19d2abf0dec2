//! Simple title panel.

use vstd::prelude::*;

verus! {

/// The header line of the display.
pub struct TitlePanel {
    pub title: String,
}

impl TitlePanel {
    /// A panel that shows `title`.
    pub fn new(title: &str) -> (p: Self)
        ensures
            p.title@ == title@,
    {
        Self { title: title.to_owned() }
    }
}

} // verus!
