//! Simple paragraph panel used for static help and text blocks.

use vstd::prelude::*;

verus! {

/// Small reusable paragraph panel.
pub struct ParagraphPanel {
    pub text: String,
    pub title: String,
}

impl ParagraphPanel {
    /// A panel that shows `text` under the heading `title`.
    pub fn new(text: &str, title: &str) -> (p: Self)
        ensures
            p.text@ == text@,
            p.title@ == title@,
    {
        Self { text: text.to_owned(), title: title.to_owned() }
    }
}

} // verus!
