//! What the panels of the display hold and show.

pub mod paragraph;
pub mod title;

pub use paragraph::ParagraphPanel;
pub use title::TitlePanel;
