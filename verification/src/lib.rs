//! The editing, tab and preview logic of a small markdown editor, with the
//! contracts that Verus checks.

pub mod text;
pub mod preview;
pub mod highlight;
pub mod app;
pub mod edit;
pub mod laws;
