//! Bookkeeping for an editor's status bar: an ordered registry of pluggable
//! status items on the bar's left and right edges, kept in step with the
//! document that the active pane shows.

pub mod search_status_button;
pub mod status_bar;
pub mod status_item;
