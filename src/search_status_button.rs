use vstd::prelude::*;

use crate::status_item::{StatusItemHandle, StatusItemView};

verus! {

/// The kind tag under which the search button is registered.
pub const SEARCH_BUTTON_ITEM_TYPE: u64 = 1;

/// A status item that opens project search.
#[derive(Clone, Copy, Debug, PartialEq, Eq, Structural)]
pub struct SearchButton;

impl SearchButton {
    pub fn new() -> (r: Self)
        ensures
            r == SearchButton,
    {
        SearchButton
    }

    /// Whether the button draws its icon: only while the editor's search
    /// button setting is on; otherwise it renders nothing.
    pub fn shows_icon(&self, search_button_setting: bool) -> (r: bool)
        ensures
            r == search_button_setting,
    {
        search_button_setting
    }

    /// The handle under which widget instance `id` of this kind is registered.
    pub fn status_item(&self, id: u64) -> (r: StatusItemHandle)
        ensures
            r.item_type == SEARCH_BUTTON_ITEM_TYPE,
            r.id == id,
            r.should_render,
            r.active_pane_item.is_none(),
    {
        StatusItemHandle::new(SEARCH_BUTTON_ITEM_TYPE, id, true)
    }
}

impl StatusItemView for SearchButton {
    fn item_type(&self) -> (r: u64) {
        SEARCH_BUTTON_ITEM_TYPE
    }

    fn should_render(&self) -> (r: bool) {
        true
    }

    /// The button looks the same whatever document is active.
    fn set_active_pane_item(&mut self, active_pane_item: Option<u64>) {
    }
}

} // verus!
