use vstd::prelude::*;

verus! {

/// A registered status item: its kind, the instance it stands for, and the
/// last active-document value it was sent.
///
/// Items are told apart by `item_type` for lookup; `id` names the widget
/// instance, which the host owns and may share.
#[derive(Clone, Copy, Debug, PartialEq, Eq, Structural)]
pub struct StatusItemHandle {
    pub item_type: u64,
    pub id: u64,
    /// Whether the widget currently has anything to show.
    pub should_render: bool,
    /// The active document this item was last told of (`None`: no document).
    pub active_pane_item: Option<u64>,
}

/// One "the active document changed" message, addressed to a widget instance.
#[derive(Clone, Copy, Debug, PartialEq, Eq, Structural)]
pub struct Notification {
    pub item: u64,
    pub active_pane_item: Option<u64>,
}

impl StatusItemHandle {
    /// The handle after it has been told that `doc` is the active document.
    pub open spec fn notified(self, doc: Option<u64>) -> StatusItemHandle {
        StatusItemHandle { active_pane_item: doc, ..self }
    }

    /// The message that tells this item that `doc` is the active document.
    pub open spec fn notification(self, doc: Option<u64>) -> Notification {
        Notification { item: self.id, active_pane_item: doc }
    }

    /// A handle for widget `id` of kind `item_type`, not yet told of any document.
    pub fn new(item_type: u64, id: u64, should_render: bool) -> (r: Self)
        ensures
            r.item_type == item_type,
            r.id == id,
            r.should_render == should_render,
            r.active_pane_item.is_none(),
    {
        StatusItemHandle { item_type, id, should_render, active_pane_item: None }
    }

    pub fn set_active_pane_item(&mut self, doc: Option<u64>)
        ensures
            *final(self) == old(self).notified(doc),
    {
        self.active_pane_item = doc;
    }

    pub fn notification_for(&self, doc: Option<u64>) -> (r: Notification)
        ensures
            r == self.notification(doc),
    {
        Notification { item: self.id, active_pane_item: doc }
    }
}

/// What a widget must offer to stand in the status bar.
pub trait StatusItemView {
    /// The kind tag under which the registry files this widget.
    fn item_type(&self) -> u64;

    /// Whether the widget has anything to show right now.
    fn should_render(&self) -> bool;

    /// Tells the widget which document is active now, if any. Sending the
    /// same value again leaves the widget as it was.
    fn set_active_pane_item(&mut self, active_pane_item: Option<u64>);
}

} // verus!
