use vstd::prelude::*;

use crate::status_item::{Notification, StatusItemHandle};

verus! {

/// An editor pane as the status bar sees it: an identity and the document it
/// currently shows, if any.
#[derive(Clone, Copy, Debug, PartialEq, Eq, Structural)]
pub struct Pane {
    pub id: u64,
    pub active_item: Option<u64>,
}

/// `r` is the first position in `s` of an item of kind `t`, or `None` when
/// `s` holds no item of that kind.
pub open spec fn is_first_position(s: Seq<StatusItemHandle>, t: u64, r: Option<int>) -> bool {
    match r {
        Some(i) => 0 <= i < s.len() && s[i].item_type == t && forall|j: int|
            0 <= j < i ==> #[trigger] s[j].item_type != t,
        None => forall|j: int| 0 <= j < s.len() ==> #[trigger] s[j].item_type != t,
    }
}

/// A position as a mathematical integer.
pub open spec fn as_int(r: Option<usize>) -> Option<int> {
    match r {
        Some(i) => Some(i as int),
        None => None,
    }
}

/// Every item in `s` told that `doc` is active.
pub open spec fn all_notified(s: Seq<StatusItemHandle>, doc: Option<u64>) -> Seq<StatusItemHandle> {
    s.map_values(|h: StatusItemHandle| h.notified(doc))
}

/// The messages that tell every item of `s`, in order, that `doc` is active.
pub open spec fn broadcast(s: Seq<StatusItemHandle>, doc: Option<u64>) -> Seq<Notification> {
    s.map_values(|h: StatusItemHandle| h.notification(doc))
}

/// The abstract state of a status bar.
pub struct StatusBarView {
    pub left_items: Seq<StatusItemHandle>,
    pub right_items: Seq<StatusItemHandle>,
    pub active_pane: Pane,
    /// Messages decided but not yet handed to the widgets, oldest first.
    pub notifications: Seq<Notification>,
}

impl StatusBarView {
    /// Left items then right items: the shared position space.
    pub open spec fn items(self) -> Seq<StatusItemHandle> {
        self.left_items + self.right_items
    }

    /// Left items in insertion order, then right items last-inserted first.
    pub open spec fn render_order(self) -> Seq<StatusItemHandle> {
        self.left_items + self.right_items.reverse()
    }

    /// No item lags behind the active pane's document.
    pub open spec fn is_current(self) -> bool {
        forall|i: int|
            0 <= i < self.items().len() ==> #[trigger] self.items()[i].active_pane_item
                == self.active_pane.active_item
    }

    /// The state after `pane` becomes (or stays) the observed pane and every
    /// item is told of its document.
    pub open spec fn renotified(self, pane: Pane) -> StatusBarView {
        StatusBarView {
            left_items: all_notified(self.left_items, pane.active_item),
            right_items: all_notified(self.right_items, pane.active_item),
            active_pane: pane,
            notifications: self.notifications + broadcast(self.items(), pane.active_item),
        }
    }

    /// The state after `pane` reports a change of its active document: heard
    /// from the observed pane only.
    pub open spec fn after_pane_report(self, pane: Pane) -> StatusBarView {
        if pane.id == self.active_pane.id {
            self.renotified(pane)
        } else {
            self
        }
    }
}

/// The registry of status items, with the pane whose document they follow.
pub struct StatusBar {
    left_items: Vec<StatusItemHandle>,
    right_items: Vec<StatusItemHandle>,
    active_pane: Pane,
    notifications: Vec<Notification>,
}

impl View for StatusBar {
    type V = StatusBarView;

    closed spec fn view(&self) -> StatusBarView {
        StatusBarView {
            left_items: self.left_items@,
            right_items: self.right_items@,
            active_pane: self.active_pane,
            notifications: self.notifications@,
        }
    }
}

impl StatusBar {
    /// Every item is current, and every position fits in a `usize`.
    pub open spec fn wf(&self) -> bool {
        &&& self@.is_current()
        &&& self@.items().len() <= usize::MAX
    }

    /// A status bar with no items that follows `active_pane`.
    pub fn new(active_pane: &Pane) -> (r: Self)
        ensures
            r.wf(),
            r@.left_items.len() == 0,
            r@.right_items.len() == 0,
            r@.active_pane == *active_pane,
            r@.notifications.len() == 0,
    {
        let mut this = StatusBar {
            left_items: Vec::new(),
            right_items: Vec::new(),
            active_pane: *active_pane,
            notifications: Vec::new(),
        };
        this.update_active_pane_item();
        proof {
            assert(this@.left_items =~= Seq::<StatusItemHandle>::empty());
            assert(this@.right_items =~= Seq::<StatusItemHandle>::empty());
            assert(this@.notifications =~= Seq::<Notification>::empty());
        }
        this
    }

    /// Tells every item, left then right, of the active pane's document.
    fn update_active_pane_item(&mut self)
        ensures
            final(self)@ == old(self)@.renotified(old(self)@.active_pane),
    {
        let doc = self.active_pane.active_item;
        let ghost old_left = self.left_items@;
        let ghost old_right = self.right_items@;
        let ghost old_notes = self.notifications@;
        let mut i: usize = 0;
        while i < self.left_items.len()
            invariant
                self.active_pane == old(self).active_pane,
                self.right_items@ == old_right,
                old_left == old(self).left_items@,
                old_right == old(self).right_items@,
                old_notes == old(self).notifications@,
                doc == self.active_pane.active_item,
                self.left_items@.len() == old_left.len(),
                i <= old_left.len(),
                forall|j: int| 0 <= j < i ==> self.left_items@[j] == old_left[j].notified(doc),
                forall|j: int| i <= j < old_left.len() ==> self.left_items@[j] == old_left[j],
                self.notifications@ =~= old_notes + broadcast(old_left.subrange(0, i as int), doc),
            decreases old_left.len() - i,
        {
            let mut h = self.left_items[i];
            let note = h.notification_for(doc);
            h.set_active_pane_item(doc);
            self.left_items.set(i, h);
            self.notifications.push(note);
            proof {
                assert(broadcast(old_left.subrange(0, i + 1), doc) =~= broadcast(
                    old_left.subrange(0, i as int),
                    doc,
                ).push(note));
            }
            i = i + 1;
        }
        let ghost mid_notes = self.notifications@;
        let mut k: usize = 0;
        while k < self.right_items.len()
            invariant
                self.active_pane == old(self).active_pane,
                self.left_items@ == all_notified(old_left, doc),
                old_right == old(self).right_items@,
                doc == self.active_pane.active_item,
                mid_notes == old_notes + broadcast(old_left, doc),
                self.right_items@.len() == old_right.len(),
                k <= old_right.len(),
                forall|j: int| 0 <= j < k ==> self.right_items@[j] == old_right[j].notified(doc),
                forall|j: int| k <= j < old_right.len() ==> self.right_items@[j] == old_right[j],
                self.notifications@ =~= mid_notes + broadcast(old_right.subrange(0, k as int), doc),
            decreases old_right.len() - k,
        {
            let mut h = self.right_items[k];
            let note = h.notification_for(doc);
            h.set_active_pane_item(doc);
            self.right_items.set(k, h);
            self.notifications.push(note);
            proof {
                assert(broadcast(old_right.subrange(0, k + 1), doc) =~= broadcast(
                    old_right.subrange(0, k as int),
                    doc,
                ).push(note));
            }
            k = k + 1;
        }
        proof {
            assert(self.left_items@ =~= all_notified(old_left, doc));
            assert(self.right_items@ =~= all_notified(old_right, doc));
            assert(old_left.subrange(0, old_left.len() as int) =~= old_left);
            assert(old_right.subrange(0, old_right.len() as int) =~= old_right);
            assert(broadcast(old_left + old_right, doc) =~= broadcast(old_left, doc) + broadcast(
                old_right,
                doc,
            ));
            assert(self.notifications@ =~= old_notes + broadcast(old_left + old_right, doc));
        }
    }

    /// The first position, in the shared position space, of an item of kind
    /// `item_type`.
    pub fn position_of_item(&self, item_type: u64) -> (r: Option<usize>)
        requires
            self.wf(),
        ensures
            is_first_position(self@.items(), item_type, as_int(r)),
    {
        let ghost items = self@.items();
        let mut index: usize = 0;
        while index < self.left_items.len()
            invariant
                items == self@.items(),
                index <= self.left_items@.len(),
                forall|j: int| 0 <= j < index ==> #[trigger] items[j].item_type != item_type,
            decreases self.left_items@.len() - index,
        {
            if self.left_items[index].item_type == item_type {
                return Some(index);
            }
            index = index + 1;
        }
        let mut index: usize = 0;
        while index < self.right_items.len()
            invariant
                items == self@.items(),
                self@.items().len() <= usize::MAX,
                index <= self.right_items@.len(),
                forall|j: int|
                    0 <= j < self.left_items@.len() + index ==> #[trigger] items[j].item_type
                        != item_type,
            decreases self.right_items@.len() - index,
        {
            if self.right_items[index].item_type == item_type {
                return Some(index + self.left_items.len());
            }
            index = index + 1;
        }
        None
    }

    /// The first registered item of kind `item_type`.
    pub fn item_of_type(&self, item_type: u64) -> (r: Option<StatusItemHandle>)
        requires
            self.wf(),
        ensures
            r == (match first_position_of(self@.items(), item_type) {
                Some(i) => Some(self@.items()[i]),
                None => None,
            }),
    {
        let position = self.position_of_item(item_type);
        proof {
            lemma_first_position_unique(self@.items(), item_type, as_int(position));
        }
        match position {
            Some(p) => Some(self.item_at(p)),
            None => None,
        }
    }

    /// The item at `position` in the shared position space.
    pub fn item_at(&self, position: usize) -> (r: StatusItemHandle)
        requires
            position < self@.items().len(),
        ensures
            r == self@.items()[position as int],
    {
        if position < self.left_items.len() {
            self.left_items[position]
        } else {
            self.right_items[position - self.left_items.len()]
        }
    }

    /// Appends `item` to the left edge, after telling it of the active document.
    pub fn add_left_item(&mut self, item: StatusItemHandle)
        requires
            old(self).wf(),
            old(self)@.items().len() < usize::MAX,
        ensures
            final(self).wf(),
            final(self)@ == (StatusBarView {
                left_items: old(self)@.left_items.push(
                    item.notified(old(self)@.active_pane.active_item),
                ),
                notifications: old(self)@.notifications.push(
                    item.notification(old(self)@.active_pane.active_item),
                ),
                ..old(self)@
            }),
    {
        let doc = self.active_pane.active_item;
        let mut item = item;
        self.notifications.push(item.notification_for(doc));
        item.set_active_pane_item(doc);
        self.left_items.push(item);
        proof {
            assert(self@.items() =~= old(self)@.items().insert(old(self)@.left_items.len() as int, item));
            lemma_current_after_insert(old(self)@, self@, old(self)@.left_items.len() as int, item);
        }
    }

    /// Appends `item` to the right edge, after telling it of the active document.
    pub fn add_right_item(&mut self, item: StatusItemHandle)
        requires
            old(self).wf(),
            old(self)@.items().len() < usize::MAX,
        ensures
            final(self).wf(),
            final(self)@ == (StatusBarView {
                right_items: old(self)@.right_items.push(
                    item.notified(old(self)@.active_pane.active_item),
                ),
                notifications: old(self)@.notifications.push(
                    item.notification(old(self)@.active_pane.active_item),
                ),
                ..old(self)@
            }),
    {
        let doc = self.active_pane.active_item;
        let mut item = item;
        self.notifications.push(item.notification_for(doc));
        item.set_active_pane_item(doc);
        self.right_items.push(item);
        proof {
            assert(self@.items() =~= old(self)@.items().insert(old(self)@.items().len() as int, item));
            lemma_current_after_insert(old(self)@, self@, old(self)@.items().len() as int, item);
        }
    }

    /// Inserts `item` just after `position`, on the edge that holds `position`,
    /// after telling it of the active document.
    pub fn insert_item_after(&mut self, position: usize, item: StatusItemHandle)
        requires
            old(self).wf(),
            position < old(self)@.items().len(),
            old(self)@.items().len() < usize::MAX,
        ensures
            final(self).wf(),
            final(self)@.items() == old(self)@.items().insert(
                position + 1,
                item.notified(old(self)@.active_pane.active_item),
            ),
            position < old(self)@.left_items.len() ==> final(self)@.left_items == old(
                self,
            )@.left_items.insert(position + 1, item.notified(old(self)@.active_pane.active_item))
                && final(self)@.right_items == old(self)@.right_items,
            position >= old(self)@.left_items.len() ==> final(self)@.right_items == old(
                self,
            )@.right_items.insert(
                position + 1 - old(self)@.left_items.len(),
                item.notified(old(self)@.active_pane.active_item),
            ) && final(self)@.left_items == old(self)@.left_items,
            final(self)@.active_pane == old(self)@.active_pane,
            final(self)@.notifications == old(self)@.notifications.push(
                item.notification(old(self)@.active_pane.active_item),
            ),
    {
        let doc = self.active_pane.active_item;
        let mut item = item;
        self.notifications.push(item.notification_for(doc));
        item.set_active_pane_item(doc);
        if position < self.left_items.len() {
            self.left_items.insert(position + 1, item);
        } else {
            let local = position - self.left_items.len();
            self.right_items.insert(local + 1, item);
        }
        proof {
            assert(self@.items() =~= old(self)@.items().insert(position + 1, item));
            lemma_current_after_insert(old(self)@, self@, position + 1, item);
        }
    }

    /// Removes the item at `position` in the shared position space.
    pub fn remove_item_at(&mut self, position: usize)
        requires
            old(self).wf(),
            position < old(self)@.items().len(),
        ensures
            final(self).wf(),
            final(self)@.items() == old(self)@.items().remove(position as int),
            position < old(self)@.left_items.len() ==> final(self)@.left_items == old(
                self,
            )@.left_items.remove(position as int) && final(self)@.right_items == old(
                self,
            )@.right_items,
            position >= old(self)@.left_items.len() ==> final(self)@.right_items == old(
                self,
            )@.right_items.remove(position - old(self)@.left_items.len())
                && final(self)@.left_items == old(self)@.left_items,
            final(self)@.active_pane == old(self)@.active_pane,
            final(self)@.notifications == old(self)@.notifications,
    {
        if position < self.left_items.len() {
            self.left_items.remove(position);
        } else {
            let local = position - self.left_items.len();
            self.right_items.remove(local);
        }
        proof {
            assert(self@.items() =~= old(self)@.items().remove(position as int));
            assert forall|i: int| 0 <= i < self@.items().len() implies #[trigger] self@.items()[i].active_pane_item
                == self@.active_pane.active_item by {
                if i < position {
                    assert(self@.items()[i] == old(self)@.items()[i]);
                } else {
                    assert(self@.items()[i] == old(self)@.items()[i + 1]);
                }
            }
        }
    }

    /// Makes `active_pane` the observed pane, dropping the old one, and tells
    /// every item of its document.
    pub fn set_active_pane(&mut self, active_pane: &Pane)
        requires
            old(self).wf(),
        ensures
            final(self).wf(),
            final(self)@ == old(self)@.renotified(*active_pane),
    {
        self.active_pane = *active_pane;
        self.update_active_pane_item();
        proof {
            lemma_renotified_is_current(old(self)@, *active_pane);
        }
    }

    /// Reacts to `pane` reporting that its active document changed. Only the
    /// observed pane is heard; a report from any other pane changes nothing.
    pub fn active_pane_item_changed(&mut self, pane: &Pane)
        requires
            old(self).wf(),
        ensures
            final(self).wf(),
            final(self)@ == old(self)@.after_pane_report(*pane),
    {
        if pane.id == self.active_pane.id {
            self.active_pane = *pane;
            self.update_active_pane_item();
            proof {
                lemma_renotified_is_current(old(self)@, *pane);
            }
        }
    }

    /// The items in the order they are drawn: left edge in insertion order,
    /// then right edge with the last inserted first. Every item is listed;
    /// one whose `should_render` is off draws nothing of its own accord.
    pub fn render_order(&self) -> (r: Vec<StatusItemHandle>)
        ensures
            r@ == self@.render_order(),
    {
        let mut r: Vec<StatusItemHandle> = Vec::new();
        let mut i: usize = 0;
        while i < self.left_items.len()
            invariant
                i <= self.left_items@.len(),
                r@ =~= self.left_items@.subrange(0, i as int),
            decreases self.left_items@.len() - i,
        {
            r.push(self.left_items[i]);
            i = i + 1;
        }
        let mut k: usize = self.right_items.len();
        while k > 0
            invariant
                k <= self.right_items@.len(),
                r@ =~= self.left_items@ + self.right_items@.reverse().subrange(
                    0,
                    self.right_items@.len() - k,
                ),
            decreases k,
        {
            k = k - 1;
            r.push(self.right_items[k]);
        }
        proof {
            assert(self.right_items@.reverse().subrange(0, self.right_items@.len() as int)
                =~= self.right_items@.reverse());
        }
        r
    }

    /// Hands out the messages decided so far, oldest first, and forgets them.
    pub fn take_notifications(&mut self) -> (r: Vec<Notification>)
        requires
            old(self).wf(),
        ensures
            final(self).wf(),
            r@ == old(self)@.notifications,
            final(self)@ == (StatusBarView { notifications: Seq::empty(), ..old(self)@ }),
    {
        let mut r: Vec<Notification> = Vec::new();
        std::mem::swap(&mut r, &mut self.notifications);
        proof {
            assert(self@.notifications =~= Seq::<Notification>::empty());
        }
        r
    }

    /// All items in the shared position space: left edge, then right edge.
    pub fn items(&self) -> (r: Vec<StatusItemHandle>)
        ensures
            r@ == self@.items(),
    {
        let mut r: Vec<StatusItemHandle> = Vec::new();
        let mut i: usize = 0;
        while i < self.left_items.len()
            invariant
                i <= self.left_items@.len(),
                r@ =~= self.left_items@.subrange(0, i as int),
            decreases self.left_items@.len() - i,
        {
            r.push(self.left_items[i]);
            i = i + 1;
        }
        let mut k: usize = 0;
        while k < self.right_items.len()
            invariant
                k <= self.right_items@.len(),
                r@ =~= self.left_items@ + self.right_items@.subrange(0, k as int),
            decreases self.right_items@.len() - k,
        {
            r.push(self.right_items[k]);
            k = k + 1;
        }
        proof {
            assert(self.left_items@.subrange(0, self.left_items@.len() as int)
                =~= self.left_items@);
            assert(self.right_items@.subrange(0, self.right_items@.len() as int)
                =~= self.right_items@);
        }
        r
    }

    /// How many items stand on the left edge.
    pub fn left_len(&self) -> (r: usize)
        ensures
            r == self@.left_items.len(),
    {
        self.left_items.len()
    }

    /// The pane whose document the items follow.
    pub fn active_pane(&self) -> (r: Pane)
        ensures
            r == self@.active_pane,
    {
        self.active_pane
    }
}


/// The first position of kind `t` in `s`, if any.
pub open spec fn first_position_of(s: Seq<StatusItemHandle>, t: u64) -> Option<int> {
    if exists|i: int| 0 <= i < s.len() && s[i].item_type == t {
        Some(
            choose|i: int|
                0 <= i < s.len() && s[i].item_type == t && forall|j: int|
                    0 <= j < i ==> #[trigger] s[j].item_type != t,
        )
    } else {
        None
    }
}

/// The first position is unique, and `first_position_of` names it.
pub proof fn lemma_first_position_unique(s: Seq<StatusItemHandle>, t: u64, r: Option<int>)
    requires
        is_first_position(s, t, r),
    ensures
        first_position_of(s, t) == r,
{
    match r {
        Some(i) => {
            assert(0 <= i < s.len() && s[i].item_type == t);
            let k = first_position_of(s, t)->Some_0;
            assert(0 <= k < s.len() && s[k].item_type == t && forall|j: int|
                0 <= j < k ==> #[trigger] s[j].item_type != t);
            if k < i {
                assert(s[k].item_type != t);
            }
            if i < k {
                assert(s[i].item_type != t);
            }
        },
        None => {},
    }
}

/// Inserting an item that was told of the active document keeps a current
/// state current.
proof fn lemma_current_after_insert(
    before: StatusBarView,
    after: StatusBarView,
    p: int,
    item: StatusItemHandle,
)
    requires
        before.is_current(),
        after.active_pane == before.active_pane,
        item.active_pane_item == before.active_pane.active_item,
        0 <= p <= before.items().len(),
        after.items() == before.items().insert(p, item),
    ensures
        after.is_current(),
{
    assert forall|i: int| 0 <= i < after.items().len() implies #[trigger] after.items()[i].active_pane_item
        == after.active_pane.active_item by {
        if i < p {
            assert(after.items()[i] == before.items()[i]);
        } else if i > p {
            assert(after.items()[i] == before.items()[i - 1]);
        }
    }
}

proof fn lemma_renotified_is_current(before: StatusBarView, pane: Pane)
    ensures
        before.renotified(pane).is_current(),
{
    let after = before.renotified(pane);
    assert forall|i: int| 0 <= i < after.items().len() implies #[trigger] after.items()[i].active_pane_item
        == pane.active_item by {
        if i < after.left_items.len() {
            assert(after.items()[i] == after.left_items[i]);
        } else {
            assert(after.items()[i] == after.right_items[i - after.left_items.len()]);
        }
    }
}

/// Adding an item never moves the first item of a kind that stood before the
/// insertion point; the new item is the first of its kind exactly when no
/// item of that kind stood before it; everything of other kinds that stood
/// after it moves one place on.
pub proof fn lemma_first_position_after_insert(
    s: Seq<StatusItemHandle>,
    p: int,
    item: StatusItemHandle,
    t: u64,
    before: Option<int>,
)
    requires
        0 <= p <= s.len(),
        is_first_position(s, t, before),
    ensures
        is_first_position(
            s.insert(p, item),
            t,
            match before {
                Some(i) => if i < p {
                    Some(i)
                } else if item.item_type == t {
                    Some(p)
                } else {
                    Some(i + 1)
                },
                None => if item.item_type == t {
                    Some(p)
                } else {
                    None
                },
            },
        ),
{
    let r = s.insert(p, item);
    assert forall|j: int| 0 <= j < r.len() && j != p implies #[trigger] r[j] == (if j < p {
        s[j]
    } else {
        s[j - 1]
    }) by {}
    match before {
        Some(i) => {
            if i < p {
                assert forall|j: int| 0 <= j < i implies #[trigger] r[j].item_type != t by {
                    assert(r[j] == s[j]);
                }
                assert(r[i] == s[i]);
            } else if item.item_type == t {
                assert forall|j: int| 0 <= j < p implies #[trigger] r[j].item_type != t by {
                    assert(r[j] == s[j]);
                }
            } else {
                assert forall|j: int| 0 <= j < i + 1 implies #[trigger] r[j].item_type != t by {
                    if j < p {
                        assert(r[j] == s[j]);
                    } else if j > p {
                        assert(r[j] == s[j - 1]);
                    }
                }
                assert(r[i + 1] == s[i]);
            }
        },
        None => {
            if item.item_type == t {
                assert forall|j: int| 0 <= j < p implies #[trigger] r[j].item_type != t by {
                    assert(r[j] == s[j]);
                }
            } else {
                assert forall|j: int| 0 <= j < r.len() implies #[trigger] r[j].item_type != t by {
                    if j < p {
                        assert(r[j] == s[j]);
                    } else if j > p {
                        assert(r[j] == s[j - 1]);
                    }
                }
            }
        },
    }
}

/// Inserting an item just after the first item of kind `t` makes it the first
/// of its own kind, one place further on, provided no item of its kind stood
/// up to and including that position.
pub proof fn lemma_insert_after_first_position(
    s: Seq<StatusItemHandle>,
    t: u64,
    position: int,
    item: StatusItemHandle,
)
    requires
        is_first_position(s, t, Some(position)),
        forall|j: int| 0 <= j <= position ==> #[trigger] s[j].item_type != item.item_type,
    ensures
        is_first_position(s.insert(position + 1, item), item.item_type, Some(position + 1)),
{
    let r = s.insert(position + 1, item);
    assert forall|j: int| 0 <= j < position + 1 implies #[trigger] r[j].item_type
        != item.item_type by {
        assert(r[j] == s[j]);
    }
}

/// Removing the first item of kind `t` removes that one item and keeps the
/// others in order; afterwards no item of kind `t` is left exactly when no
/// other item of that kind was registered.
pub proof fn lemma_remove_first_position(s: Seq<StatusItemHandle>, t: u64, position: int)
    requires
        is_first_position(s, t, Some(position)),
    ensures
        s.remove(position).len() == s.len() - 1,
        forall|j: int| 0 <= j < position ==> #[trigger] s.remove(position)[j] == s[j],
        forall|j: int| position <= j < s.len() - 1 ==> #[trigger] s.remove(position)[j] == s[j + 1],
        is_first_position(s.remove(position), t, None) == (forall|j: int|
            0 <= j < s.len() && j != position ==> #[trigger] s[j].item_type != t),
{
    let r = s.remove(position);
    if is_first_position(r, t, None) {
        assert forall|j: int| 0 <= j < s.len() && j != position implies #[trigger] s[j].item_type
            != t by {
            if j < position {
                assert(r[j] == s[j]);
            } else {
                assert(r[j - 1] == s[j]);
            }
        }
    }
    if forall|j: int| 0 <= j < s.len() && j != position ==> #[trigger] s[j].item_type != t {
        assert forall|j: int| 0 <= j < r.len() implies #[trigger] r[j].item_type != t by {
            if j < position {
                assert(r[j] == s[j]);
            } else {
                assert(r[j] == s[j + 1]);
            }
        }
    }
}

/// After switching to `new_pane`, every item has been told of its document by
/// exactly one new message each, and a later report from a different pane
/// changes nothing.
pub proof fn lemma_switch_pane_drops_old(v: StatusBarView, new_pane: Pane, old_pane: Pane)
    requires
        old_pane.id != new_pane.id,
    ensures
        v.renotified(new_pane).items().len() == v.items().len(),
        forall|i: int|
            0 <= i < v.items().len() ==> #[trigger] v.renotified(new_pane).items()[i]
                == v.items()[i].notified(new_pane.active_item),
        v.renotified(new_pane).notifications == v.notifications + broadcast(
            v.items(),
            new_pane.active_item,
        ),
        v.renotified(new_pane).after_pane_report(old_pane) == v.renotified(new_pane),
{
    let after = v.renotified(new_pane);
    assert forall|i: int| 0 <= i < v.items().len() implies #[trigger] after.items()[i]
        == v.items()[i].notified(new_pane.active_item) by {
        if i < v.left_items.len() {
            assert(after.items()[i] == after.left_items[i]);
        } else {
            assert(after.items()[i] == after.right_items[i - v.left_items.len()]);
        }
    }
}

} // verus!
