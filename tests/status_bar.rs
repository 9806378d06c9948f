use workspace::search_status_button::{SearchButton, SEARCH_BUTTON_ITEM_TYPE};
use workspace::status_bar::{Pane, StatusBar};
use workspace::status_item::{Notification, StatusItemHandle, StatusItemView};

fn handle(item_type: u64, id: u64) -> StatusItemHandle {
    StatusItemHandle::new(item_type, id, true)
}

fn ids(items: &[StatusItemHandle]) -> Vec<u64> {
    items.iter().map(|h| h.id).collect()
}

fn pane(id: u64, active_item: Option<u64>) -> Pane {
    Pane { id, active_item }
}

#[test]
fn new_bar_is_empty_and_sends_nothing() {
    let mut bar = StatusBar::new(&pane(1, Some(5)));
    assert!(bar.items().is_empty());
    assert_eq!(bar.left_len(), 0);
    assert_eq!(bar.active_pane(), pane(1, Some(5)));
    assert!(bar.take_notifications().is_empty());
}

#[test]
fn position_of_item_finds_first_in_insertion_order() {
    let mut bar = StatusBar::new(&pane(1, None));
    bar.add_right_item(handle(7, 1));
    bar.add_left_item(handle(3, 2));
    bar.add_left_item(handle(7, 3));
    bar.add_right_item(handle(3, 4));
    // left = [3:2, 7:3], right = [7:1, 3:4]
    assert_eq!(bar.position_of_item(3), Some(0));
    assert_eq!(bar.position_of_item(7), Some(1));
    assert_eq!(bar.position_of_item(9), None);
    assert_eq!(ids(&bar.items()), vec![2, 3, 1, 4]);
}

#[test]
fn position_of_item_in_right_items_is_offset_by_left_len() {
    let mut bar = StatusBar::new(&pane(1, None));
    bar.add_left_item(handle(1, 10));
    bar.add_left_item(handle(2, 20));
    bar.add_right_item(handle(3, 30));
    bar.add_right_item(handle(4, 40));
    assert_eq!(bar.position_of_item(4), Some(3));
    assert_eq!(bar.position_of_item(3), Some(2));
}

#[test]
fn item_of_type_returns_first_match_or_none() {
    let mut bar = StatusBar::new(&pane(1, Some(2)));
    bar.add_left_item(handle(5, 50));
    bar.add_right_item(handle(6, 60));
    bar.add_right_item(handle(6, 61));
    let item = bar.item_of_type(6).unwrap();
    assert_eq!(item.id, 60);
    assert_eq!(item.active_pane_item, Some(2));
    assert_eq!(bar.item_of_type(8), None);
}

#[test]
fn registering_sends_exactly_one_notification() {
    let mut bar = StatusBar::new(&pane(1, Some(9)));
    bar.add_left_item(handle(1, 100));
    assert_eq!(
        bar.take_notifications(),
        vec![Notification { item: 100, active_pane_item: Some(9) }]
    );
    bar.add_right_item(handle(2, 200));
    assert_eq!(
        bar.take_notifications(),
        vec![Notification { item: 200, active_pane_item: Some(9) }]
    );
    bar.insert_item_after(0, handle(3, 300));
    assert_eq!(
        bar.take_notifications(),
        vec![Notification { item: 300, active_pane_item: Some(9) }]
    );
    assert!(bar.take_notifications().is_empty());
    assert!(bar.items().iter().all(|h| h.active_pane_item == Some(9)));
}

#[test]
fn insert_after_lands_one_past_position() {
    let mut bar = StatusBar::new(&pane(1, None));
    bar.add_left_item(handle(1, 10));
    bar.add_left_item(handle(2, 20));
    bar.add_right_item(handle(3, 30));
    let p = bar.position_of_item(1).unwrap();
    bar.insert_item_after(p, handle(9, 90));
    assert_eq!(bar.position_of_item(9), Some(p + 1));
    assert_eq!(ids(&bar.items()), vec![10, 90, 20, 30]);
    assert_eq!(bar.left_len(), 3);
}

#[test]
fn insert_after_last_left_item_stays_left() {
    let mut bar = StatusBar::new(&pane(1, None));
    bar.add_left_item(handle(1, 10));
    bar.add_right_item(handle(2, 20));
    bar.insert_item_after(0, handle(9, 90));
    assert_eq!(bar.left_len(), 2);
    assert_eq!(ids(&bar.render_order()), vec![10, 90, 20]);
}

#[test]
fn insert_after_right_item_goes_right() {
    let mut bar = StatusBar::new(&pane(1, None));
    bar.add_left_item(handle(1, 10));
    bar.add_right_item(handle(2, 20));
    bar.add_right_item(handle(3, 30));
    let p = bar.position_of_item(2).unwrap();
    assert_eq!(p, 1);
    bar.insert_item_after(p, handle(9, 90));
    assert_eq!(bar.left_len(), 1);
    assert_eq!(bar.position_of_item(9), Some(2));
    assert_eq!(ids(&bar.items()), vec![10, 20, 90, 30]);
}

#[test]
fn remove_at_drops_one_and_keeps_order() {
    let mut bar = StatusBar::new(&pane(1, None));
    bar.add_left_item(handle(1, 10));
    bar.add_left_item(handle(2, 20));
    bar.add_right_item(handle(3, 30));
    bar.add_right_item(handle(4, 40));
    let p = bar.position_of_item(2).unwrap();
    bar.remove_item_at(p);
    assert_eq!(bar.position_of_item(2), None);
    assert_eq!(ids(&bar.items()), vec![10, 30, 40]);
    let p = bar.position_of_item(4).unwrap();
    bar.remove_item_at(p);
    assert_eq!(ids(&bar.items()), vec![10, 30]);
    assert_eq!(bar.left_len(), 1);
    assert!(bar.take_notifications().len() == 4);
}

#[test]
fn remove_at_reveals_second_item_of_same_kind() {
    let mut bar = StatusBar::new(&pane(1, None));
    bar.add_left_item(handle(5, 1));
    bar.add_right_item(handle(5, 2));
    bar.remove_item_at(bar.position_of_item(5).unwrap());
    assert_eq!(bar.position_of_item(5), Some(0));
    assert_eq!(bar.item_of_type(5).unwrap().id, 2);
}

#[test]
fn render_order_reverses_right_items() {
    let mut bar = StatusBar::new(&pane(1, None));
    for (id, left) in [(1, true), (2, true), (3, true), (24, false), (25, false), (26, false)] {
        if left {
            bar.add_left_item(handle(id, id));
        } else {
            bar.add_right_item(handle(id, id));
        }
    }
    // left = [A, B, C], right = [X, Y, Z]
    assert_eq!(ids(&bar.render_order()), vec![1, 2, 3, 26, 25, 24]);
}

#[test]
fn render_order_of_empty_bar_is_empty() {
    let bar = StatusBar::new(&pane(1, None));
    assert!(bar.render_order().is_empty());
}

#[test]
fn set_active_pane_renotifies_and_ignores_old_pane() {
    let mut bar = StatusBar::new(&pane(1, Some(11)));
    bar.add_left_item(handle(1, 10));
    bar.add_right_item(handle(2, 20));
    bar.take_notifications();
    bar.set_active_pane(&pane(2, Some(22)));
    assert_eq!(
        bar.take_notifications(),
        vec![
            Notification { item: 10, active_pane_item: Some(22) },
            Notification { item: 20, active_pane_item: Some(22) },
        ]
    );
    bar.active_pane_item_changed(&pane(1, Some(12)));
    assert!(bar.take_notifications().is_empty());
    assert_eq!(bar.active_pane(), pane(2, Some(22)));
    assert!(bar.items().iter().all(|h| h.active_pane_item == Some(22)));
}

#[test]
fn active_pane_change_broadcasts_left_then_right() {
    let mut bar = StatusBar::new(&pane(4, None));
    bar.add_right_item(handle(1, 1));
    bar.add_left_item(handle(2, 2));
    bar.take_notifications();
    bar.active_pane_item_changed(&pane(4, Some(40)));
    assert_eq!(
        bar.take_notifications(),
        vec![
            Notification { item: 2, active_pane_item: Some(40) },
            Notification { item: 1, active_pane_item: Some(40) },
        ]
    );
}

#[test]
fn widget_follows_pane_through_document_and_pane_switch() {
    let w1 = 1;
    let t1 = 100;
    let mut bar = StatusBar::new(&pane(1, Some(501)));
    bar.add_left_item(handle(t1, w1));
    assert_eq!(
        bar.take_notifications(),
        vec![Notification { item: w1, active_pane_item: Some(501) }]
    );
    bar.active_pane_item_changed(&pane(1, Some(502)));
    assert_eq!(
        bar.take_notifications(),
        vec![Notification { item: w1, active_pane_item: Some(502) }]
    );
    bar.set_active_pane(&pane(2, None));
    assert_eq!(
        bar.take_notifications(),
        vec![Notification { item: w1, active_pane_item: None }]
    );
    assert_eq!(bar.item_of_type(t1).unwrap().active_pane_item, None);
}

#[test]
fn handle_set_active_pane_item_records_document() {
    let mut h = handle(1, 2);
    assert_eq!(h.active_pane_item, None);
    h.set_active_pane_item(Some(3));
    assert_eq!(h.active_pane_item, Some(3));
    assert_eq!(h.notification_for(None), Notification { item: 2, active_pane_item: None });
}

#[test]
fn search_button_registers_under_its_kind() {
    let mut button = SearchButton::new();
    let h = button.status_item(42);
    assert_eq!(h.item_type, SEARCH_BUTTON_ITEM_TYPE);
    assert_eq!(h.id, 42);
    assert!(button.should_render());
    assert_eq!(button.item_type(), SEARCH_BUTTON_ITEM_TYPE);
    button.set_active_pane_item(Some(1));
    assert_eq!(button, SearchButton::new());
    assert!(button.shows_icon(true));
    assert!(!button.shows_icon(false));

    let mut bar = StatusBar::new(&pane(1, None));
    bar.add_right_item(h);
    assert_eq!(bar.position_of_item(SEARCH_BUTTON_ITEM_TYPE), Some(0));
}
