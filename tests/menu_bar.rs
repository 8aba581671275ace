use std::cell::Cell;
use std::rc::Rc;
use titlebar_menu::geometry::{Point, Rect};
use titlebar_menu::MenuBar;

#[test]
fn bar_items_keep_order_and_actions() {
    let hits = Rc::new(Cell::new(0));
    let h = hits.clone();
    let action: Box<dyn Fn()> = Box::new(move || h.set(h.get() + 1));
    let bar = MenuBar::new().add_item("File", Some(action)).add_item("Edit", None);
    assert_eq!(bar.items.len(), 2);
    assert_eq!(bar.items[0].label, "File");
    assert_eq!(bar.items[1].label, "Edit");
    let rects = vec![
        Rect { min_x: 0, min_y: 0, max_x: 40, max_y: 28 },
        Rect { min_x: 40, min_y: 0, max_x: 80, max_y: 28 },
    ];
    assert_eq!(bar.hit_test(&rects, Point { x: 60, y: 5 }), Some(1));
    assert_eq!(bar.hit_test(&rects, Point { x: 40, y: 5 }), Some(0));
    assert_eq!(bar.hit_test(&rects, Point { x: 90, y: 5 }), None);
    if let Some(a) = bar.action_on_click(0) {
        a();
    }
    assert!(bar.action_on_click(1).is_none());
    assert!(bar.action_on_click(2).is_none());
    assert_eq!(hits.get(), 1);
}

#[test]
fn empty_bar_hits_nothing() {
    let bar: MenuBar<u8> = MenuBar::new();
    let rects = vec![Rect { min_x: 0, min_y: 0, max_x: 40, max_y: 28 }];
    assert_eq!(bar.hit_test(&rects, Point { x: 5, y: 5 }), None);
}
