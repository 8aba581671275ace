use titlebar_menu::geometry::{GeometryCache, PanelGeometry, Point, Rect};
use titlebar_menu::items::{KeyChord, KeyboardShortcut, MenuItem, SubMenuItem};
use titlebar_menu::MenuBar;
use titlebar_menu::navigation::{InputMode, NavKey};
use titlebar_menu::{FrameInput, TitleBar};

fn file_bar() -> TitleBar<&'static str> {
    let file = MenuItem::new("File")
        .add_subitem(
            SubMenuItem::new("New")
                .with_shortcut(KeyboardShortcut::new("N").with_ctrl())
                .with_callback("new"),
        )
        .add_subitem(
            SubMenuItem::new("Recent")
                .add_child(SubMenuItem::new("A.txt").with_callback("a"))
                .add_child(SubMenuItem::new("B.txt").with_callback("b")),
        )
        .add_subitem(SubMenuItem::new("Exit").with_callback("exit").disabled());
    TitleBar::new().add_menu_with_submenu(file)
}

fn keys(keys: Vec<NavKey>) -> FrameInput {
    FrameInput { chords: vec![], keys, pointer: None, click: None }
}

fn pointer(x: i32, y: i32, click: Option<u64>) -> FrameInput {
    FrameInput { chords: vec![], keys: vec![], pointer: Some(Point { x, y }), click }
}

fn rect(min_x: i32, min_y: i32, max_x: i32, max_y: i32) -> Rect {
    Rect { min_x, min_y, max_x, max_y }
}

/// The bar with "File" at x 0..40, its panel below with three 24-pixel rows, and
/// the "Recent" child panel to the right of the panel.
fn file_geometry(with_child: bool) -> GeometryCache {
    let mut g = GeometryCache::new();
    g.bar = rect(0, 0, 300, 28);
    g.top_items = vec![rect(0, 0, 40, 28)];
    g.panels.push(PanelGeometry {
        rect: rect(0, 32, 150, 104),
        rows: vec![rect(0, 32, 150, 56), rect(0, 56, 150, 80), rect(0, 80, 150, 104)],
    });
    if with_child {
        g.panels.push(PanelGeometry {
            rect: rect(150, 56, 270, 104),
            rows: vec![rect(150, 56, 270, 80), rect(150, 80, 270, 104)],
        });
    }
    g
}

#[test]
fn keyboard_walk_to_nested_leaf() {
    let mut tb = file_bar();
    let g = GeometryCache::new();
    tb.update(&keys(vec![NavKey::Activate]), &g);
    assert_eq!(tb.state.path, vec![0]);
    assert_eq!(tb.state.mode, InputMode::Keyboard);
    let out = tb.update(&keys(vec![NavKey::Enter]), &g);
    assert!(out.activations.is_empty());
    assert_eq!(tb.state.path, vec![0, 0]);
    tb.update(&keys(vec![NavKey::ArrowDown]), &g);
    assert_eq!(tb.state.path, vec![0, 1]);
    assert!(tb.state.apply_key(&tb.menus, NavKey::ArrowRight).is_none());
    assert_eq!(tb.state.path, vec![0, 1, 0]);
    assert!(tb.state.submenu_just_opened);
    assert!(tb.state.apply_key(&tb.menus, NavKey::Enter).is_none());
    assert_eq!(tb.state.path, vec![0, 1, 0]);
    tb.update(&keys(vec![]), &g);
    assert!(!tb.state.submenu_just_opened);
    let out = tb.update(&keys(vec![NavKey::Enter]), &g);
    assert_eq!(out.activations, vec![vec![0, 1, 0]]);
    assert_eq!(tb.callback_at(&out.activations[0]), Some(&"a"));
    assert_eq!(tb.state.path, vec![0]);
    assert_eq!(tb.state.mode, InputMode::Keyboard);
}

#[test]
fn mouse_click_open_and_outside_close() {
    let mut tb = file_bar();
    let g = file_geometry(false);
    tb.update(&pointer(20, 10, None), &g);
    assert!(tb.state.path.is_empty());
    tb.update(&pointer(20, 10, Some(1)), &g);
    assert_eq!(tb.state.path, vec![0, 0]);
    assert_eq!(tb.state.last_activation_token, 1);
    assert!(tb.is_submenu_open(0));
    tb.state.outside_click(1);
    assert_eq!(tb.state.path, vec![0, 0]);
    tb.update(&pointer(500, 500, Some(2)), &g);
    assert_eq!(tb.state.path, vec![0]);
    assert!(!tb.is_submenu_open(0));
    assert_eq!(tb.state.mode, InputMode::Mouse);
}

#[test]
fn arrow_right_stops_at_last_entry() {
    let mut tb: TitleBar<&'static str> = TitleBar::new()
        .add_menu_item("One", None)
        .add_menu_item("Two", None)
        .add_menu_item("Three", None)
        .add_menu_item("Four", None);
    let g = GeometryCache::new();
    tb.update(&keys(vec![NavKey::Activate]), &g);
    assert_eq!(tb.state.path, vec![0]);
    tb.update(&keys(vec![NavKey::ArrowRight, NavKey::ArrowRight, NavKey::ArrowRight]), &g);
    assert_eq!(tb.state.path, vec![3]);
    tb.update(&keys(vec![NavKey::ArrowRight]), &g);
    assert_eq!(tb.state.path, vec![3]);
    tb.update(&keys(vec![NavKey::ArrowLeft; 5]), &g);
    assert_eq!(tb.state.path, vec![0]);
}

#[test]
fn opening_click_is_not_an_outside_click() {
    let mut tb = file_bar();
    let g = file_geometry(false);
    tb.update(&pointer(10, 10, Some(7)), &g);
    assert_eq!(tb.state.path, vec![0, 0]);
    tb.state.outside_click(7);
    assert_eq!(tb.state.path, vec![0, 0]);
    tb.state.outside_click(8);
    assert_eq!(tb.state.path, vec![0]);
}

#[test]
fn enter_on_parent_opens_first_child_only() {
    let mut tb = file_bar();
    let g = GeometryCache::new();
    tb.update(&keys(vec![NavKey::Activate]), &g);
    tb.update(&keys(vec![NavKey::Enter]), &g);
    tb.update(&keys(vec![NavKey::ArrowDown]), &g);
    let out = tb.update(&keys(vec![NavKey::Enter, NavKey::Enter]), &g);
    assert!(out.activations.is_empty());
    assert_eq!(tb.state.path, vec![0, 1, 0]);
    let out = tb.update(&keys(vec![NavKey::Space]), &g);
    assert_eq!(out.activations, vec![vec![0, 1, 0]]);
    assert_eq!(tb.state.path, vec![0]);
}

#[test]
fn escape_closes_everything() {
    let mut tb = file_bar();
    let g = GeometryCache::new();
    tb.update(&keys(vec![NavKey::Activate, NavKey::Enter]), &g);
    tb.update(&keys(vec![NavKey::ArrowDown, NavKey::ArrowRight]), &g);
    assert_eq!(tb.state.path, vec![0, 1, 0]);
    tb.update(&keys(vec![NavKey::Escape]), &g);
    assert!(tb.state.path.is_empty());
    assert_eq!(tb.state.mode, InputMode::Mouse);
    tb.update(&keys(vec![NavKey::ArrowDown]), &g);
    assert!(tb.state.path.is_empty());
}

#[test]
fn disabled_leaf_never_fires() {
    let mut tb = file_bar();
    let g = file_geometry(false);
    tb.update(&keys(vec![NavKey::Activate, NavKey::Enter]), &g);
    tb.update(&keys(vec![NavKey::ArrowDown, NavKey::ArrowDown, NavKey::ArrowDown]), &g);
    assert_eq!(tb.state.path, vec![0, 2]);
    assert!(tb.is_row_selected(1, 2));
    let out = tb.update(&keys(vec![NavKey::Enter]), &g);
    assert!(out.activations.is_empty());
    assert_eq!(tb.state.path, vec![0, 2]);
    let out = tb.update(&pointer(40, 90, Some(3)), &g);
    assert!(out.activations.is_empty());
    let out = tb.update(&pointer(40, 40, Some(4)), &g);
    assert_eq!(out.activations, vec![vec![0, 0]]);
    assert_eq!(tb.callback_at(&out.activations[0]), Some(&"new"));
}

#[test]
fn left_arrow_backs_out_one_level() {
    let mut tb = file_bar();
    let g = GeometryCache::new();
    tb.update(&keys(vec![NavKey::Activate, NavKey::Enter, NavKey::ArrowDown]), &g);
    tb.update(&keys(vec![NavKey::ArrowRight]), &g);
    tb.update(&keys(vec![NavKey::ArrowDown]), &g);
    assert_eq!(tb.state.path, vec![0, 1, 1]);
    tb.update(&keys(vec![NavKey::ArrowDown]), &g);
    assert_eq!(tb.state.path, vec![0, 1, 1]);
    tb.update(&keys(vec![NavKey::ArrowLeft]), &g);
    assert_eq!(tb.state.path, vec![0, 1]);
    tb.update(&keys(vec![NavKey::ArrowLeft]), &g);
    assert_eq!(tb.state.path, vec![0]);
    tb.update(&keys(vec![NavKey::ArrowUp]), &g);
    assert_eq!(tb.state.path, vec![0]);
}

#[test]
fn right_arrow_on_leaf_moves_to_next_menu() {
    let edit = MenuItem::new("Edit").add_subitem(SubMenuItem::new("Undo").with_callback("undo"));
    let mut tb = file_bar().add_menu_with_submenu(edit);
    let g = GeometryCache::new();
    tb.update(&keys(vec![NavKey::Activate, NavKey::Enter]), &g);
    assert_eq!(tb.state.path, vec![0, 0]);
    tb.update(&keys(vec![NavKey::ArrowRight]), &g);
    assert_eq!(tb.state.path, vec![1]);
    tb.update(&keys(vec![NavKey::Enter]), &g);
    assert_eq!(tb.state.path, vec![1, 0]);
    tb.update(&keys(vec![NavKey::ArrowLeft]), &g);
    assert_eq!(tb.state.path, vec![0]);
}

#[test]
fn simple_action_fires_and_clears_selection() {
    let mut tb: TitleBar<&'static str> = TitleBar::new().add_menu_item("Help", Some("help"));
    let g = GeometryCache::new();
    let out = tb.update(&keys(vec![NavKey::Activate, NavKey::Enter]), &g);
    assert_eq!(out.activations, vec![vec![0]]);
    assert_eq!(tb.callback_at(&out.activations[0]), Some(&"help"));
    assert!(tb.state.path.is_empty());
    assert_eq!(tb.state.mode, InputMode::Keyboard);
}

#[test]
fn keys_ignored_in_mouse_mode() {
    let mut tb = file_bar();
    let g = GeometryCache::new();
    let out = tb.update(&keys(vec![NavKey::ArrowRight, NavKey::Enter, NavKey::Escape]), &g);
    assert!(out.activations.is_empty());
    assert!(tb.state.path.is_empty());
    assert_eq!(tb.state.mode, InputMode::Mouse);
}

#[test]
fn empty_menus_activate_nothing() {
    let mut tb: TitleBar<&'static str> = TitleBar::new();
    let g = GeometryCache::new();
    let out = tb.update(&keys(vec![NavKey::Activate, NavKey::ArrowRight, NavKey::Enter]), &g);
    assert!(out.activations.is_empty());
    assert!(tb.state.path.is_empty());
    assert_eq!(tb.state.mode, InputMode::Keyboard);
}

#[test]
fn shortcut_fires_without_open_menu() {
    let deep = MenuItem::new("View").add_subitem(
        SubMenuItem::new("Zoom").add_child(
            SubMenuItem::new("In").with_shortcut(KeyboardShortcut::new("N").with_ctrl()).with_callback("zoom"),
        ),
    );
    let mut tb = file_bar().add_menu_with_submenu(deep);
    let g = GeometryCache::new();
    let chord = KeyChord { key: "N".to_string(), ctrl: true, shift: false, alt: false };
    let input = FrameInput { chords: vec![chord], keys: vec![], pointer: None, click: None };
    let out = tb.update(&input, &g);
    assert_eq!(out.shortcuts, vec![vec![0, 0], vec![1, 0, 0]]);
    assert_eq!(tb.callback_at(&out.shortcuts[1]), Some(&"zoom"));
    assert!(tb.state.path.is_empty());
    let plain = KeyChord { key: "N".to_string(), ctrl: false, shift: false, alt: false };
    assert!(tb.check_keyboard_shortcuts(&vec![plain]).is_empty());
}

#[test]
fn disabled_item_shortcut_does_not_fire() {
    let menu = MenuItem::new("File").add_subitem(
        SubMenuItem::new("Quit").with_shortcut(KeyboardShortcut::new("Q").with_ctrl()).with_callback("quit").disabled(),
    );
    let tb: TitleBar<&'static str> = TitleBar::new().add_menu_with_submenu(menu);
    let chord = KeyChord { key: "Q".to_string(), ctrl: true, shift: false, alt: false };
    assert!(tb.check_keyboard_shortcuts(&vec![chord]).is_empty());
}

#[test]
fn hover_opens_child_and_corridor_keeps_it() {
    let mut tb = file_bar();
    let g = file_geometry(false);
    tb.update(&pointer(20, 10, Some(1)), &g);
    assert_eq!(tb.state.path, vec![0, 0]);
    tb.update(&pointer(40, 60, None), &g);
    assert_eq!(tb.state.path, vec![0, 1, 0]);
    assert!(tb.is_child_open(1, 1));
    let g2 = file_geometry(true);
    tb.update(&pointer(155, 52, None), &g2);
    assert_eq!(tb.state.path, vec![0, 1, 0]);
    tb.update(&pointer(200, 100, None), &g2);
    assert_eq!(tb.state.path, vec![0, 1, 1]);
    tb.update(&pointer(600, 400, None), &g2);
    assert_eq!(tb.state.path, vec![0, 1]);
    assert!(tb.is_submenu_open(0));
}

#[test]
fn hover_on_other_row_closes_child() {
    let mut tb = file_bar();
    let g = file_geometry(true);
    tb.update(&pointer(20, 10, Some(1)), &g);
    tb.update(&pointer(40, 60, None), &g);
    assert_eq!(tb.state.path, vec![0, 1, 0]);
    tb.update(&pointer(40, 40, None), &g);
    assert_eq!(tb.state.path, vec![0, 0]);
}

#[test]
fn hover_does_not_open_in_keyboard_mode() {
    let mut tb = file_bar();
    let g = file_geometry(false);
    tb.update(&keys(vec![NavKey::Activate, NavKey::Enter]), &g);
    tb.update(&pointer(40, 60, None), &g);
    assert_eq!(tb.state.path, vec![0, 0]);
}

#[test]
fn click_on_open_menu_toggles_it_closed() {
    let mut tb = file_bar();
    let g = file_geometry(false);
    tb.update(&pointer(20, 10, Some(1)), &g);
    assert_eq!(tb.state.path, vec![0, 0]);
    tb.update(&pointer(20, 10, Some(2)), &g);
    assert_eq!(tb.state.path, vec![0]);
    assert_eq!(tb.state.last_activation_token, 1);
}

#[test]
fn click_in_bar_gap_keeps_menu_open() {
    let mut tb = file_bar();
    let g = file_geometry(false);
    tb.update(&pointer(20, 10, Some(1)), &g);
    tb.update(&pointer(200, 10, Some(2)), &g);
    assert_eq!(tb.state.path, vec![0, 0]);
}

#[test]
fn stale_selection_is_dropped() {
    let mut tb = file_bar();
    let g = GeometryCache::new();
    tb.update(&keys(vec![NavKey::Activate, NavKey::Enter, NavKey::ArrowDown]), &g);
    tb.update(&keys(vec![NavKey::ArrowRight]), &g);
    assert_eq!(tb.state.path, vec![0, 1, 0]);
    tb.state.path = vec![0, 1, 5];
    tb.revalidate();
    assert_eq!(tb.state.path, vec![0, 1]);
    let mut tb = tb.add_menu_item("Help", None);
    tb.revalidate();
    assert_eq!(tb.state.path, vec![0]);
    tb.state.path = vec![9, 0];
    tb.revalidate();
    assert!(tb.state.path.is_empty());
}

#[test]
fn corridor_bounds() {
    let r = rect(0, 0, 100, 20);
    assert!(r.corridor_contains(Point { x: 105, y: -5 }));
    assert!(r.corridor_contains(Point { x: 110, y: 26 }));
    assert!(!r.corridor_contains(Point { x: 111, y: 0 }));
    assert!(!r.corridor_contains(Point { x: 105, y: -7 }));
    assert!(!r.corridor_contains(Point { x: 99, y: 10 }));
    assert!(r.contains(Point { x: 100, y: 20 }));
    assert!(!r.contains(Point { x: 101, y: 20 }));
}

#[test]
fn callback_lookup_rejects_foreign_paths() {
    let tb = file_bar();
    assert_eq!(tb.callback_at(&vec![0, 0]), Some(&"new"));
    assert_eq!(tb.callback_at(&vec![0, 2]), Some(&"exit"));
    assert_eq!(tb.callback_at(&vec![0, 1]), None);
    assert_eq!(tb.callback_at(&vec![0, 3]), None);
    assert_eq!(tb.callback_at(&vec![1]), None);
    assert_eq!(tb.callback_at(&vec![]), None);
}

#[test]
fn key_frame_clears_guard_and_suppresses_same_frame_enter() {
    let mut tb = file_bar();
    let g = GeometryCache::new();
    tb.update(&keys(vec![NavKey::Activate, NavKey::Enter, NavKey::ArrowDown]), &g);
    tb.state.submenu_just_opened = true;
    let acts = tb.handle_keyboard_navigation(&vec![NavKey::ArrowRight, NavKey::Enter, NavKey::Enter]);
    assert!(acts.is_empty());
    assert_eq!(tb.state.path, vec![0, 1, 0]);
    assert!(!tb.state.submenu_just_opened);
    let acts = tb.handle_keyboard_navigation(&vec![NavKey::Enter]);
    assert_eq!(acts, vec![vec![0, 1, 0]]);
}

#[test]
fn escape_wins_the_frame() {
    let mut tb = file_bar();
    let g = GeometryCache::new();
    tb.update(&keys(vec![NavKey::Activate, NavKey::Enter]), &g);
    assert_eq!(tb.state.path, vec![0, 0]);
    let out = tb.update(&keys(vec![NavKey::Enter, NavKey::Escape]), &g);
    assert!(out.activations.is_empty());
    assert!(tb.state.path.is_empty());
    assert_eq!(tb.state.mode, InputMode::Mouse);
    tb.update(&keys(vec![NavKey::Activate, NavKey::Enter]), &g);
    let out = tb.update(&keys(vec![NavKey::Escape, NavKey::Activate]), &g);
    assert!(out.activations.is_empty());
    assert!(tb.state.path.is_empty());
    assert_eq!(tb.state.mode, InputMode::Mouse);
}

#[test]
fn escape_with_activation_in_mouse_mode() {
    let mut tb = file_bar();
    let g = GeometryCache::new();
    let out = tb.update(&keys(vec![NavKey::Activate, NavKey::Enter, NavKey::Escape]), &g);
    assert!(out.activations.is_empty());
    assert!(tb.state.path.is_empty());
    assert_eq!(tb.state.mode, InputMode::Mouse);
    let acts = tb.handle_keyboard_navigation(&vec![NavKey::Escape, NavKey::Enter]);
    assert!(acts.is_empty());
    assert_eq!(tb.state.mode, InputMode::Mouse);
}

#[test]
fn shortcut_display_text() {
    assert_eq!(KeyboardShortcut::new("N").with_ctrl().with_shift().display_string(), "Ctrl+Shift+N");
    assert_eq!(KeyboardShortcut::new("F5").display_string(), "F5");
    assert_eq!(KeyboardShortcut::new("X").with_alt().with_ctrl().display_string(), "Ctrl+Alt+X");
}

#[test]
fn shortcut_fires_under_disabled_menus() {
    let closed = MenuItem::new("Tools")
        .add_subitem(SubMenuItem::new("Run").with_shortcut(KeyboardShortcut::new("R").with_ctrl()).with_callback("run"))
        .disabled();
    let nested = MenuItem::new("View").add_subitem(
        SubMenuItem::new("Zoom")
            .add_child(SubMenuItem::new("Reset").with_shortcut(KeyboardShortcut::new("R").with_ctrl()).with_callback("reset"))
            .disabled(),
    );
    let empty = MenuItem::new("Empty");
    let tb: TitleBar<&'static str> = TitleBar::new()
        .add_menu_item("Help", Some("help"))
        .add_menu_with_submenu(closed)
        .add_menu_with_submenu(empty)
        .add_menu_with_submenu(nested);
    let chord = KeyChord { key: "R".to_string(), ctrl: true, shift: false, alt: false };
    let fired = tb.check_keyboard_shortcuts(&vec![chord]);
    assert_eq!(fired, vec![vec![1, 0], vec![3, 0, 0]]);
    assert_eq!(tb.callback_at(&fired[0]), Some(&"run"));
    assert_eq!(tb.callback_at(&fired[1]), Some(&"reset"));
}

#[test]
fn shortcut_reported_once_for_repeated_chord() {
    let tb = file_bar();
    let chord = || KeyChord { key: "N".to_string(), ctrl: true, shift: false, alt: false };
    let fired = tb.check_keyboard_shortcuts(&vec![chord(), chord()]);
    assert_eq!(fired, vec![vec![0, 0]]);
}

#[test]
fn default_menu_bar_is_empty() {
    let bar: MenuBar<u8> = MenuBar::default();
    assert!(bar.items.is_empty());
}
