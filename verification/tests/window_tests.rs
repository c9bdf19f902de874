use rustray::window::{WindowLayout, DEFAULT_HEIGHT, DEFAULT_WIDTH};

#[test]
fn stored_text_format() {
    let l = WindowLayout { window_x: 10, window_y: -20, width: 1024, height: 768 };
    assert_eq!(l.pos_data(), "10x-20x1024x768");
}

#[test]
fn stored_layout_reads_back_when_no_size_chosen() {
    let stored = WindowLayout { window_x: 10, window_y: -20, width: 1024, height: 768 };
    let text = stored.pos_data();
    let mut l = WindowLayout::new(0, 0);
    assert!(l.pos_data_readable(&text));
    l.load_pos_data(&text);
    assert_eq!(l, stored);
}

#[test]
fn chosen_size_is_kept_when_reading() {
    let stored = WindowLayout { window_x: 5, window_y: 6, width: 1024, height: 768 };
    let mut l = WindowLayout::new(640, 480);
    l.load_pos_data(&stored.pos_data());
    assert_eq!(l, WindowLayout { window_x: 5, window_y: 6, width: 640, height: 480 });
}

#[test]
fn text_without_four_parts_changes_nothing() {
    let mut l = WindowLayout::new(0, 0);
    assert!(l.pos_data_readable("1x2x3"));
    l.load_pos_data("1x2x3");
    assert_eq!(l, WindowLayout::new(0, 0));
    l.load_pos_data("");
    assert_eq!(l, WindowLayout::new(0, 0));
}

#[test]
fn unreadable_numbers_are_reported() {
    let l = WindowLayout::new(0, 0);
    assert!(!l.pos_data_readable("ax1x2x3"));
    assert!(!l.pos_data_readable("1x2x3xq"));
    let sized = WindowLayout::new(800, 600);
    assert!(sized.pos_data_readable("1x2x3xq"));
    assert!(!sized.pos_data_readable("1xbx3x4"));
}

#[test]
fn default_resolution_when_a_side_is_zero() {
    let mut l = WindowLayout::new(0, 500);
    l.apply_default_resolution();
    assert_eq!((l.width, l.height), (DEFAULT_WIDTH, DEFAULT_HEIGHT));
    assert_eq!((l.width, l.height), (800, 600));
    let mut l = WindowLayout::new(320, 200);
    l.apply_default_resolution();
    assert_eq!((l.width, l.height), (320, 200));
}

#[test]
fn moves_and_resizes_report_changes() {
    let mut l = WindowLayout::new(800, 600);
    assert!(!l.move_to(0, 0));
    assert!(l.move_to(3, 4));
    assert_eq!((l.window_x, l.window_y), (3, 4));
    assert!(!l.resize_to(800, 600));
    assert!(l.resize_to(801, 600));
    assert_eq!((l.width, l.height), (801, 600));
}
