use espy::capture::{named_windows, scan_order, SCREEN_HEIGHT, SCREEN_WIDTH, WINDOW_GRAB_SIZE};

#[test]
fn scan_order_goes_column_by_column() {
    let out = scan_order(2, 3);
    assert_eq!(out, vec![(0, 0), (0, 1), (0, 2), (1, 0), (1, 1), (1, 2)]);
}

#[test]
fn scan_order_empty_areas() {
    assert!(scan_order(0, 5).is_empty());
    assert!(scan_order(5, 0).is_empty());
}

#[test]
fn scan_order_window_grab_size() {
    let out = scan_order(WINDOW_GRAB_SIZE, WINDOW_GRAB_SIZE);
    assert_eq!(out.len(), 40_000);
    assert_eq!(out[0], (0, 0));
    assert_eq!(out[199], (0, 199));
    assert_eq!(out[200], (1, 0));
    assert_eq!(out[39_999], (199, 199));
}

#[test]
fn scan_order_screen_size() {
    let out = scan_order(SCREEN_WIDTH, SCREEN_HEIGHT);
    assert_eq!(out.len(), 1920 * 1080);
    assert_eq!(out[1080 * 5 + 7], (5, 7));
}

#[test]
fn named_windows_skips_unnamed_in_order() {
    let children = vec![(10u64, true), (11, false), (12, true), (13, false), (14, true)];
    assert_eq!(named_windows(&children), vec![10, 12, 14]);
}

#[test]
fn named_windows_none_named() {
    assert!(named_windows(&vec![(1u64, false), (2, false)]).is_empty());
    assert!(named_windows(&Vec::new()).is_empty());
}
