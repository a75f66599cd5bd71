use floatkeys::board::{Board, BAR_GEAR, BAR_X};
use floatkeys::place::place_rects;

fn r4(r: &floatkeys::board::Rect) -> (i32, i32, i32, i32) {
    (r.left, r.top, r.right, r.bottom)
}

#[test]
fn rows_stack_and_last_key_reaches_the_edge() {
    let rc = place_rects(&[1, 2], &[1, 1, 2, 0], &[10, 20, 30, 40], 100, 100, 20);
    assert_eq!(rc.len(), 4);
    assert_eq!(r4(&rc[0]), (6, 26, 16, 58));
    assert_eq!(r4(&rc[1]), (20, 26, 94, 58));
    assert_eq!(r4(&rc[2]), (6, 62, 94, 94));
    assert_eq!(r4(&rc[3]), (0, 0, 0, 0));
}

#[test]
fn pinned_strip_has_no_gaps() {
    let rc = place_rects(&[14], &[14, 14, 14], &[10, 10, 10], 50, 60, 10);
    assert_eq!(r4(&rc[0]), (6, 16, 16, 54));
    assert_eq!(r4(&rc[1]), (16, 16, 26, 54));
    assert_eq!(r4(&rc[2]), (26, 16, 44, 54));
}

#[test]
fn tiny_window_rounds_row_height_toward_zero() {
    let rc = place_rects(&[1, 2, 3], &[3], &[5], 20, 10, 10);
    // (10 - 10 - 12 - 8) / 3 = -6 (toward zero): rows start at 16, 14 and 12
    assert_eq!(r4(&rc[0]), (6, 12, 14, 6));
}

#[test]
fn bar_buttons_line_up_from_the_right() {
    let mut b = Board::new();
    b.place_bar(720, 30, &[40, 36, 36, 40, 58, 40, 36]);
    let x = b.bar.iter().find(|t| t.id == BAR_X).unwrap();
    assert_eq!(r4(&x.rc), (674, 3, 714, 27));
    let gear = b.bar.iter().find(|t| t.id == BAR_GEAR).unwrap();
    assert_eq!(r4(&gear.rc), (6, 3, 42, 27));
    assert_eq!(r4(&b.bar[0].rc), (714 - 40 - 43 - 61 - 43 - 39 - 39 - 40 + 40, 3, 714 - 43 - 61 - 43 - 39 - 39, 27));
}

#[test]
fn keys_of_hidden_rows_are_empty() {
    let mut b = Board::new();
    b.build_keys();
    let w = vec![20; b.keys.len()];
    b.place_keys(720, 400, 30, &w);
    let rows = b.layout_rows();
    for k in b.keys.iter() {
        let shown = rows.contains(&k.row);
        assert_eq!(shown, k.rc.right > k.rc.left, "row {}", k.row);
    }
}
