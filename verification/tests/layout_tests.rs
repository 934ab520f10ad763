use scanet::layout::centered_rect;

#[test]
fn centred_box_takes_the_middle() {
    assert_eq!(centered_rect(50, 50, (0, 0, 100, 40)), (25, 10, 50, 20));
    assert_eq!(centered_rect(60, 70, (0, 0, 100, 100)), (20, 15, 60, 70));
}

#[test]
fn full_box_is_the_whole_area() {
    assert_eq!(centered_rect(100, 100, (3, 4, 80, 24)), (3, 4, 80, 24));
}

#[test]
fn screen_has_header_list_and_status() {
    let a = scanet::layout::screen_areas((0, 0, 80, 24));
    assert_eq!(a, vec![(0, 0, 80, 3), (0, 3, 80, 18), (0, 21, 80, 3)]);
}

#[test]
fn range_dialog_rows_inside_margin() {
    let a = scanet::layout::range_dialog_areas((10, 5, 40, 20));
    assert_eq!(a.len(), 9);
    assert_eq!(a[0], (12, 7, 36, 1));
    assert_eq!(a[3], (12, 10, 36, 3));
    assert_eq!(a[5], (12, 14, 36, 3));
    assert_eq!(a[8], (12, 19, 36, 4));
}
