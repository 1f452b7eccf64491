use todo_tui::layout::{can_center, centered_rect, cursor_position, Area};

#[test]
fn centered_rect_in_middle() {
    let r = Area { x: 0, y: 0, width: 100, height: 50 };
    assert_eq!(centered_rect(60, 20, r), Area { x: 20, y: 20, width: 60, height: 10 });
}

#[test]
fn cursor_after_text() {
    let area = Area { x: 2, y: 3, width: 40, height: 3 };
    assert_eq!(cursor_position(area, &"abc".to_string()), (6, 4));
    assert_eq!(cursor_position(area, &"".to_string()), (3, 4));
    assert_eq!(cursor_position(area, &"日本".to_string()), (7, 4));
}

#[test]
fn cursor_held_at_last_column() {
    let area = Area { x: 65530, y: 65535, width: 5, height: 3 };
    assert_eq!(cursor_position(area, &"0123456789".to_string()), (65535, 65535));
}

#[test]
fn center_fits_only_without_overflow() {
    let small = Area { x: 0, y: 0, width: 100, height: 50 };
    assert!(can_center(60, 20, small));
    assert!(can_center(60, 20, Area { x: 0, y: 0, width: 1000, height: 1600 }));
    assert!(!can_center(60, 20, Area { x: 0, y: 0, width: 1100, height: 10 }));
    assert!(!can_center(60, 20, Area { x: 0, y: 0, width: 10, height: 1700 }));
    assert!(!can_center(101, 20, small));
}

#[test]
fn center_refuses_area_past_last_coordinate() {
    assert!(!can_center(60, 20, Area { x: 65000, y: 0, width: 1000, height: 10 }));
    assert!(!can_center(60, 20, Area { x: 0, y: 65530, width: 10, height: 10 }));
    assert!(can_center(60, 20, Area { x: 65000, y: 0, width: 535, height: 10 }));
}

#[test]
fn centered_rect_lies_within_area() {
    let r = Area { x: 7, y: 3, width: 81, height: 33 };
    let c = centered_rect(61, 20, r);
    assert!(c.x >= r.x && c.x + c.width <= r.x + r.width);
    assert!(c.y >= r.y && c.y + c.height <= r.y + r.height);
}

#[test]
fn centered_rect_sizes_follow_percentages() {
    let r = Area { x: 0, y: 0, width: 200, height: 100 };
    let c = centered_rect(60, 20, r);
    assert!(c.width >= 119 && c.width <= 121);
    assert!(c.x >= 39 && c.x <= 41);
    assert!(c.height >= 19 && c.height <= 21);
    assert!(c.y >= 39 && c.y <= 41);
}
