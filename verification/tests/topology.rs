use sentinel_wallpaper::geometry::Rect;
use sentinel_wallpaper::topology::{
    make_span_monitor_area, rects_changed, sort_monitors, MonitorArea, MonitorDesc,
};

fn rect(left: i32, top: i32, right: i32, bottom: i32) -> Rect {
    Rect { left, top, right, bottom }
}

fn desc(primary: bool, r: Rect) -> MonitorDesc {
    MonitorDesc { primary, rect: r }
}

#[test]
fn reading_order_rows_top_to_bottom_left_to_right() {
    // Two monitors in a top row, one below: indices follow reading order.
    let raw = vec![
        desc(false, rect(1920, 0, 3840, 1080)),
        desc(false, rect(0, 1080, 1920, 2160)),
        desc(true, rect(0, 0, 1920, 1080)),
    ];
    let sorted = sort_monitors(&raw);
    assert_eq!(sorted.len(), 3);
    assert_eq!(sorted[0].index, 0);
    assert_eq!(sorted[0].rect, rect(0, 0, 1920, 1080));
    assert!(sorted[0].primary);
    assert_eq!(sorted[1].index, 1);
    assert_eq!(sorted[1].rect, rect(1920, 0, 3840, 1080));
    assert_eq!(sorted[2].index, 2);
    assert_eq!(sorted[2].rect, rect(0, 1080, 1920, 2160));
}

#[test]
fn reading_order_groups_slightly_offset_tops_into_one_row() {
    // Tops differing by less than the tolerance (1080 / 4 = 270) share a row.
    let raw = vec![
        desc(false, rect(1920, 200, 3840, 1280)),
        desc(true, rect(0, 0, 1920, 1080)),
    ];
    let sorted = sort_monitors(&raw);
    assert_eq!(sorted[0].rect.left, 0);
    assert_eq!(sorted[1].rect.left, 1920);
}

#[test]
fn reading_order_deterministic_under_enumeration_order() {
    let a = vec![
        desc(true, rect(0, 0, 1920, 1080)),
        desc(false, rect(1920, 0, 3840, 1080)),
        desc(false, rect(0, 1080, 1920, 2160)),
    ];
    let mut b = a.clone();
    b.reverse();
    let sa = sort_monitors(&a);
    let sb = sort_monitors(&b);
    assert_eq!(sa, sb);
}

#[test]
fn reading_order_idempotent() {
    let raw = vec![
        desc(false, rect(1920, 0, 3840, 1080)),
        desc(true, rect(0, 0, 1920, 1080)),
    ];
    let once = sort_monitors(&raw);
    let again_input: Vec<MonitorDesc> = once
        .iter()
        .map(|m| MonitorDesc { primary: m.primary, rect: m.rect })
        .collect();
    let twice = sort_monitors(&again_input);
    assert_eq!(once, twice);
}

#[test]
fn rects_changed_detects_count_and_position_changes() {
    let a = vec![rect(0, 0, 10, 10), rect(10, 0, 20, 10)];
    let same = vec![rect(0, 0, 10, 10), rect(10, 0, 20, 10)];
    let moved = vec![rect(0, 0, 10, 10), rect(11, 0, 21, 10)];
    let fewer = vec![rect(0, 0, 10, 10)];
    assert!(!rects_changed(&a, &same));
    assert!(rects_changed(&a, &moved));
    assert!(rects_changed(&a, &fewer));
}

#[test]
fn span_area_is_bounding_union() {
    let targets = vec![
        MonitorArea { index: 0, primary: false, rect: rect(0, 0, 100, 100) },
        MonitorArea { index: 1, primary: true, rect: rect(100, 0, 200, 100) },
    ];
    let span = make_span_monitor_area(&targets);
    assert_eq!(span.rect, rect(0, 0, 200, 100));
    assert!(span.primary);
    assert_eq!(span.index, 0);
}
