use lionclip::positioning::geometry::{
    clamp_popup_origin, monitor_at_pointer, saturating_add, Point, Rect, Size,
};

const MONITOR: Rect = Rect {
    x: 0,
    y: 0,
    width: 1920,
    height: 1080,
};

const POPUP: Size = Size {
    width: 430,
    height: 250,
};

#[test]
fn leaves_in_bounds_position_unchanged() {
    let desired = Point { x: 500, y: 300 };
    assert_eq!(clamp_popup_origin(desired, POPUP, MONITOR, 12), desired);
}

#[test]
fn clamps_at_bottom_right_edge() {
    assert_eq!(
        clamp_popup_origin(Point { x: 1910, y: 1070 }, POPUP, MONITOR, 12),
        Point { x: 1478, y: 818 }
    );
}

#[test]
fn clamps_on_monitor_with_negative_origin() {
    let left_monitor = Rect {
        x: -1920,
        y: -120,
        width: 1920,
        height: 1080,
    };

    assert_eq!(
        clamp_popup_origin(Point { x: -1918, y: -118 }, POPUP, left_monitor, 12),
        Point { x: -1908, y: -108 }
    );
}

#[test]
fn chooses_monitor_containing_pointer() {
    let monitors = [
        Rect {
            x: -1280,
            y: 0,
            width: 1280,
            height: 1024,
        },
        MONITOR,
    ];

    assert_eq!(
        monitor_at_pointer(&monitors, Point { x: -10, y: 500 }),
        Some(monitors[0])
    );
    assert_eq!(
        monitor_at_pointer(&monitors, Point { x: 100, y: 500 }),
        Some(MONITOR)
    );
}

#[test]
fn returns_none_for_pointer_outside_all_monitors() {
    assert_eq!(monitor_at_pointer(&[MONITOR], Point { x: -1, y: -1 }), None);
}

#[test]
fn anchors_oversized_popup_at_monitor_origin() {
    assert_eq!(
        clamp_popup_origin(
            Point { x: 40, y: 40 },
            Size {
                width: 2000,
                height: 1200,
            },
            MONITOR,
            12,
        ),
        Point { x: 0, y: 0 }
    );
}

#[test]
fn right_and_bottom_edges_belong_to_the_next_monitor() {
    assert!(MONITOR.contains(Point { x: 0, y: 0 }));
    assert!(MONITOR.contains(Point { x: 1919, y: 1079 }));
    assert!(!MONITOR.contains(Point { x: 1920, y: 0 }));
    assert!(!MONITOR.contains(Point { x: 0, y: 1080 }));
}

#[test]
fn edges_near_the_integer_limits_saturate() {
    let far = Rect {
        x: i32::MAX - 10,
        y: 0,
        width: 100,
        height: 10,
    };
    assert!(far.contains(Point { x: i32::MAX - 1, y: 5 }));
    assert_eq!(saturating_add(i32::MAX, 1), i32::MAX);
    assert_eq!(saturating_add(i32::MIN, -1), i32::MIN);
    assert_eq!(saturating_add(-5, 3), -2);
}

#[test]
fn a_negative_margin_counts_as_none() {
    assert_eq!(
        clamp_popup_origin(Point { x: -50, y: 2000 }, POPUP, MONITOR, -30),
        Point { x: 0, y: 830 }
    );
}
