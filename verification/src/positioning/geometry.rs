//! Screen geometry for placing the popup: which monitor holds the pointer,
//! and where the popup's origin goes so that it stays on that monitor.
use vstd::prelude::*;

verus! {

#[derive(Clone, Copy, Debug, Eq, PartialEq, Structural)]
pub struct Point {
    pub x: i32,
    pub y: i32,
}

#[derive(Clone, Copy, Debug, Eq, PartialEq, Structural)]
pub struct Size {
    pub width: i32,
    pub height: i32,
}

#[derive(Clone, Copy, Debug, Eq, PartialEq, Structural)]
pub struct Rect {
    pub x: i32,
    pub y: i32,
    pub width: i32,
    pub height: i32,
}

/// `value` limited to the range of `i32`, as saturating arithmetic gives it.
pub open spec fn saturate(value: int) -> int {
    if value < i32::MIN {
        i32::MIN as int
    } else if value > i32::MAX {
        i32::MAX as int
    } else {
        value
    }
}

/// `a + b`, saturating at the bounds of `i32`.
pub fn saturating_add(a: i32, b: i32) -> (sum: i32)
    ensures
        sum == saturate(a + b),
{
    let wide = a as i64 + b as i64;
    if wide < i32::MIN as i64 {
        i32::MIN
    } else if wide > i32::MAX as i64 {
        i32::MAX
    } else {
        wide as i32
    }
}

/// `a - b`, saturating at the bounds of `i32`.
pub fn saturating_sub(a: i32, b: i32) -> (difference: i32)
    ensures
        difference == saturate(a - b),
{
    let wide = a as i64 - b as i64;
    if wide < i32::MIN as i64 {
        i32::MIN
    } else if wide > i32::MAX as i64 {
        i32::MAX
    } else {
        wide as i32
    }
}

/// Whether the point lies in the rectangle (right and bottom edges excluded).
pub open spec fn rect_contains(rect: Rect, point: Point) -> bool {
    &&& point.x >= rect.x
    &&& point.y >= rect.y
    &&& point.x < saturate(rect.x + rect.width)
    &&& point.y < saturate(rect.y + rect.height)
}

impl Rect {
    pub fn contains(self, point: Point) -> (inside: bool)
        ensures
            inside == rect_contains(self, point),
    {
        point.x >= self.x && point.y >= self.y && point.x < saturating_add(self.x, self.width)
            && point.y < saturating_add(self.y, self.height)
    }
}

/// Index of the first monitor containing the pointer, or -1.
pub open spec fn first_monitor(monitors: Seq<Rect>, pointer: Point) -> int
    decreases monitors.len(),
{
    if monitors.len() == 0 {
        -1
    } else if rect_contains(monitors[0], pointer) {
        0
    } else {
        let rest = first_monitor(monitors.drop_first(), pointer);
        if rest < 0 {
            -1
        } else {
            rest + 1
        }
    }
}

proof fn lemma_first_monitor(monitors: Seq<Rect>, pointer: Point, i: int)
    requires
        0 <= i <= monitors.len(),
        forall|k: int| 0 <= k < i ==> !rect_contains(#[trigger] monitors[k], pointer),
        i == monitors.len() || rect_contains(monitors[i], pointer),
    ensures
        first_monitor(monitors, pointer) == if i == monitors.len() {
            -1
        } else {
            i
        },
    decreases monitors.len(),
{
    if monitors.len() > 0 && i > 0 {
        let rest = monitors.drop_first();
        assert(!rect_contains(monitors[0], pointer));
        assert forall|k: int| 0 <= k < i - 1 implies !rect_contains(#[trigger] rest[k], pointer) by {
            assert(rest[k] == monitors[k + 1]);
        }
        if i < monitors.len() {
            assert(rest[i - 1] == monitors[i]);
        }
        lemma_first_monitor(rest, pointer, i - 1);
    }
}

/// What the index of the first monitor under the pointer means: no earlier
/// monitor contains the pointer, the one found does, and -1 means none does.
pub proof fn lemma_first_monitor_found(monitors: Seq<Rect>, pointer: Point)
    ensures
        -1 <= first_monitor(monitors, pointer) < monitors.len(),
        first_monitor(monitors, pointer) >= 0 ==> rect_contains(
            monitors[first_monitor(monitors, pointer)],
            pointer,
        ),
        forall|k: int|
            0 <= k < monitors.len() && (first_monitor(monitors, pointer) < 0 || k < first_monitor(
                monitors,
                pointer,
            )) ==> !rect_contains(#[trigger] monitors[k], pointer),
    decreases monitors.len(),
{
    if monitors.len() > 0 {
        let rest = monitors.drop_first();
        lemma_first_monitor_found(rest, pointer);
        assert forall|k: int|
            0 <= k < monitors.len() && (first_monitor(monitors, pointer) < 0 || k < first_monitor(
                monitors,
                pointer,
            )) implies !rect_contains(#[trigger] monitors[k], pointer) by {
            if k > 0 {
                assert(monitors[k] == rest[k - 1]);
            }
        }
        if first_monitor(monitors, pointer) > 0 {
            assert(monitors[first_monitor(monitors, pointer)] == rest[first_monitor(rest, pointer)]);
        }
    }
}

/// The first monitor, in the given order, that contains the pointer.
pub fn monitor_at_pointer(monitors: &[Rect], pointer: Point) -> (monitor: Option<Rect>)
    ensures
        match monitor {
            Some(found) => {
                let i = first_monitor(monitors@, pointer);
                0 <= i < monitors@.len() && found == monitors@[i]
            },
            None => first_monitor(monitors@, pointer) == -1,
        },
{
    let mut i: usize = 0;
    while i < monitors.len()
        invariant
            i <= monitors@.len(),
            forall|k: int| 0 <= k < i ==> !rect_contains(#[trigger] monitors@[k], pointer),
        decreases monitors.len() - i,
    {
        if monitors[i].contains(pointer) {
            proof {
                lemma_first_monitor(monitors@, pointer, i as int);
            }
            return Some(monitors[i]);
        }
        i = i + 1;
    }
    proof {
        lemma_first_monitor(monitors@, pointer, i as int);
    }
    None
}

/// The lowest start an item may have on an axis: the area's start plus the
/// margin (a negative margin counts as none).
pub open spec fn axis_lower(area_start: i32, margin: i32) -> int {
    saturate(area_start + if margin < 0 {
        0
    } else {
        margin as int
    })
}

/// The highest start that keeps the item and the margin inside the area.
pub open spec fn axis_upper(item_size: i32, area_start: i32, area_size: i32, margin: i32) -> int {
    saturate(
        saturate(saturate(area_start + area_size) - item_size) - if margin < 0 {
            0
        } else {
            margin as int
        },
    )
}

/// Where an item starts on one axis: the desired start limited to the
/// range that keeps it and the margin inside the area, or the area's start
/// when the item does not fit.
pub open spec fn clamped_axis(
    desired: i32,
    item_size: i32,
    area_start: i32,
    area_size: i32,
    margin: i32,
) -> int {
    let lower = axis_lower(area_start, margin);
    let upper = axis_upper(item_size, area_start, area_size, margin);
    if upper < lower {
        area_start as int
    } else if desired < lower {
        lower
    } else if desired > upper {
        upper
    } else {
        desired as int
    }
}

pub(crate) fn clamp_axis(
    desired: i32,
    item_size: i32,
    area_start: i32,
    area_size: i32,
    margin: i32,
) -> (start: i32)
    ensures
        start == clamped_axis(desired, item_size, area_start, area_size, margin),
{
    let margin = if margin < 0 { 0 } else { margin };
    let lower = saturating_add(area_start, margin);
    let upper = saturating_sub(
        saturating_sub(saturating_add(area_start, area_size), item_size),
        margin,
    );
    if upper < lower {
        area_start
    } else if desired < lower {
        lower
    } else if desired > upper {
        upper
    } else {
        desired
    }
}

pub open spec fn clamped_origin(desired: Point, popup: Size, monitor: Rect, margin: i32) -> Point {
    Point {
        x: clamped_axis(desired.x, popup.width, monitor.x, monitor.width, margin) as i32,
        y: clamped_axis(desired.y, popup.height, monitor.y, monitor.height, margin) as i32,
    }
}

/// The popup's origin: the desired one, moved as little as needed to keep
/// the popup and the margin on the monitor, or the monitor's origin on an
/// axis where the popup does not fit.
pub fn clamp_popup_origin(desired: Point, popup: Size, monitor: Rect, margin: i32) -> (origin: Point)
    ensures
        origin == clamped_origin(desired, popup, monitor, margin),
{
    Point {
        x: clamp_axis(desired.x, popup.width, monitor.x, monitor.width, margin),
        y: clamp_axis(desired.y, popup.height, monitor.y, monitor.height, margin),
    }
}

/// On an axis where the item and the margins fit, the result keeps the item
/// and the margin inside the area, and a desired start that already does so
/// is kept; where they do not fit, the item starts at the area's start.
/// (Saturation is ruled out: the area and the item lie within `i32`.)
pub proof fn law_clamp_axis_keeps_item_inside(
    desired: i32,
    item_size: i32,
    area_start: i32,
    area_size: i32,
    margin: i32,
)
    requires
        item_size >= 0,
        area_size >= 0,
        margin >= 0,
        area_start + area_size <= i32::MAX,
        area_start + margin <= i32::MAX,
    ensures
        ({
            let start = clamped_axis(desired, item_size, area_start, area_size, margin);
            if item_size + 2 * margin <= area_size {
                &&& area_start + margin <= start
                &&& start + item_size + margin <= area_start + area_size
                &&& (area_start + margin <= desired && desired + item_size + margin <= area_start
                    + area_size ==> start == desired)
            } else {
                start == area_start
            }
        }),
{
}

} // verus!
