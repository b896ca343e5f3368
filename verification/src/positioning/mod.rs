//! Placing the popup near the pointer where the platform allows it, and the
//! session diagnostics that decide whether it does.
//!
//! Only X11 lets a client place its own toplevel; elsewhere the compositor
//! places the popup. The X11 requests run outside the library; the choices
//! around them, the placement arithmetic and the log lines are here.
pub mod geometry;

use vstd::prelude::*;

use crate::text::{
    contains_ignore_ascii_case, decimal, eq_ignore_ascii_case, push_decimal,
    str_contains_ignore_ascii_case, str_eq_ignore_ascii_case,
};
use geometry::{
    clamp_popup_origin, clamped_origin, first_monitor, lemma_first_monitor_found,
    monitor_at_pointer, rect_contains, saturate,
    saturating_add, Point, Rect, Size,
};

verus! {

/// How far from the pointer the popup's origin is placed, on both axes.
pub const POINTER_OFFSET: i32 = 16;

/// The gap kept between the popup and the monitor's edges.
pub const MONITOR_MARGIN: i32 = 12;

/// How many parents a focus check walks up before giving up.
pub const MAX_ANCESTOR_STEPS: u32 = 8;

#[derive(Clone, Copy, Debug, Eq, PartialEq, Structural)]
pub enum DisplayBackend {
    Wayland,
    X11,
    Unknown,
}

pub open spec fn backend_label(backend: DisplayBackend) -> Seq<char> {
    match backend {
        DisplayBackend::Wayland => "wayland"@,
        DisplayBackend::X11 => "x11"@,
        DisplayBackend::Unknown => "unknown"@,
    }
}

impl DisplayBackend {
    pub fn label(self) -> (label: &'static str)
        ensures
            label@ == backend_label(self),
    {
        match self {
            DisplayBackend::Wayland => "wayland",
            DisplayBackend::X11 => "x11",
            DisplayBackend::Unknown => "unknown",
        }
    }
}

/// The backend a display type name stands for: one naming Wayland, else
/// one naming X11, compared without ASCII case.
pub open spec fn backend_of_display_type(display_type: Seq<char>) -> DisplayBackend {
    if contains_ignore_ascii_case(display_type, "wayland"@) {
        DisplayBackend::Wayland
    } else if contains_ignore_ascii_case(display_type, "x11"@) {
        DisplayBackend::X11
    } else {
        DisplayBackend::Unknown
    }
}

pub fn backend_for_display_type(display_type: &str) -> (backend: DisplayBackend)
    ensures
        backend == backend_of_display_type(display_type@),
{
    proof {
        reveal_strlit("wayland");
        reveal_strlit("x11");
    }
    if str_contains_ignore_ascii_case(display_type, "wayland") {
        DisplayBackend::Wayland
    } else if str_contains_ignore_ascii_case(display_type, "x11") {
        DisplayBackend::X11
    } else {
        DisplayBackend::Unknown
    }
}

/// Whether this session's X11 path is the validated one (a native X11
/// session) or runs through Xwayland.
#[derive(Clone, Copy, Debug, Eq, PartialEq, Structural)]
pub enum X11PathStatus {
    Working,
    Experimental,
}

pub open spec fn status_label(status: X11PathStatus) -> Seq<char> {
    match status {
        X11PathStatus::Working => "working"@,
        X11PathStatus::Experimental => "experimental"@,
    }
}

impl X11PathStatus {
    pub fn label(self) -> (label: &'static str)
        ensures
            label@ == status_label(self),
    {
        match self {
            X11PathStatus::Working => "working",
            X11PathStatus::Experimental => "experimental",
        }
    }
}

/// What the session reports about itself.
#[derive(Clone, Debug, Eq, PartialEq)]
pub struct SessionDiagnostics {
    session_type: String,
    backend: DisplayBackend,
    display_type: String,
}

/// The mathematical value of [`SessionDiagnostics`].
pub struct DiagnosticsView {
    pub session_type: Seq<char>,
    pub backend: DisplayBackend,
    pub display_type: Seq<char>,
}

impl View for SessionDiagnostics {
    type V = DiagnosticsView;

    closed spec fn view(&self) -> DiagnosticsView {
        DiagnosticsView {
            session_type: self.session_type@,
            backend: self.backend,
            display_type: self.display_type@,
        }
    }
}

pub open spec fn diagnostics_line(d: DiagnosticsView) -> Seq<char> {
    "lionclip: diagnostics session="@ + d.session_type + " gdk_backend="@ + backend_label(d.backend)
        + " gdk_display_type="@ + d.display_type
}

pub open spec fn x11_status_of(session_type: Seq<char>) -> X11PathStatus {
    if eq_ignore_ascii_case(session_type, "x11"@) {
        X11PathStatus::Working
    } else {
        X11PathStatus::Experimental
    }
}

impl SessionDiagnostics {
    pub fn from_parts(session_type: String, backend: DisplayBackend, display_type: String) -> (d:
        Self)
        ensures
            d@ == (DiagnosticsView {
                session_type: session_type@,
                backend,
                display_type: display_type@,
            }),
    {
        Self { session_type, backend, display_type }
    }

    /// Diagnostics from `XDG_SESSION_TYPE` (missing reads as "unknown") and
    /// the default display's type name (none reads as "unavailable").
    pub fn from_session(session_type: Option<String>, display_type: Option<String>) -> (d: Self)
        ensures
            d@.session_type == match session_type {
                Some(s) => s@,
                None => "unknown"@,
            },
            match display_type {
                Some(t) => d@.display_type == t@ && d@.backend == backend_of_display_type(t@),
                None => d@.display_type == "unavailable"@ && d@.backend == DisplayBackend::Unknown,
            },
    {
        let session_type = match session_type {
            Some(s) => s,
            None => String::from_str("unknown"),
        };
        match display_type {
            Some(t) => {
                let backend = backend_for_display_type(t.as_str());
                Self { session_type, backend, display_type: t }
            },
            None => Self {
                session_type,
                backend: DisplayBackend::Unknown,
                display_type: String::from_str("unavailable"),
            },
        }
    }

    pub fn backend(&self) -> (backend: DisplayBackend)
        ensures
            backend == self@.backend,
    {
        self.backend
    }

    pub fn is_x11(&self) -> (x11: bool)
        ensures
            x11 == (self@.backend == DisplayBackend::X11),
    {
        self.backend == DisplayBackend::X11
    }

    /// A native X11 session is the validated path; X11 reached any other
    /// way (Xwayland) is experimental.
    pub fn x11_status(&self) -> (status: X11PathStatus)
        ensures
            status == x11_status_of(self@.session_type),
    {
        if str_eq_ignore_ascii_case(self.session_type.as_str(), "x11") {
            X11PathStatus::Working
        } else {
            X11PathStatus::Experimental
        }
    }

    pub fn log_line(&self) -> (line: String)
        ensures
            line@ == diagnostics_line(self@),
    {
        let mut line = String::from_str("lionclip: diagnostics session=");
        line.append(self.session_type.as_str());
        line.append(" gdk_backend=");
        line.append(self.backend.label());
        line.append(" gdk_display_type=");
        line.append(self.display_type.as_str());
        line
    }
}

/// The pointer sample a placement was computed from.
///
/// The popup is placed twice while opening, and the pointer keeps moving in
/// between. Reusing the first sample for the second placement keeps both
/// results identical, so the popup cannot appear to jump towards a pointer
/// that has already moved on.
#[derive(Clone, Copy, Debug, Eq, PartialEq, Structural)]
pub struct PointerAnchor(Point);

impl View for PointerAnchor {
    type V = Point;

    closed spec fn view(&self) -> Point {
        self.0
    }
}

impl PointerAnchor {
    pub fn new(point: Point) -> (anchor: Self)
        ensures
            anchor@ == point,
    {
        PointerAnchor(point)
    }

    pub fn point(self) -> (point: Point)
        ensures
            point == self@,
    {
        self.0
    }
}

/// Why X11 placement could not run.
#[derive(Clone, Copy, Debug, Eq, PartialEq, Structural)]
pub enum PositionError {
    SurfaceUnavailable,
    Connection,
    Query,
    Placement,
}

pub open spec fn reason_of(error: PositionError) -> Seq<char> {
    match error {
        PositionError::SurfaceUnavailable => "x11-surface-unavailable"@,
        PositionError::Connection => "x11-connection-failed"@,
        PositionError::Query => "x11-query-failed"@,
        PositionError::Placement => "x11-placement-failed"@,
    }
}

/// The logged reason for a failed X11 placement: a fixed word per failure,
/// never the text of an outside error.
pub fn sanitize_reason(error: PositionError) -> (reason: String)
    ensures
        reason@ == reason_of(error),
{
    String::from_str(
        match error {
            PositionError::SurfaceUnavailable => "x11-surface-unavailable",
            PositionError::Connection => "x11-connection-failed",
            PositionError::Query => "x11-query-failed",
            PositionError::Placement => "x11-placement-failed",
        },
    )
}

/// Where the popup went, or why the compositor places it.
#[derive(Clone, Debug, Eq, PartialEq)]
pub enum PlacementOutcome {
    X11Pointer { x: i32, y: i32, monitor: Rect, status: X11PathStatus, anchor: PointerAnchor },
    CompositorFallback { reason: String },
}

pub open spec fn x11_line(x: i32, y: i32, monitor: Rect, status: X11PathStatus) -> Seq<char> {
    "lionclip: placement backend=x11-pointer status="@ + status_label(status)
        + " result=placed x="@ + decimal(x as int) + " y="@ + decimal(y as int) + " monitor="@
        + decimal(monitor.width as int) + "x"@ + decimal(monitor.height as int) + "+"@ + decimal(
        monitor.x as int,
    ) + "+"@ + decimal(monitor.y as int)
}

pub open spec fn fallback_line(reason: Seq<char>) -> Seq<char> {
    "lionclip: placement backend=compositor-fallback status=not-available reason="@ + reason
}

impl PlacementOutcome {
    /// The pointer sample this placement used, when there was one.
    pub fn anchor(&self) -> (anchor: Option<PointerAnchor>)
        ensures
            anchor == match self {
                PlacementOutcome::X11Pointer { anchor, .. } => Some(*anchor),
                PlacementOutcome::CompositorFallback { .. } => None,
            },
    {
        match self {
            PlacementOutcome::X11Pointer { anchor, .. } => Some(*anchor),
            PlacementOutcome::CompositorFallback { .. } => None,
        }
    }

    pub fn log_line(&self) -> (line: String)
        ensures
            line@ == match self {
                PlacementOutcome::X11Pointer { x, y, monitor, status, .. } => x11_line(
                    *x,
                    *y,
                    *monitor,
                    *status,
                ),
                PlacementOutcome::CompositorFallback { reason } => fallback_line(reason@),
            },
    {
        match self {
            PlacementOutcome::X11Pointer { x, y, monitor, status, .. } => {
                let mut line = String::from_str("lionclip: placement backend=x11-pointer status=");
                line.append(status.label());
                line.append(" result=placed x=");
                push_decimal(&mut line, *x as i64);
                line.append(" y=");
                push_decimal(&mut line, *y as i64);
                line.append(" monitor=");
                push_decimal(&mut line, monitor.width as i64);
                line.append("x");
                push_decimal(&mut line, monitor.height as i64);
                line.append("+");
                push_decimal(&mut line, monitor.x as i64);
                line.append("+");
                push_decimal(&mut line, monitor.y as i64);
                line
            },
            PlacementOutcome::CompositorFallback { reason } => {
                let mut line = String::from_str(
                    "lionclip: placement backend=compositor-fallback status=not-available reason=",
                );
                line.append(reason.as_str());
                line
            },
        }
    }
}

/// How the popup is to be placed on this session.
#[derive(Clone, Debug, Eq, PartialEq)]
pub enum PlacementPlan {
    /// Place it near the pointer over X11.
    X11(X11PathStatus),
    /// Leave it to the compositor, for this reason.
    Fallback(String),
}

/// Picks the placement backend once from the session diagnostics.
#[derive(Clone, Copy, Debug)]
pub struct Positioner {
    backend: DisplayBackend,
    x11_status: X11PathStatus,
}

impl View for Positioner {
    type V = (DisplayBackend, X11PathStatus);

    closed spec fn view(&self) -> (DisplayBackend, X11PathStatus) {
        (self.backend, self.x11_status)
    }
}

impl Positioner {
    pub fn new(diagnostics: &SessionDiagnostics) -> (positioner: Self)
        ensures
            positioner@ == (diagnostics@.backend, x11_status_of(diagnostics@.session_type)),
    {
        Self { backend: diagnostics.backend(), x11_status: diagnostics.x11_status() }
    }

    /// Near the pointer on X11; the compositor's choice elsewhere, since
    /// Wayland does not let a client place its own toplevel.
    pub fn plan(&self) -> (plan: PlacementPlan)
        ensures
            match self@.0 {
                DisplayBackend::X11 => plan == PlacementPlan::X11(self@.1),
                DisplayBackend::Wayland => plan matches PlacementPlan::Fallback(reason) && reason@
                    == "wayland-does-not-allow-absolute-toplevel-placement"@,
                DisplayBackend::Unknown => plan matches PlacementPlan::Fallback(reason) && reason@
                    == "unsupported-gdk-backend"@,
            },
    {
        match self.backend {
            DisplayBackend::X11 => PlacementPlan::X11(self.x11_status),
            DisplayBackend::Wayland => PlacementPlan::Fallback(
                String::from_str("wayland-does-not-allow-absolute-toplevel-placement"),
            ),
            DisplayBackend::Unknown => PlacementPlan::Fallback(
                String::from_str("unsupported-gdk-backend"),
            ),
        }
    }

    /// Whether the platform can tell if the popup still owns the keyboard
    /// focus; elsewhere the caller relies on the toplevel's own state.
    pub fn can_query_keyboard_focus(&self) -> (answerable: bool)
        ensures
            answerable == (self@.0 == DisplayBackend::X11),
    {
        self.backend == DisplayBackend::X11
    }
}

/// The monitors a RandR reply describes, without empty ones, or `None`
/// when none is left, so the caller falls back to the whole screen.
pub fn usable_monitors(monitors: &[Rect]) -> (usable: Option<Vec<Rect>>)
    ensures
        match usable {
            Some(kept) => kept@.len() > 0 && kept@ == monitors@.filter(
                |r: Rect| r.width > 0 && r.height > 0,
            ),
            None => monitors@.filter(|r: Rect| r.width > 0 && r.height > 0).len() == 0,
        },
{
    let ghost keep = |r: Rect| r.width > 0 && r.height > 0;
    let mut kept: Vec<Rect> = Vec::new();
    let mut i: usize = 0;
    assert(monitors@.take(0).filter(keep) =~= Seq::<Rect>::empty()) by {
        reveal(Seq::filter);
    }
    while i < monitors.len()
        invariant
            i <= monitors@.len(),
            keep == (|r: Rect| r.width > 0 && r.height > 0),
            kept@ == monitors@.take(i as int).filter(keep),
        decreases monitors.len() - i,
    {
        let r = monitors[i];
        assert(monitors@.take(i + 1) =~= monitors@.take(i as int).push(r));
        proof {
            monitors@.take(i as int).lemma_filter_push(r, keep);
        }
        if r.width > 0 && r.height > 0 {
            kept.push(r);
        }
        i = i + 1;
    }
    assert(monitors@.take(i as int) =~= monitors@);
    if kept.len() == 0 {
        None
    } else {
        Some(kept)
    }
}

/// Where the popup goes near `pointer`: offset from it, then kept on the
/// first monitor that contains the pointer. `None` when no monitor does.
pub open spec fn pointer_placement_of(monitors: Seq<Rect>, pointer: Point, popup: Size) -> Option<
    (Point, Rect),
> {
    let i = first_monitor(monitors, pointer);
    if i < 0 {
        None
    } else {
        let desired = Point {
            x: saturate(pointer.x + POINTER_OFFSET) as i32,
            y: saturate(pointer.y + POINTER_OFFSET) as i32,
        };
        Some((clamped_origin(desired, popup, monitors[i], MONITOR_MARGIN), monitors[i]))
    }
}

/// The popup's origin and the monitor it is kept on.
pub fn pointer_placement(monitors: &[Rect], pointer: Point, popup: Size) -> (placed: Option<
    (Point, Rect),
>)
    ensures
        placed == pointer_placement_of(monitors@, pointer, popup),
{
    let monitor = match monitor_at_pointer(monitors, pointer) {
        Some(monitor) => monitor,
        None => {
            return None;
        },
    };
    let desired = Point {
        x: saturating_add(pointer.x, POINTER_OFFSET),
        y: saturating_add(pointer.y, POINTER_OFFSET),
    };
    Some((clamp_popup_origin(desired, popup, monitor, MONITOR_MARGIN), monitor))
}

/// One step up the window tree from the current window, whose parent the
/// server reported.
#[derive(Clone, Copy, Debug, Eq, PartialEq, Structural)]
pub enum AncestorStep {
    /// The current window is a top-level: its parent is the root or none.
    TopLevel,
    /// The parent is the window looked for.
    Reached,
    /// Go on with the parent.
    Up(u32),
}

/// The step for a window whose parent is `parent`, looking for `target`.
pub fn ancestor_step(parent: u32, root: u32, target: Option<u32>) -> (step: AncestorStep)
    ensures
        step == if parent == 0 || parent == root {
            AncestorStep::TopLevel
        } else if target == Some(parent) {
            AncestorStep::Reached
        } else {
            AncestorStep::Up(parent)
        },
{
    if parent == 0 || parent == root {
        AncestorStep::TopLevel
    } else {
        match target {
            Some(t) => if t == parent {
                AncestorStep::Reached
            } else {
                AncestorStep::Up(parent)
            },
            None => AncestorStep::Up(parent),
        }
    }
}

/// X11's `None` and `PointerRoot` focus values, and the root window itself:
/// no application is meaningfully focused.
pub open spec fn pseudo_focus(focus: u32, root: u32) -> bool {
    focus == 0 || focus == 1 || focus == root
}

pub fn is_pseudo_focus(focus: u32, root: u32) -> (pseudo: bool)
    ensures
        pseudo == pseudo_focus(focus, root),
{
    focus == 0 || focus == 1 || focus == root
}

/// The popup placement stays on the monitor under the pointer: with a
/// popup and margins that fit that monitor, the whole popup lies inside it
/// with the margin to spare. (Monitor edges are required to be within the
/// range of `i32`.)
pub proof fn law_placement_stays_on_monitor(monitors: Seq<Rect>, pointer: Point, popup: Size)
    requires
        forall|k: int|
            0 <= k < monitors.len() ==> #[trigger] monitors[k].x + monitors[k].width <= i32::MAX
                && monitors[k].y + monitors[k].height <= i32::MAX && monitors[k].width >= 0
                && monitors[k].height >= 0 && monitors[k].x + MONITOR_MARGIN <= i32::MAX
                && monitors[k].y + MONITOR_MARGIN <= i32::MAX,
        popup.width >= 0,
        popup.height >= 0,
    ensures
        pointer_placement_of(monitors, pointer, popup) matches Some((origin, monitor)) ==> {
            &&& (popup.width + 2 * MONITOR_MARGIN <= monitor.width ==> monitor.x + MONITOR_MARGIN
                <= origin.x && origin.x + popup.width + MONITOR_MARGIN <= monitor.x
                + monitor.width)
            &&& (popup.height + 2 * MONITOR_MARGIN <= monitor.height ==> monitor.y
                + MONITOR_MARGIN <= origin.y && origin.y + popup.height + MONITOR_MARGIN
                <= monitor.y + monitor.height)
        },
{
    let i = first_monitor(monitors, pointer);
    if i >= 0 {
        lemma_first_monitor_bounds(monitors, pointer);
        let m = monitors[i];
        let desired = Point {
            x: saturate(pointer.x + POINTER_OFFSET) as i32,
            y: saturate(pointer.y + POINTER_OFFSET) as i32,
        };
        geometry::law_clamp_axis_keeps_item_inside(
            desired.x,
            popup.width,
            m.x,
            m.width,
            MONITOR_MARGIN,
        );
        geometry::law_clamp_axis_keeps_item_inside(
            desired.y,
            popup.height,
            m.y,
            m.height,
            MONITOR_MARGIN,
        );
    }
}

proof fn lemma_first_monitor_bounds(monitors: Seq<Rect>, pointer: Point)
    ensures
        -1 <= first_monitor(monitors, pointer) < monitors.len(),
    decreases monitors.len(),
{
    if monitors.len() > 0 {
        lemma_first_monitor_bounds(monitors.drop_first(), pointer);
    }
}

/// The popup goes to the monitor under the pointer: a placement is made
/// exactly when some monitor contains the pointer, and then its monitor
/// contains the pointer and is the first such monitor in the list.
pub proof fn law_placement_uses_the_monitor_under_the_pointer(
    monitors: Seq<Rect>,
    pointer: Point,
    popup: Size,
)
    ensures
        match pointer_placement_of(monitors, pointer, popup) {
            Some((_origin, monitor)) => {
                &&& rect_contains(monitor, pointer)
                &&& exists|k: int|
                    0 <= k < monitors.len() && #[trigger] monitors[k] == monitor && forall|j: int|
                        0 <= j < k ==> !rect_contains(#[trigger] monitors[j], pointer)
            },
            None => forall|k: int|
                0 <= k < monitors.len() ==> !rect_contains(#[trigger] monitors[k], pointer),
        },
{
    lemma_first_monitor_found(monitors, pointer);
    let i = first_monitor(monitors, pointer);
    if i >= 0 {
        assert(monitors[i] == monitors[i]);
    }
}

} // verus!
