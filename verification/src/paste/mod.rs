//! Auto-paste: restoring the selected entry to the clipboard and, only when
//! it is safe, asking the application that had focus before the popup
//! opened to paste it.
//!
//! There is one real backend (X11) and one unavailable case. The X11
//! requests run outside the library; every decision they feed is here: when
//! a paste is attempted at all, which focus values name no application,
//! which keycodes the paste combination uses, and what an attempt does after
//! each answer from the server.
use vstd::prelude::*;

use crate::positioning::{is_pseudo_focus, pseudo_focus, SessionDiagnostics};

verus! {

/// The keysym of the left Control key.
pub const XK_CONTROL_L: u32 = 0xffe3;

/// The keysym of lower-case `v`.
pub const XK_LOWERCASE_V: u32 = 0x0076;

/// How the popup's selection is handled once the clipboard holds the chosen
/// entry.
#[derive(Clone, Copy, Debug, Eq, PartialEq, Structural)]
pub enum SelectionBehavior {
    RestoreOnly,
    RestoreAndPaste,
}

/// Whether an auto-paste attempt follows a restore: only with auto-paste on,
/// a captured target, and a restore that succeeded. Whether the target is
/// still valid when the user picks an entry is answered later, by the
/// attempt itself.
pub fn decide(auto_paste_enabled: bool, has_target: bool, restore_succeeded: bool) -> (behavior:
    SelectionBehavior)
    ensures
        behavior == if auto_paste_enabled && has_target && restore_succeeded {
            SelectionBehavior::RestoreAndPaste
        } else {
            SelectionBehavior::RestoreOnly
        },
{
    if auto_paste_enabled && has_target && restore_succeeded {
        SelectionBehavior::RestoreAndPaste
    } else {
        SelectionBehavior::RestoreOnly
    }
}

/// The window auto-paste returns focus to.
#[derive(Clone, Copy, Debug, Eq, PartialEq, Structural)]
pub struct PasteTarget {
    xid: u32,
}

impl View for PasteTarget {
    type V = u32;

    closed spec fn view(&self) -> u32 {
        self.xid
    }
}

impl PasteTarget {
    pub fn new(xid: u32) -> (target: Self)
        ensures
            target@ == xid,
    {
        Self { xid }
    }

    pub fn xid(&self) -> (xid: u32)
        ensures
            xid == self@,
    {
        self.xid
    }
}

/// Whether the window holding the focus is something a paste can go to:
/// not one of X11's pseudo-windows and not the root window.
pub fn focus_can_be_target(focus: u32, root: u32) -> (usable: bool)
    ensures
        usable == !pseudo_focus(focus, root),
{
    !is_pseudo_focus(focus, root)
}

/// Whether the target holds the keyboard focus: the focus is on it, or on a
/// window whose top-level it is. `focus_toplevel` is the top-level above
/// the focus, when it could be found.
pub fn target_holds_focus(focus: u32, root: u32, target: u32, focus_toplevel: Option<u32>) -> (holds:
    bool)
    ensures
        holds == (focus == target || (!pseudo_focus(focus, root) && focus_toplevel == Some(
            target,
        ))),
{
    if focus == target {
        return true;
    }
    if is_pseudo_focus(focus, root) {
        return false;
    }
    match focus_toplevel {
        Some(t) => t == target,
        None => false,
    }
}

/// Whether nobody else has taken the focus: it is unset, on the root, or on
/// the popup's own window (which is closing). An unknown own window only
/// accepts a vacant focus.
pub fn focus_vacant_or_own(focus: u32, root: u32, own_window: Option<u32>, focus_toplevel: Option<
    u32,
>) -> (vacant: bool)
    ensures
        vacant == (pseudo_focus(focus, root) || (own_window matches Some(own) && (focus == own
            || focus_toplevel == Some(own)))),
{
    if is_pseudo_focus(focus, root) {
        return true;
    }
    match own_window {
        Some(own) => focus == own || match focus_toplevel {
            Some(t) => t == own,
            None => false,
        },
        None => false,
    }
}

/// The keycodes the paste combination is made of.
#[derive(Clone, Copy, Debug, Eq, PartialEq, Structural)]
pub struct PasteKeys {
    pub control: u8,
    pub v: u8,
}

/// The keysyms of the first keycode in a mapping with `per` keysyms per
/// keycode (the last keycode's group may be short).
pub open spec fn first_group(keysyms: Seq<u32>, per: int) -> Seq<u32> {
    if keysyms.len() <= per {
        keysyms
    } else {
        keysyms.take(per)
    }
}

/// Position of the first keycode whose group holds `keysym`, or -1.
pub open spec fn group_of(keysyms: Seq<u32>, per: int, keysym: u32) -> int
    decreases keysyms.len(),
{
    if per <= 0 || keysyms.len() == 0 {
        -1
    } else if first_group(keysyms, per).contains(keysym) {
        0
    } else if keysyms.len() <= per {
        -1
    } else {
        let rest = group_of(keysyms.skip(per), per, keysym);
        if rest < 0 {
            -1
        } else {
            rest + 1
        }
    }
}

/// The keycode of `keysym` in a mapping that starts at keycode `min`: the
/// first keycode whose group holds it, when that number is a keycode.
pub open spec fn keycode_in(keysyms: Seq<u32>, per: int, min: u8, keysym: u32) -> Option<u8> {
    let p = group_of(keysyms, per, keysym);
    if p >= 0 && min + p <= 255 {
        Some((min + p) as u8)
    } else {
        None
    }
}

fn range_contains(keysyms: &[u32], from: usize, to: usize, keysym: u32) -> (found: bool)
    requires
        from <= to <= keysyms@.len(),
    ensures
        found == keysyms@.subrange(from as int, to as int).contains(keysym),
{
    let ghost chunk = keysyms@.subrange(from as int, to as int);
    let mut j = from;
    while j < to
        invariant
            from <= j <= to <= keysyms@.len(),
            chunk == keysyms@.subrange(from as int, to as int),
            forall|t: int| from <= t < j ==> keysyms@[t] != keysym,
        decreases to - j,
    {
        if keysyms[j] == keysym {
            assert(chunk[j - from] == keysym);
            return true;
        }
        j = j + 1;
    }
    assert forall|t: int| 0 <= t < chunk.len() implies chunk[t] != keysym by {
        assert(chunk[t] == keysyms@[from + t]);
    }
    false
}

pub fn keycode_of(keysyms: &[u32], per_keycode: usize, min: u8, keysym: u32) -> (keycode: Option<u8>)
    requires
        per_keycode > 0,
    ensures
        keycode == keycode_in(keysyms@, per_keycode as int, min, keysym),
{
    let ghost all = keysyms@;
    let per = per_keycode;
    let mut group: usize = 0;
    let mut start: usize = 0;
    assert(all.skip(0) =~= all);
    loop
        invariant
            per == per_keycode,
            per > 0,
            start <= all.len(),
            all == keysyms@,
            group <= start,
            group_of(all, per as int, keysym) == ({
                let rest = group_of(all.skip(start as int), per as int, keysym);
                if rest < 0 {
                    -1
                } else {
                    rest + group
                }
            }),
        decreases all.len() - start,
    {
        let ghost rest = all.skip(start as int);
        if start == keysyms.len() {
            assert(rest.len() == 0);
            return None;
        }
        let end = if keysyms.len() - start <= per { keysyms.len() } else { start + per };
        assert(first_group(rest, per as int) =~= all.subrange(start as int, end as int));
        if range_contains(keysyms, start, end, keysym) {
            if group > 255 || (min as usize) + group > 255 {
                return None;
            }
            return Some(min + group as u8);
        }
        if end == keysyms.len() {
            return None;
        }
        assert(rest.skip(per as int) =~= all.skip(end as int));
        group = group + 1;
        start = end;
    }
}

/// Both keycodes of the paste combination from one keyboard mapping that
/// starts at keycode `min` and has `per_keycode` keysyms per keycode.
pub fn paste_keys(keysyms: &[u32], per_keycode: u8, min: u8) -> (keys: Option<PasteKeys>)
    ensures
        keys == if per_keycode == 0 {
            None
        } else {
            match (
                keycode_in(keysyms@, per_keycode as int, min, XK_CONTROL_L),
                keycode_in(keysyms@, per_keycode as int, min, XK_LOWERCASE_V),
            ) {
                (Some(control), Some(v)) => Some(PasteKeys { control, v }),
                _ => None,
            }
        },
{
    if per_keycode == 0 {
        return None;
    }
    let control = match keycode_of(keysyms, per_keycode as usize, min, XK_CONTROL_L) {
        Some(k) => k,
        None => {
            return None;
        },
    };
    let v = match keycode_of(keysyms, per_keycode as usize, min, XK_LOWERCASE_V) {
        Some(k) => k,
        None => {
            return None;
        },
    };
    Some(PasteKeys { control, v })
}

/// The backend auto-paste uses on this session.
#[derive(Clone, Copy, Debug, Eq, PartialEq, Structural)]
enum Backend {
    X11,
    Unavailable,
}

/// Picks the paste backend once per process from the session diagnostics,
/// the same way placement picks its backend.
#[derive(Clone, Copy, Debug)]
pub struct PasteCoordinator {
    backend: Backend,
}

impl View for PasteCoordinator {
    type V = bool;

    /// Whether the X11 backend was chosen.
    closed spec fn view(&self) -> bool {
        self.backend == Backend::X11
    }
}

impl PasteCoordinator {
    pub fn new(diagnostics: &SessionDiagnostics) -> (coordinator: Self)
        ensures
            coordinator@ == (diagnostics@.backend == crate::positioning::DisplayBackend::X11),
    {
        Self {
            backend: if diagnostics.is_x11() {
                Backend::X11
            } else {
                Backend::Unavailable
            },
        }
    }

    /// Whether this session can attempt auto-paste at all; the preferences
    /// window explains an unavailable toggle instead of offering it.
    pub fn is_available(&self) -> (available: bool)
        ensures
            available == self@,
    {
        self.backend == Backend::X11
    }
}

/// Where a paste attempt stands. Each stage waits for one answer from the
/// server; any failure ends the attempt without sending a key.
#[derive(Clone, Copy, Debug, Eq, PartialEq, Structural)]
pub enum PasteStage {
    /// Ask whether the target window still exists.
    CheckTarget,
    /// Ask whether the target already holds the focus.
    CheckFocus,
    /// Ask whether the focus is vacant or still on the closing popup.
    CheckVacant,
    /// Subscribe to the target's focus changes.
    SelectFocusEvents,
    /// Ask the window manager to activate the target.
    Activate,
    /// Wait, bounded, for the target to gain the focus.
    AwaitFocus,
    /// Resolve the keycodes of the paste combination.
    LookupKeys,
    /// Confirm, right before the keys, that the target still holds the focus.
    RecheckFocus,
    /// Send the key presses and releases.
    Synthesize,
    /// The keys were sent.
    Sent,
    /// The attempt ended without sending anything.
    Abandoned,
}

/// The stage after `stage` got answer `ok`.
pub open spec fn next_stage(stage: PasteStage, ok: bool) -> PasteStage {
    match stage {
        PasteStage::CheckTarget => if ok { PasteStage::CheckFocus } else { PasteStage::Abandoned },
        PasteStage::CheckFocus => if ok { PasteStage::LookupKeys } else { PasteStage::CheckVacant },
        PasteStage::CheckVacant => if ok {
            PasteStage::SelectFocusEvents
        } else {
            PasteStage::Abandoned
        },
        PasteStage::SelectFocusEvents => if ok { PasteStage::Activate } else { PasteStage::Abandoned },
        PasteStage::Activate => if ok { PasteStage::AwaitFocus } else { PasteStage::Abandoned },
        PasteStage::AwaitFocus => if ok { PasteStage::LookupKeys } else { PasteStage::Abandoned },
        PasteStage::LookupKeys => if ok { PasteStage::RecheckFocus } else { PasteStage::Abandoned },
        PasteStage::RecheckFocus => if ok { PasteStage::Synthesize } else { PasteStage::Abandoned },
        PasteStage::Synthesize => if ok { PasteStage::Sent } else { PasteStage::Abandoned },
        PasteStage::Sent => PasteStage::Sent,
        PasteStage::Abandoned => PasteStage::Abandoned,
    }
}

pub open spec fn stage_failure_log(stage: PasteStage) -> Option<Seq<char>> {
    match stage {
        PasteStage::CheckTarget => Some("lionclip: auto-paste skipped stage=target-gone"@),
        PasteStage::CheckVacant => Some(
            "lionclip: auto-paste skipped stage=foreign-window-focused"@,
        ),
        PasteStage::SelectFocusEvents => Some(
            "lionclip: auto-paste failed stage=select-focus-events"@,
        ),
        PasteStage::Activate => Some("lionclip: auto-paste failed stage=activation-request"@),
        PasteStage::AwaitFocus => Some("lionclip: auto-paste skipped stage=focus-not-confirmed"@),
        PasteStage::LookupKeys => Some("lionclip: auto-paste failed stage=keycode-lookup"@),
        PasteStage::RecheckFocus => Some(
            "lionclip: auto-paste skipped stage=focus-lost-before-synthesis"@,
        ),
        PasteStage::Synthesize => Some("lionclip: auto-paste failed stage=key-synthesis"@),
        _ => None,
    }
}

impl PasteStage {
    /// Moves on after the server's answer to this stage. A target that
    /// already holds the focus goes straight to the keys; otherwise the
    /// focus must be vacant or the popup's, so the user's new focus is never
    /// taken away.
    pub fn advance(self, ok: bool) -> (next: PasteStage)
        ensures
            next == next_stage(self, ok),
    {
        match self {
            PasteStage::CheckTarget => if ok { PasteStage::CheckFocus } else { PasteStage::Abandoned },
            PasteStage::CheckFocus => if ok { PasteStage::LookupKeys } else { PasteStage::CheckVacant },
            PasteStage::CheckVacant => if ok {
                PasteStage::SelectFocusEvents
            } else {
                PasteStage::Abandoned
            },
            PasteStage::SelectFocusEvents => if ok {
                PasteStage::Activate
            } else {
                PasteStage::Abandoned
            },
            PasteStage::Activate => if ok { PasteStage::AwaitFocus } else { PasteStage::Abandoned },
            PasteStage::AwaitFocus => if ok { PasteStage::LookupKeys } else { PasteStage::Abandoned },
            PasteStage::LookupKeys => if ok { PasteStage::RecheckFocus } else { PasteStage::Abandoned },
            PasteStage::RecheckFocus => if ok { PasteStage::Synthesize } else { PasteStage::Abandoned },
            PasteStage::Synthesize => if ok { PasteStage::Sent } else { PasteStage::Abandoned },
            PasteStage::Sent => PasteStage::Sent,
            PasteStage::Abandoned => PasteStage::Abandoned,
        }
    }

    /// The line logged when this stage fails, without any payload.
    pub fn failure_log(self) -> (line: Option<&'static str>)
        ensures
            match line {
                Some(l) => stage_failure_log(self) == Some(l@),
                None => stage_failure_log(self) is None,
            },
    {
        match self {
            PasteStage::CheckTarget => Some("lionclip: auto-paste skipped stage=target-gone"),
            PasteStage::CheckVacant => Some("lionclip: auto-paste skipped stage=foreign-window-focused"),
            PasteStage::SelectFocusEvents => Some("lionclip: auto-paste failed stage=select-focus-events"),
            PasteStage::Activate => Some("lionclip: auto-paste failed stage=activation-request"),
            PasteStage::AwaitFocus => Some("lionclip: auto-paste skipped stage=focus-not-confirmed"),
            PasteStage::LookupKeys => Some("lionclip: auto-paste failed stage=keycode-lookup"),
            PasteStage::RecheckFocus => Some(
                "lionclip: auto-paste skipped stage=focus-lost-before-synthesis",
            ),
            PasteStage::Synthesize => Some("lionclip: auto-paste failed stage=key-synthesis"),
            _ => None,
        }
    }

    pub fn is_finished(self) -> (finished: bool)
        ensures
            finished == (self == PasteStage::Sent || self == PasteStage::Abandoned),
    {
        self == PasteStage::Sent || self == PasteStage::Abandoned
    }
}

/// The stages a run of answers leads through, from `stage`.
pub open spec fn run_stages(stage: PasteStage, answers: Seq<bool>) -> PasteStage
    decreases answers.len(),
{
    if answers.len() == 0 {
        stage
    } else {
        run_stages(next_stage(stage, answers[0]), answers.drop_first())
    }
}

/// Whether `stage` is passed on the way to `Sent` along `answers`.
pub open spec fn passes(stage: PasteStage, answers: Seq<bool>, through: PasteStage) -> bool
    decreases answers.len(),
{
    if answers.len() == 0 {
        false
    } else {
        (stage == through && answers[0]) || passes(next_stage(stage, answers[0]), answers.drop_first(), through)
    }
}

/// A paste is only ever sent after the focus was confirmed on the target
/// right before the keys: every run of answers that ends in `Sent` passed
/// the re-check with a positive answer. Keys are never sent once an attempt
/// is abandoned.
pub proof fn law_keys_follow_a_confirmed_focus(stage: PasteStage, answers: Seq<bool>)
    requires
        stage != PasteStage::Sent,
        stage != PasteStage::Synthesize,
    ensures
        run_stages(stage, answers) == PasteStage::Sent ==> passes(stage, answers, PasteStage::RecheckFocus),
        stage == PasteStage::Abandoned ==> run_stages(stage, answers) == PasteStage::Abandoned,
    decreases answers.len(),
{
    if answers.len() > 0 {
        let next = next_stage(stage, answers[0]);
        if next != PasteStage::Sent && next != PasteStage::Synthesize {
            law_keys_follow_a_confirmed_focus(next, answers.drop_first());
        } else if next == PasteStage::Synthesize {
            assert(stage == PasteStage::RecheckFocus && answers[0]);
        }
    }
}

} // verus!
