//! The popup's decisions, apart from its widgets: which row is selected
//! after a change, where the arrow keys move, what a key press does, what
//! the empty list says, and when the popup hides itself.
use vstd::prelude::*;

use crate::history::model::HistoryItemId;
use crate::history::order::{first_index, id_is};
use crate::history::service::{set_pinned_outcome, HistoryChange, TextHistory};
use crate::text::{char_is_control, is_control, push_char};

verus! {

/// Where keyboard focus goes after an arrow key.
#[derive(Clone, Copy, Debug, Eq, PartialEq, Structural)]
pub enum SelectionMove {
    FocusSearch,
    FocusRow(usize),
}

pub open spec fn selection_move_of(count: nat, current: Option<usize>, delta: i32) -> SelectionMove {
    if count == 0 {
        SelectionMove::FocusSearch
    } else {
        match current {
            None => SelectionMove::FocusRow(0),
            Some(c) => if delta < 0 && c == 0 {
                SelectionMove::FocusSearch
            } else if delta > 0 {
                SelectionMove::FocusRow(if c + 1 < count { (c + 1) as usize } else { (count - 1) as usize })
            } else {
                SelectionMove::FocusRow(if c == 0 { 0 } else { (c - 1) as usize })
            },
        }
    }
}

/// Moves the selection among `count` results. With nothing shown the search
/// field gets the focus; without a selection the first result is the
/// target; up from the first result returns to the search field; down
/// advances from the current selection, stopping at the last result.
pub fn move_selection(count: usize, current: Option<usize>, delta: i32) -> (target: SelectionMove)
    ensures
        target == selection_move_of(count as nat, current, delta),
{
    if count == 0 {
        return SelectionMove::FocusSearch;
    }
    let c = match current {
        None => {
            return SelectionMove::FocusRow(0);
        },
        Some(c) => c,
    };
    if delta < 0 && c == 0 {
        return SelectionMove::FocusSearch;
    }
    if delta > 0 {
        SelectionMove::FocusRow(if c < count - 1 { c + 1 } else { count - 1 })
    } else {
        SelectionMove::FocusRow(if c == 0 { 0 } else { c - 1 })
    }
}

/// The row selected after the list is rebuilt: the preferred entry's row if
/// it is still shown, else the fallback position, never past the last row.
/// `None` when nothing is shown (the search field gets the focus).
pub fn restored_selection(count: usize, preferred: Option<usize>, fallback: usize) -> (index: Option<
    usize,
>)
    ensures
        index == if count == 0 {
            None
        } else {
            let wanted = match preferred {
                Some(p) => p,
                None => fallback,
            };
            Some(if wanted < count { wanted } else { (count - 1) as usize })
        },
{
    if count == 0 {
        return None;
    }
    let wanted = match preferred {
        Some(p) => p,
        None => fallback,
    };
    Some(if wanted < count { wanted } else { count - 1 })
}

/// Position of `id` among the shown entries.
pub fn index_of(visible: &[HistoryItemId], id: HistoryItemId) -> (index: Option<usize>)
    ensures
        match index {
            Some(i) => i < visible@.len() && visible@[i as int]@ == id@ && forall|k: int|
                0 <= k < i ==> #[trigger] visible@[k]@ != id@,
            None => forall|k: int| 0 <= k < visible@.len() ==> #[trigger] visible@[k]@ != id@,
        },
{
    let mut i: usize = 0;
    while i < visible.len()
        invariant
            i <= visible@.len(),
            forall|k: int| 0 <= k < i ==> #[trigger] visible@[k]@ != id@,
        decreases visible.len() - i,
    {
        if visible[i].value() == id.value() {
            return Some(i);
        }
        i = i + 1;
    }
    None
}

/// The entry shown at a row index, if there is one.
pub fn id_at(visible: &[HistoryItemId], index: i32) -> (id: Option<HistoryItemId>)
    ensures
        id == if 0 <= index < visible@.len() {
            Some(visible@[index as int])
        } else {
            None
        },
{
    if index < 0 {
        return None;
    }
    let i = index as usize;
    if i < visible.len() {
        Some(visible[i])
    } else {
        None
    }
}

/// What the empty list says: nothing copied yet, or nothing matching.
pub fn placeholder_text(history_is_empty: bool) -> (text: (&'static str, &'static str))
    ensures
        history_is_empty ==> text.0@ == "Clipboard history is empty"@ && text.1@
            == "Copy something and it will appear here."@,
        !history_is_empty ==> text.0@ == "No matches"@ && text.1@
            == "Try a different search term."@,
{
    if history_is_empty {
        ("Clipboard history is empty", "Copy something and it will appear here.")
    } else {
        ("No matches", "Try a different search term.")
    }
}

/// The keys the popup handles itself; every other key is `Other`.
#[derive(Clone, Copy, Debug, Eq, PartialEq, Structural)]
pub enum PopupKey {
    Escape,
    Up,
    Down,
    /// Return, keypad Enter or ISO Enter.
    Enter,
    /// Space or keypad space.
    Space,
    /// Delete or keypad Delete.
    Delete,
    /// `f` or `F`.
    LetterF,
    /// `p` or `P`.
    LetterP,
    Other,
}

/// What a key press does.
#[derive(Clone, Copy, Debug, Eq, PartialEq, Structural)]
pub enum KeyAction {
    /// Hide the popup.
    Hide,
    /// Clear the search and focus it.
    ClearSearch,
    /// Move the selection by this many rows.
    Move(i32),
    /// Let the focused widget handle the key.
    Proceed,
    /// Restore the selected entry.
    RestoreSelected,
    /// Delete the selected entry.
    DeleteSelected,
    /// Focus the search field and select its text.
    FocusSearch,
    /// Pin or unpin the selected entry.
    TogglePinSelected,
    /// Type the key into the search field.
    ForwardToSearch,
}

/// The key's action, given the modifiers and where the focus is.
///
/// Enter and Space belong to a focused control that activates itself (a row
/// action or the menu button), so the window shortcuts never shadow it.
/// Escape clears a non-empty search before it hides the popup. Delete only
/// acts while the result list has the focus.
pub open spec fn key_action_of(
    key: PopupKey,
    control: bool,
    alt: bool,
    focus_owns_activation: bool,
    focus_in_list: bool,
    search_empty: bool,
) -> KeyAction {
    match key {
        PopupKey::Escape => if search_empty {
            KeyAction::Hide
        } else {
            KeyAction::ClearSearch
        },
        PopupKey::Up => KeyAction::Move(-1i32),
        PopupKey::Down => KeyAction::Move(1i32),
        PopupKey::Enter => if focus_owns_activation {
            KeyAction::Proceed
        } else {
            KeyAction::RestoreSelected
        },
        _ => if key == PopupKey::Space && focus_owns_activation {
            KeyAction::Proceed
        } else if key == PopupKey::Delete && focus_in_list {
            KeyAction::DeleteSelected
        } else if key == PopupKey::LetterF && control {
            KeyAction::FocusSearch
        } else if key == PopupKey::LetterP && control {
            KeyAction::TogglePinSelected
        } else if control || alt {
            KeyAction::Proceed
        } else {
            KeyAction::ForwardToSearch
        },
    }
}

pub fn key_action(
    key: PopupKey,
    control: bool,
    alt: bool,
    focus_owns_activation: bool,
    focus_in_list: bool,
    search_empty: bool,
) -> (action: KeyAction)
    ensures
        action == key_action_of(key, control, alt, focus_owns_activation, focus_in_list, search_empty),
{
    match key {
        PopupKey::Escape => if search_empty {
            KeyAction::Hide
        } else {
            KeyAction::ClearSearch
        },
        PopupKey::Up => KeyAction::Move(-1),
        PopupKey::Down => KeyAction::Move(1),
        PopupKey::Enter => if focus_owns_activation {
            KeyAction::Proceed
        } else {
            KeyAction::RestoreSelected
        },
        _ => if key == PopupKey::Space && focus_owns_activation {
            KeyAction::Proceed
        } else if key == PopupKey::Delete && focus_in_list {
            KeyAction::DeleteSelected
        } else if key == PopupKey::LetterF && control {
            KeyAction::FocusSearch
        } else if key == PopupKey::LetterP && control {
            KeyAction::TogglePinSelected
        } else if control || alt {
            KeyAction::Proceed
        } else {
            KeyAction::ForwardToSearch
        },
    }
}

/// The search text after typing a key into it from elsewhere in the popup:
/// the character appended, or nothing when the key has no printable
/// character.
pub fn forwarded_search_text(current: &str, character: Option<char>) -> (text: Option<String>)
    ensures
        match character {
            Some(c) => if is_control(c) {
                text is None
            } else {
                text matches Some(t) && t@ == current@.push(c)
            },
            None => text is None,
        },
{
    match character {
        Some(c) => {
            if char_is_control(c) {
                None
            } else {
                let mut text = String::from_str(current);
                push_char(&mut text, c);
                Some(text)
            }
        },
        None => None,
    }
}

/// Pins the entry if it is unpinned, unpins it if it is pinned (an unknown
/// identifier is pinned, which the history rejects).
pub fn toggle_pin(history: &mut TextHistory, id: HistoryItemId) -> (change: HistoryChange)
    requires
        old(history).wf(),
    ensures
        final(history).wf(),
        ({
            let s = old(history)@.items;
            let i = first_index(s, id_is(id@));
            (final(history)@, change) == set_pinned_outcome(old(history)@, id@, !(i >= 0 && s[i].pinned))
        }),
{
    let pinned = match history.item(id) {
        Some(item) => item.is_pinned(),
        None => false,
    };
    if pinned {
        history.unpin(id)
    } else {
        history.pin(id)
    }
}

/// When the popup hides itself. It hides when its window is inactive and
/// none of its own surfaces (the menu, the confirmation dialog) is open;
/// while one is, an inactive window is only noted and checked again once
/// the last surface closes. A window that went inactive but still holds the
/// keyboard focus (a desktop shortcut's grab) stays.
#[derive(Clone, Copy, Debug, Eq, PartialEq, Structural)]
pub struct AutoHide {
    depth: u32,
    deferred: bool,
}

impl View for AutoHide {
    type V = (u32, bool);

    closed spec fn view(&self) -> (u32, bool) {
        (self.depth, self.deferred)
    }
}

/// What an activation change asks for.
#[derive(Clone, Copy, Debug, Eq, PartialEq, Structural)]
pub enum ActivityCheck {
    /// Keep the popup.
    Stay,
    /// The popup hides unless it still holds the keyboard focus; ask the
    /// platform.
    AskFocus,
}

impl AutoHide {
    pub fn new() -> (auto_hide: Self)
        ensures
            auto_hide@ == (0u32, false),
    {
        Self { depth: 0, deferred: false }
    }

    /// Opening always starts from a known state, so suppression never stays
    /// stuck from an earlier menu or dialog.
    pub fn reset(&mut self)
        ensures
            final(self)@ == (0u32, false),
    {
        self.depth = 0;
        self.deferred = false;
    }

    /// One of the popup's own surfaces opened.
    pub fn suppress(&mut self)
        ensures
            final(self)@ == (
                if old(self)@.0 < u32::MAX {
                    (old(self)@.0 + 1) as u32
                } else {
                    old(self)@.0
                },
                old(self)@.1,
            ),
    {
        self.depth = if self.depth < u32::MAX { self.depth + 1 } else { self.depth };
    }

    pub fn suppressed(&self) -> (suppressed: bool)
        ensures
            suppressed == (self@.0 > 0),
    {
        self.depth > 0
    }

    /// The window's activation changed.
    pub fn activity_changed(&mut self, is_active: bool) -> (check: ActivityCheck)
        ensures
            is_active ==> check == ActivityCheck::Stay && final(self)@ == (old(self)@.0, false),
            !is_active && old(self)@.0 > 0 ==> check == ActivityCheck::Stay && final(self)@ == (
                old(self)@.0,
                true,
            ),
            !is_active && old(self)@.0 == 0 ==> check == ActivityCheck::AskFocus && final(self)@
                == old(self)@,
    {
        if is_active {
            self.deferred = false;
            return ActivityCheck::Stay;
        }
        if self.depth > 0 {
            self.deferred = true;
            return ActivityCheck::Stay;
        }
        ActivityCheck::AskFocus
    }

    /// A surface closed. Returns whether the activation check has to run
    /// again now: when it was the last one and the window went inactive
    /// meanwhile.
    pub fn release(&mut self) -> (recheck: bool)
        ensures
            final(self)@.0 == if old(self)@.0 > 0 {
                (old(self)@.0 - 1) as u32
            } else {
                0u32
            },
            recheck == (final(self)@.0 == 0 && old(self)@.1),
            final(self)@.1 == (old(self)@.1 && final(self)@.0 != 0),
    {
        self.depth = if self.depth > 0 { self.depth - 1 } else { 0 };
        if self.depth == 0 && self.deferred {
            self.deferred = false;
            return true;
        }
        false
    }
}

/// Whether the popup hides after asking the platform: only a definite "the
/// popup still holds the keyboard focus" keeps it.
pub fn hides_after_focus_answer(keeps_keyboard_focus: Option<bool>) -> (hide: bool)
    ensures
        hide == !(keeps_keyboard_focus == Some(true)),
{
    match keeps_keyboard_focus {
        Some(true) => false,
        _ => true,
    }
}

/// Arrow keys keep the selection among the results: a row target is always
/// a shown row, and only moving up from the first row leaves the list (to
/// the search field).
pub proof fn law_selection_stays_in_results(count: nat, current: usize, delta: i32)
    requires
        count > 0,
        current < count,
    ensures
        match selection_move_of(count, Some(current), delta) {
            SelectionMove::FocusRow(row) => row < count,
            SelectionMove::FocusSearch => delta < 0 && current == 0,
        },
{
}

/// The arrow keys always move the selection by one row, whatever the
/// modifiers and wherever the focus is: Down one row forward, Up one row
/// back, so they move in opposite directions.
pub proof fn law_arrow_keys_move_one_row(
    control: bool,
    alt: bool,
    focus_owns_activation: bool,
    focus_in_list: bool,
    search_empty: bool,
)
    ensures
        key_action_of(
            PopupKey::Down,
            control,
            alt,
            focus_owns_activation,
            focus_in_list,
            search_empty,
        ) == KeyAction::Move(1i32),
        key_action_of(
            PopupKey::Up,
            control,
            alt,
            focus_owns_activation,
            focus_in_list,
            search_empty,
        ) == KeyAction::Move(-1i32),
{
}

/// What the other keys do, whatever else holds: Escape clears a search
/// that holds text and hides the popup otherwise; Enter restores the
/// selection unless a focused control handles it itself; Delete removes the
/// selection while the list has the focus; Ctrl+F focuses the search and
/// Ctrl+P pins or unpins; any other key with Ctrl or Alt is left to the
/// focused widget, and without them it is typed into the search.
pub proof fn law_popup_keys(
    control: bool,
    alt: bool,
    focus_owns_activation: bool,
    focus_in_list: bool,
    search_empty: bool,
)
    ensures
        key_action_of(PopupKey::Escape, control, alt, focus_owns_activation, focus_in_list, true)
            == KeyAction::Hide,
        key_action_of(PopupKey::Escape, control, alt, focus_owns_activation, focus_in_list, false)
            == KeyAction::ClearSearch,
        key_action_of(PopupKey::Enter, control, alt, false, focus_in_list, search_empty)
            == KeyAction::RestoreSelected,
        key_action_of(PopupKey::Enter, control, alt, true, focus_in_list, search_empty)
            == KeyAction::Proceed,
        key_action_of(PopupKey::Delete, control, alt, focus_owns_activation, true, search_empty)
            == KeyAction::DeleteSelected,
        key_action_of(PopupKey::LetterF, true, alt, focus_owns_activation, focus_in_list, search_empty)
            == KeyAction::FocusSearch,
        key_action_of(PopupKey::LetterP, true, alt, focus_owns_activation, focus_in_list, search_empty)
            == KeyAction::TogglePinSelected,
        key_action_of(PopupKey::Other, control, alt, focus_owns_activation, focus_in_list, search_empty)
            == if control || alt {
            KeyAction::Proceed
        } else {
            KeyAction::ForwardToSearch
        },
{
}

} // verus!
