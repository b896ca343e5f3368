use lionclip::history::{HistoryChange, HistoryItemId, TextHistory};
use lionclip::popup::navigation::{
    forwarded_search_text, hides_after_focus_answer, id_at, index_of, key_action, move_selection,
    placeholder_text, restored_selection, toggle_pin, ActivityCheck, AutoHide, KeyAction, PopupKey,
    SelectionMove,
};

#[test]
fn arrow_keys_move_within_the_results() {
    assert_eq!(move_selection(0, None, 1), SelectionMove::FocusSearch);
    assert_eq!(move_selection(3, None, -1), SelectionMove::FocusRow(0));
    assert_eq!(move_selection(3, Some(0), -1), SelectionMove::FocusSearch);
    assert_eq!(move_selection(3, Some(0), 1), SelectionMove::FocusRow(1));
    assert_eq!(move_selection(3, Some(2), 1), SelectionMove::FocusRow(2));
    assert_eq!(move_selection(3, Some(2), -1), SelectionMove::FocusRow(1));
}

#[test]
fn the_selection_survives_a_rebuild_where_it_can() {
    assert_eq!(restored_selection(0, Some(1), 0), None);
    assert_eq!(restored_selection(3, Some(1), 0), Some(1));
    assert_eq!(restored_selection(3, None, 5), Some(2));
    assert_eq!(restored_selection(3, None, 0), Some(0));
}

#[test]
fn rows_map_to_entry_identifiers() {
    let visible = [HistoryItemId::new(7), HistoryItemId::new(3)];
    assert_eq!(index_of(&visible, HistoryItemId::new(3)), Some(1));
    assert_eq!(index_of(&visible, HistoryItemId::new(9)), None);
    assert_eq!(id_at(&visible, 0), Some(HistoryItemId::new(7)));
    assert_eq!(id_at(&visible, -1), None);
    assert_eq!(id_at(&visible, 2), None);
}

#[test]
fn the_empty_list_explains_itself() {
    assert_eq!(
        placeholder_text(true),
        ("Clipboard history is empty", "Copy something and it will appear here.")
    );
    assert_eq!(placeholder_text(false), ("No matches", "Try a different search term."));
}

#[test]
fn keys_do_what_the_popup_promises() {
    assert_eq!(key_action(PopupKey::Escape, false, false, false, false, true), KeyAction::Hide);
    assert_eq!(
        key_action(PopupKey::Escape, false, false, false, false, false),
        KeyAction::ClearSearch
    );
    assert_eq!(key_action(PopupKey::Up, false, false, false, true, true), KeyAction::Move(-1));
    assert_eq!(key_action(PopupKey::Enter, false, false, false, true, true), KeyAction::RestoreSelected);
    assert_eq!(key_action(PopupKey::Enter, false, false, true, false, true), KeyAction::Proceed);
    assert_eq!(key_action(PopupKey::Space, false, false, true, false, true), KeyAction::Proceed);
    assert_eq!(key_action(PopupKey::Space, false, false, false, false, true), KeyAction::ForwardToSearch);
    assert_eq!(key_action(PopupKey::Delete, false, false, false, true, true), KeyAction::DeleteSelected);
    assert_eq!(key_action(PopupKey::Delete, false, false, false, false, true), KeyAction::ForwardToSearch);
    assert_eq!(key_action(PopupKey::LetterF, true, false, false, false, true), KeyAction::FocusSearch);
    assert_eq!(key_action(PopupKey::LetterP, true, false, false, true, true), KeyAction::TogglePinSelected);
    assert_eq!(key_action(PopupKey::LetterP, false, false, false, true, true), KeyAction::ForwardToSearch);
    assert_eq!(key_action(PopupKey::Other, false, true, false, false, true), KeyAction::Proceed);
}

#[test]
fn typing_goes_to_the_search_field() {
    assert_eq!(forwarded_search_text("ab", Some('c')), Some("abc".to_owned()));
    assert_eq!(forwarded_search_text("ab", Some('\u{8}')), None);
    assert_eq!(forwarded_search_text("ab", None), None);
}

#[test]
fn toggling_pins_and_unpins() {
    let mut history = TextHistory::default();
    history.record("one".into());
    let id = history.items()[0].id();
    assert_eq!(toggle_pin(&mut history, id), HistoryChange::Applied);
    assert!(history.items()[0].is_pinned());
    assert_eq!(toggle_pin(&mut history, id), HistoryChange::Applied);
    assert!(!history.items()[0].is_pinned());
    assert_eq!(toggle_pin(&mut history, HistoryItemId::new(42)), HistoryChange::Rejected);
}

#[test]
fn the_popup_hides_only_when_nothing_of_its_own_holds_it() {
    let mut auto_hide = AutoHide::new();
    assert_eq!(auto_hide.activity_changed(false), ActivityCheck::AskFocus);
    assert!(hides_after_focus_answer(None));
    assert!(hides_after_focus_answer(Some(false)));
    assert!(!hides_after_focus_answer(Some(true)));

    auto_hide.suppress();
    assert!(auto_hide.suppressed());
    assert_eq!(auto_hide.activity_changed(false), ActivityCheck::Stay);
    assert!(auto_hide.release());
    assert!(!auto_hide.release());

    auto_hide.suppress();
    auto_hide.suppress();
    assert_eq!(auto_hide.activity_changed(false), ActivityCheck::Stay);
    assert!(!auto_hide.release());
    assert!(auto_hide.release());

    auto_hide.suppress();
    assert_eq!(auto_hide.activity_changed(false), ActivityCheck::Stay);
    assert_eq!(auto_hide.activity_changed(true), ActivityCheck::Stay);
    assert!(!auto_hide.release());

    auto_hide.suppress();
    auto_hide.reset();
    assert!(!auto_hide.suppressed());
}
