use lionclip::paste::{
    decide, focus_can_be_target, focus_vacant_or_own, keycode_of, paste_keys, target_holds_focus,
    PasteKeys, PasteStage, SelectionBehavior, XK_CONTROL_L, XK_LOWERCASE_V,
};

#[test]
fn auto_paste_off_never_pastes_regardless_of_target_or_restore_outcome() {
    assert_eq!(decide(false, true, true), SelectionBehavior::RestoreOnly);
    assert_eq!(decide(false, false, true), SelectionBehavior::RestoreOnly);
}

#[test]
fn auto_paste_on_with_a_valid_target_and_successful_restore_pastes() {
    assert_eq!(decide(true, true, true), SelectionBehavior::RestoreAndPaste);
}

#[test]
fn auto_paste_on_without_a_captured_target_only_restores() {
    assert_eq!(decide(true, false, true), SelectionBehavior::RestoreOnly);
}

#[test]
fn a_failed_restore_never_pastes_even_with_auto_paste_on_and_a_valid_target() {
    assert_eq!(decide(true, true, false), SelectionBehavior::RestoreOnly);
}

#[test]
fn pseudo_windows_and_the_root_are_never_paste_targets() {
    let root = 0x100;
    assert!(!focus_can_be_target(0, root));
    assert!(!focus_can_be_target(1, root));
    assert!(!focus_can_be_target(root, root));
    assert!(focus_can_be_target(0x2400007, root));
}

#[test]
fn focus_on_a_child_of_the_target_counts_as_the_target() {
    let root = 0x100;
    assert!(target_holds_focus(0x500, root, 0x500, None));
    assert!(target_holds_focus(0x501, root, 0x500, Some(0x500)));
    assert!(!target_holds_focus(0x601, root, 0x500, Some(0x600)));
    assert!(!target_holds_focus(root, root, root + 1, Some(root + 1)));
}

#[test]
fn only_a_vacant_focus_or_the_closing_popup_allows_activation() {
    let root = 0x100;
    assert!(focus_vacant_or_own(0, root, None, None));
    assert!(focus_vacant_or_own(root, root, None, None));
    assert!(focus_vacant_or_own(0x700, root, Some(0x700), None));
    assert!(focus_vacant_or_own(0x701, root, Some(0x700), Some(0x700)));
    assert!(!focus_vacant_or_own(0x800, root, Some(0x700), Some(0x800)));
    assert!(!focus_vacant_or_own(0x800, root, None, Some(0x800)));
}

#[test]
fn keycodes_come_from_the_first_keycode_holding_the_keysym() {
    // Two keysyms per keycode, keycodes starting at 8.
    let keysyms = [0x61, 0x41, 0x76, 0x56, XK_CONTROL_L, 0, XK_LOWERCASE_V, 0];
    assert_eq!(keycode_of(&keysyms, 2, 8, XK_LOWERCASE_V), Some(9));
    assert_eq!(keycode_of(&keysyms, 2, 8, XK_CONTROL_L), Some(10));
    assert_eq!(keycode_of(&keysyms, 2, 8, 0xffff), None);
    assert_eq!(
        paste_keys(&keysyms, 2, 8),
        Some(PasteKeys { control: 10, v: 9 })
    );
    assert_eq!(paste_keys(&keysyms, 0, 8), None);
}

#[test]
fn a_keycode_past_the_last_one_is_not_used() {
    let keysyms = [0, XK_CONTROL_L];
    assert_eq!(keycode_of(&keysyms, 1, 255, XK_CONTROL_L), None);
    assert_eq!(keycode_of(&keysyms, 1, 254, XK_CONTROL_L), Some(255));
    // A short last group still counts.
    let short = [1, 2, 3, XK_LOWERCASE_V];
    assert_eq!(keycode_of(&short, 3, 8, XK_LOWERCASE_V), Some(9));
}

#[test]
fn a_paste_attempt_follows_the_server_answers() {
    let mut stage = PasteStage::CheckTarget;
    for answer in [true, false, true, true, true, true, true, true, true] {
        stage = stage.advance(answer);
    }
    assert_eq!(stage, PasteStage::Sent);

    let already_focused = PasteStage::CheckTarget.advance(true).advance(true);
    assert_eq!(already_focused, PasteStage::LookupKeys);

    let foreign = PasteStage::CheckFocus.advance(false).advance(false);
    assert_eq!(foreign, PasteStage::Abandoned);
    assert_eq!(
        PasteStage::CheckVacant.failure_log(),
        Some("lionclip: auto-paste skipped stage=foreign-window-focused")
    );
    assert!(foreign.is_finished());
    assert_eq!(PasteStage::Abandoned.advance(true), PasteStage::Abandoned);
    assert_eq!(PasteStage::Sent.failure_log(), None);
}
