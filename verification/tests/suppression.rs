use lionclip::clipboard::SelfWriteSuppression;

#[test]
fn matching_text_self_write_is_suppressed_once() {
    let mut suppression = SelfWriteSuppression::default();
    suppression.arm_text("restored text");
    assert!(suppression.should_suppress_text("restored text"));
    assert!(!suppression.should_suppress_text("restored text"));
}

#[test]
fn image_suppression_is_typed_and_one_shot() {
    let mut suppression = SelfWriteSuppression::default();
    suppression.arm_image("abc123");
    assert!(!suppression.should_suppress_text("abc123"));
    suppression.arm_image("abc123");
    assert!(suppression.should_suppress_image("abc123"));
    assert!(!suppression.should_suppress_image("abc123"));
}

#[test]
fn different_external_write_clears_pending_suppression() {
    let mut suppression = SelfWriteSuppression::default();
    suppression.arm_text("restored text");
    assert!(!suppression.should_suppress_text("new external text"));
    assert!(!suppression.should_suppress_text("restored text"));
}

#[test]
fn a_locally_owned_change_is_suppressed_once_without_a_payload() {
    let mut suppression = SelfWriteSuppression::default();
    suppression.arm_text("restored text");
    assert!(suppression.take_self_write());
    assert!(!suppression.take_self_write());
}

#[test]
fn a_locally_owned_change_with_nothing_armed_is_not_suppressed() {
    let mut suppression = SelfWriteSuppression::default();
    assert!(!suppression.take_self_write());
}

#[test]
fn taking_a_self_write_leaves_nothing_for_the_payload_checks() {
    let mut suppression = SelfWriteSuppression::default();
    suppression.arm_image("abc123");
    assert!(suppression.take_self_write());
    assert!(!suppression.should_suppress_image("abc123"));
}

#[test]
fn unsupported_change_cancels_pending_suppression() {
    let mut suppression = SelfWriteSuppression::default();
    suppression.arm_image("abc");
    suppression.cancel();
    assert!(!suppression.should_suppress_image("abc"));
}

#[test]
fn rearming_replaces_the_pending_write() {
    let mut suppression = SelfWriteSuppression::default();
    suppression.arm_text("first");
    suppression.arm_text("second");
    assert!(!suppression.should_suppress_text("first"));
    suppression.arm_text("first");
    suppression.arm_text("second");
    assert!(suppression.should_suppress_text("second"));
}

#[test]
fn a_text_restore_does_not_suppress_an_image_with_the_same_payload() {
    let mut suppression = SelfWriteSuppression::default();
    suppression.arm_text("abc123");
    assert!(!suppression.should_suppress_image("abc123"));
    assert!(!suppression.should_suppress_text("abc123"));
}

#[test]
fn resuming_recording_drops_an_armed_self_write() {
    let mut suppression = SelfWriteSuppression::default();
    suppression.arm_text("restored while paused");
    suppression.recording_setting_changed(true);
    suppression.recording_setting_changed(false);
    assert!(!suppression.should_suppress_text("restored while paused"));

    suppression.arm_text("kept");
    suppression.recording_setting_changed(true);
    assert!(suppression.should_suppress_text("kept"));
}
