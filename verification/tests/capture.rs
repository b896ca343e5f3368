use lionclip::clipboard::capture::{
    change_action, encoded_read_ok, finish_image_capture, finish_text_capture, negotiated_mime,
    preferred_image_mime, ChangeAction, ImageCaptureOutcome, TextCaptureOutcome,
};
use lionclip::clipboard::SelfWriteSuppression;
use lionclip::history::{HistoryUpdate, ImageData, ImageMime, TextHistory};
use lionclip::image_store::MAX_IMAGE_ENCODED_BYTES;

fn image() -> ImageData {
    ImageData::new("c".repeat(64), ImageMime::Png, 10, 2, 2)
}

#[test]
fn a_change_is_ignored_while_recording_is_paused() {
    assert_eq!(change_action(true, true, Some(ImageMime::Png)), ChangeAction::Ignore);
    assert_eq!(
        change_action(false, true, Some(ImageMime::Jpeg)),
        ChangeAction::CaptureImage(ImageMime::Jpeg)
    );
    assert_eq!(change_action(false, false, Some(ImageMime::Png)), ChangeAction::CaptureText);
    assert_eq!(change_action(false, true, None), ChangeAction::CaptureText);
}

#[test]
fn png_is_preferred_and_serialisable_formats_come_last() {
    let offered = vec!["text/plain".to_owned(), "image/jpeg".to_owned(), "image/png".to_owned()];
    assert_eq!(preferred_image_mime(&offered, &[]), Some(ImageMime::Png));
    let jpeg_only = vec!["image/jpeg".to_owned()];
    let png_serialisable = vec!["image/png".to_owned()];
    assert_eq!(preferred_image_mime(&jpeg_only, &png_serialisable), Some(ImageMime::Jpeg));
    assert_eq!(preferred_image_mime(&[], &png_serialisable), Some(ImageMime::Png));
    assert_eq!(preferred_image_mime(&["text/plain".to_owned()], &[]), None);
    assert_eq!(negotiated_mime("image/jpeg", ImageMime::Png), ImageMime::Jpeg);
    assert_eq!(negotiated_mime("image/bmp", ImageMime::Png), ImageMime::Png);
}

#[test]
fn image_reads_are_bounded() {
    assert!(encoded_read_ok(1, false));
    assert!(!encoded_read_ok(0, false));
    assert!(!encoded_read_ok(5, true));
    assert!(encoded_read_ok(MAX_IMAGE_ENCODED_BYTES, false));
    assert!(!encoded_read_ok(MAX_IMAGE_ENCODED_BYTES + 1, false));
}

#[test]
fn a_text_capture_checks_again_after_reading() {
    let mut history = TextHistory::default();
    let mut suppression = SelfWriteSuppression::default();
    let generation = history.generation();

    suppression.arm_text("mine");
    assert_eq!(
        finish_text_capture(&mut history, &mut suppression, false, Some("x".into()), generation, false),
        TextCaptureOutcome::Stale
    );
    assert_eq!(
        finish_text_capture(&mut history, &mut suppression, true, Some("mine".into()), generation, false),
        TextCaptureOutcome::Suppressed
    );
    assert_eq!(
        finish_text_capture(&mut history, &mut suppression, true, Some("x".into()), generation, true),
        TextCaptureOutcome::Paused
    );
    assert_eq!(
        finish_text_capture(&mut history, &mut suppression, true, None, generation, false),
        TextCaptureOutcome::ReadFailed
    );
    assert!(history.items().is_empty());
    assert_eq!(
        finish_text_capture(&mut history, &mut suppression, true, Some("x".into()), generation, false),
        TextCaptureOutcome::Recorded(HistoryUpdate::Inserted)
    );
    assert_eq!(history.clear_all().changed(), true);
    assert_eq!(
        finish_text_capture(&mut history, &mut suppression, true, Some("y".into()), generation, false),
        TextCaptureOutcome::Cleared
    );
    assert!(history.items().is_empty());
}

#[test]
fn an_image_capture_checks_again_before_recording() {
    let mut history = TextHistory::default();
    let mut suppression = SelfWriteSuppression::default();
    let generation = history.generation();

    match finish_image_capture(&mut history, &mut suppression, false, image(), generation, false, true) {
        ImageCaptureOutcome::Stale(stale) => assert_eq!(stale, image()),
        other => panic!("expected a stale capture, got {other:?}"),
    }
    match finish_image_capture(&mut history, &mut suppression, true, image(), generation, false, false) {
        ImageCaptureOutcome::Rejected(rejected) => assert_eq!(rejected, image()),
        other => panic!("expected a rejection, got {other:?}"),
    }
    suppression.arm_image(&"c".repeat(64));
    assert!(matches!(
        finish_image_capture(&mut history, &mut suppression, true, image(), generation, false, true),
        ImageCaptureOutcome::Suppressed
    ));
    assert!(matches!(
        finish_image_capture(&mut history, &mut suppression, true, image(), generation, false, true),
        ImageCaptureOutcome::Recorded(HistoryUpdate::Inserted)
    ));
    assert_eq!(history.items().len(), 1);
    assert!(history.items()[0].image().is_some());
}

#[test]
fn restoring_an_older_entry_does_not_reorder_the_history() {
    let mut history = TextHistory::default();
    let mut suppression = SelfWriteSuppression::default();
    history.record("older".into());
    history.record("newer".into());
    let generation = history.generation();
    let order: Vec<String> = history.items().iter().map(|item| item.text().to_string()).collect();

    suppression.arm_text("older");
    assert_eq!(
        finish_text_capture(&mut history, &mut suppression, true, Some("older".into()), generation, false),
        TextCaptureOutcome::Suppressed
    );
    let after: Vec<String> = history.items().iter().map(|item| item.text().to_string()).collect();
    assert_eq!(after, order);
    assert_eq!(
        finish_text_capture(&mut history, &mut suppression, true, Some("older".into()), generation, false),
        TextCaptureOutcome::Recorded(HistoryUpdate::MovedToFront)
    );
}
