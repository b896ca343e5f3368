use lionclip::history::{HistoryItem, HistoryItemId, ImageData, ImageMime, TextHistory};
use lionclip::image_cleanup::{images_dropped, ImageCleanupCoordinator};

fn image() -> ImageData {
    ImageData::new("a".repeat(64), ImageMime::Png, 3, 1, 1)
}

fn hashes(images: &[ImageData]) -> Vec<&str> {
    images.iter().map(ImageData::content_hash).collect()
}

#[test]
fn cleanup_waits_for_active_capture_and_preserves_readded_hash() {
    let image = image();
    let mut cleanup = ImageCleanupCoordinator::new();

    cleanup.begin_capture();
    cleanup.queue(image.clone());
    assert!(cleanup.flush(&[]).is_empty());

    let mut history = TextHistory::default();
    history.record_image(image.clone());
    assert!(cleanup.finish_capture(history.items()).is_empty());

    cleanup.queue(image.clone());
    assert_eq!(hashes(&cleanup.flush(&[])), [image.content_hash()]);
}

#[test]
fn an_image_is_queued_once_per_hash() {
    let mut cleanup = ImageCleanupCoordinator::new();
    cleanup.queue(image());
    cleanup.queue(image());
    cleanup.queue(ImageData::new("b".repeat(64), ImageMime::Jpeg, 3, 1, 1));
    let released = cleanup.flush(&[]);
    assert_eq!(released.len(), 2);
    assert!(cleanup.flush(&[]).is_empty());
}

#[test]
fn a_finish_without_a_begin_releases_nothing() {
    let mut cleanup = ImageCleanupCoordinator::new();
    cleanup.queue(image());
    assert!(cleanup.finish_capture(&[]).is_empty());
    assert_eq!(cleanup.flush(&[]).len(), 1);
}

#[test]
fn nested_captures_hold_cleanup_until_the_last_finishes() {
    let mut cleanup = ImageCleanupCoordinator::new();
    cleanup.begin_capture();
    cleanup.begin_capture();
    cleanup.queue(image());
    assert!(cleanup.finish_capture(&[]).is_empty());
    assert_eq!(cleanup.finish_capture(&[]).len(), 1);
}

#[test]
fn images_dropped_lists_only_images_no_entry_keeps() {
    let kept = ImageData::new("b".repeat(64), ImageMime::Png, 10, 2, 2);
    let gone = ImageData::new("c".repeat(64), ImageMime::Jpeg, 20, 3, 3);
    let before = vec![
        HistoryItem::new_image(HistoryItemId::new(1), kept.clone(), 1, 1, false),
        HistoryItem::new(HistoryItemId::new(2), "text".into(), 2, 2, false),
        HistoryItem::new_image(HistoryItemId::new(3), gone.clone(), 3, 3, false),
    ];
    let after = vec![HistoryItem::new_image(
        HistoryItemId::new(4),
        kept.clone(),
        4,
        4,
        true,
    )];

    let dropped = images_dropped(&before, &after);
    assert_eq!(hashes(&dropped), vec![gone.content_hash()]);
    assert!(images_dropped(&before, &before).is_empty());
    assert_eq!(images_dropped(&before, &[]).len(), 2);
}
