use lionclip::history::{ImageData, ImageMime};
use lionclip::image_store::{
    blob_file_name, check_encoded_length, describe_image, dimensions_allowed, is_expected,
    reconcile_plan, size_prepared, thumbnail_dimensions, thumbnail_file_name, valid_hash,
    ImageStoreError, PreparedSize, MAX_IMAGE_DIMENSION, MAX_IMAGE_ENCODED_BYTES,
};
use lionclip::history::{HistoryItemId, TextHistoryItem};

#[test]
fn thumbnail_size_preserves_aspect_ratio_and_bounds() {
    assert_eq!(thumbnail_dimensions(1920, 1080), (240, 135));
    assert_eq!(thumbnail_dimensions(1080, 1920), (76, 135));
    assert_eq!(thumbnail_dimensions(100, 50), (100, 50));
}

#[test]
fn image_dimension_limits_are_explicit() {
    assert!(dimensions_allowed(1920, 1080));
    assert!(!dimensions_allowed(0, 1080));
    assert!(!dimensions_allowed(MAX_IMAGE_DIMENSION + 1, 1));
    assert!(!dimensions_allowed(10_000, 10_000));
}

#[test]
fn only_lowercase_sha256_keys_are_accepted_for_paths() {
    assert!(valid_hash(&"a".repeat(64)));
    assert!(valid_hash(&"0".repeat(64)));
    assert!(!valid_hash("../escape"));
    assert!(!valid_hash(&"A".repeat(64)));
    assert!(!valid_hash(&"a".repeat(63)));
}

#[test]
fn tiny_and_extreme_thumbnails_stay_at_least_one_pixel() {
    assert_eq!(thumbnail_dimensions(0, 0), (1, 1));
    assert_eq!(thumbnail_dimensions(16_384, 1), (240, 1));
    assert_eq!(thumbnail_dimensions(1, 16_384), (1, 135));
    assert_eq!(thumbnail_dimensions(480, 270), (240, 135));
}

#[test]
fn encoded_size_limits_are_checked() {
    assert_eq!(check_encoded_length(0), Err(ImageStoreError::TooLarge));
    assert_eq!(check_encoded_length(1), Ok(()));
    assert_eq!(check_encoded_length(MAX_IMAGE_ENCODED_BYTES), Ok(()));
    assert_eq!(
        check_encoded_length(MAX_IMAGE_ENCODED_BYTES + 1),
        Err(ImageStoreError::TooLarge)
    );
    assert_eq!(ImageStoreError::TooLarge.diagnostic(), "image-too-large");
    assert_eq!(ImageStoreError::Thumbnail.diagnostic(), "image-thumbnail");
}

#[test]
fn the_decoder_is_told_the_thumbnail_size_or_refused() {
    match size_prepared(1920, 1080) {
        PreparedSize::Scale {
            width,
            height,
            thumb_width,
            thumb_height,
        } => {
            assert_eq!((width, height, thumb_width, thumb_height), (1920, 1080, 240, 135));
        }
        PreparedSize::Refuse { .. } => panic!("a normal screenshot is accepted"),
    }
    assert!(matches!(
        size_prepared(-1, 10),
        PreparedSize::Refuse { size: None }
    ));
    assert!(matches!(
        size_prepared(20_000, 10),
        PreparedSize::Refuse {
            size: Some((20_000, 10))
        }
    ));
}

#[test]
fn file_names_are_derived_from_valid_hashes_only() {
    let hash = "0123456789abcdef".repeat(4);
    let png = ImageData::new(hash.clone(), ImageMime::Png, 10, 1, 1);
    let jpeg = ImageData::new(hash.clone(), ImageMime::Jpeg, 10, 1, 1);
    assert_eq!(blob_file_name(&png), Some(format!("{hash}.png")));
    assert_eq!(blob_file_name(&jpeg), Some(format!("{hash}.jpg")));
    assert_eq!(thumbnail_file_name(&jpeg), Some(format!("{hash}.png")));
    let bad = ImageData::new("../../etc/passwd".into(), ImageMime::Png, 10, 1, 1);
    assert_eq!(blob_file_name(&bad), None);
    assert_eq!(thumbnail_file_name(&bad), None);
}

#[test]
fn describing_an_image_refuses_a_hash_that_cannot_name_a_file() {
    let image = describe_image("b".repeat(64), ImageMime::Png, 1234, 640, 480).unwrap();
    assert_eq!(image.byte_length(), 1234);
    assert_eq!(image.width(), 640);
    assert_eq!(
        describe_image("not-a-hash".into(), ImageMime::Png, 1, 1, 1),
        Err(ImageStoreError::Checksum)
    );
}

#[test]
fn reconciliation_keeps_referenced_files_and_reports_missing_originals() {
    let present = "a".repeat(64);
    let gone = "b".repeat(64);
    let items = vec![
        TextHistoryItem::new(HistoryItemId::new(1), "text".into(), 1, 1, false),
        TextHistoryItem::new_image(
            HistoryItemId::new(2),
            ImageData::new(present.clone(), ImageMime::Png, 10, 1, 1),
            2,
            2,
            false,
        ),
        TextHistoryItem::new_image(
            HistoryItemId::new(3),
            ImageData::new(gone.clone(), ImageMime::Jpeg, 10, 1, 1),
            3,
            3,
            true,
        ),
        TextHistoryItem::new_image(
            HistoryItemId::new(4),
            ImageData::new("bad".into(), ImageMime::Png, 10, 1, 1),
            4,
            4,
            false,
        ),
    ];
    let plan = reconcile_plan(&items, &[false, true, false, true]);
    assert_eq!(
        plan.expected_blobs,
        vec![format!("{present}.png"), format!("{gone}.jpg")]
    );
    assert_eq!(
        plan.expected_thumbnails,
        vec![format!("{present}.png"), format!("{gone}.png")]
    );
    assert_eq!(
        plan.missing,
        vec![HistoryItemId::new(3), HistoryItemId::new(4)]
    );
    assert_eq!(plan.stale_thumbnails, vec![format!("{gone}.png")]);
    assert!(is_expected(&format!("{present}.png"), &plan.expected_blobs));
    assert!(!is_expected("orphan.png", &plan.expected_blobs));
}
