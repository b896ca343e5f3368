//! The rules for stored images: size and dimension limits, thumbnail sizes,
//! content-addressed file names, and which files a start-up reconciliation
//! keeps. Decoding, hashing and file I/O run outside the library.
use vstd::prelude::*;

use crate::history::model::{
    mime_extension, HistoryItem, HistoryItemId, ImageData, ImageMime, ImageView, ItemView,
    PayloadView,
};
use crate::history::service::item_views;
use crate::text::chars_of;

verus! {

/// Largest encoded image accepted from the clipboard, in bytes.
pub const MAX_IMAGE_ENCODED_BYTES: usize = 25 * 1024 * 1024;

/// Largest number of pixels a captured image may have.
pub const MAX_IMAGE_PIXELS: u64 = 50_000_000;

/// Largest width or height a captured image may have.
pub const MAX_IMAGE_DIMENSION: u32 = 16_384;

/// Budget for all stored image files, in bytes.
pub const MAX_IMAGE_STORAGE_BYTES: u64 = 512 * 1024 * 1024;

/// Thumbnails fit in this box.
pub const THUMBNAIL_MAX_WIDTH: u32 = 240;

pub const THUMBNAIL_MAX_HEIGHT: u32 = 135;

/// Why an image was not stored.
#[derive(Clone, Copy, Debug, Eq, PartialEq, Structural)]
pub enum ImageStoreError {
    TooLarge,
    InvalidImage,
    InvalidDimensions,
    Checksum,
    Directory,
    Write,
    Thumbnail,
}

pub open spec fn store_error_diagnostic(error: ImageStoreError) -> Seq<char> {
    match error {
        ImageStoreError::TooLarge => "image-too-large"@,
        ImageStoreError::InvalidImage => "image-invalid"@,
        ImageStoreError::InvalidDimensions => "image-dimensions-invalid"@,
        ImageStoreError::Checksum => "image-checksum"@,
        ImageStoreError::Directory => "image-directory"@,
        ImageStoreError::Write => "image-write"@,
        ImageStoreError::Thumbnail => "image-thumbnail"@,
    }
}

impl ImageStoreError {
    /// The reason as it appears in log lines.
    pub fn diagnostic(self) -> (text: &'static str)
        ensures
            text@ == store_error_diagnostic(self),
    {
        match self {
            Self::TooLarge => "image-too-large",
            Self::InvalidImage => "image-invalid",
            Self::InvalidDimensions => "image-dimensions-invalid",
            Self::Checksum => "image-checksum",
            Self::Directory => "image-directory",
            Self::Write => "image-write",
            Self::Thumbnail => "image-thumbnail",
        }
    }
}

/// A stored image and whether this capture created its original file.
/// Stale work may remove an original it created itself, never one that was
/// already there.
#[derive(Debug)]
pub struct StoredImage {
    pub image: ImageData,
    pub original_created: bool,
}

/// An encoded image must be non-empty and at most the encoded-size limit.
pub fn check_encoded_length(length: usize) -> (checked: Result<(), ImageStoreError>)
    ensures
        checked is Ok <==> 0 < length <= MAX_IMAGE_ENCODED_BYTES,
        checked is Err ==> checked == Err::<(), ImageStoreError>(ImageStoreError::TooLarge),
{
    if length == 0 || length > MAX_IMAGE_ENCODED_BYTES {
        Err(ImageStoreError::TooLarge)
    } else {
        Ok(())
    }
}

pub open spec fn dimensions_ok(width: u32, height: u32) -> bool {
    &&& width > 0
    &&& height > 0
    &&& width <= MAX_IMAGE_DIMENSION
    &&& height <= MAX_IMAGE_DIMENSION
    &&& width * height <= MAX_IMAGE_PIXELS
}

/// Whether an image of this size may be stored.
pub fn dimensions_allowed(width: u32, height: u32) -> (allowed: bool)
    ensures
        allowed == dimensions_ok(width, height),
{
    if width == 0 || height == 0 || width > MAX_IMAGE_DIMENSION || height > MAX_IMAGE_DIMENSION {
        return false;
    }
    assert((width as u64) * (height as u64) <= 16384 * 16384) by (nonlinear_arith)
        requires
            width <= 16384,
            height <= 16384,
    ;
    (width as u64) * (height as u64) <= MAX_IMAGE_PIXELS
}

pub open spec fn at_least_one(value: int) -> int {
    if value < 1 {
        1
    } else {
        value
    }
}

/// The thumbnail size for an image: unchanged when it fits the box, else
/// scaled to touch the box on its limiting side, keeping the aspect ratio
/// (the other side rounded to the nearest pixel, halves up, and never below
/// one pixel).
pub open spec fn thumbnail_size(width: u32, height: u32) -> (int, int) {
    if width <= THUMBNAIL_MAX_WIDTH && height <= THUMBNAIL_MAX_HEIGHT {
        (at_least_one(width as int), at_least_one(height as int))
    } else if width * THUMBNAIL_MAX_HEIGHT >= height * THUMBNAIL_MAX_WIDTH {
        (
            THUMBNAIL_MAX_WIDTH as int,
            at_least_one((height * THUMBNAIL_MAX_WIDTH + width as int / 2) / width as int),
        )
    } else {
        (
            at_least_one((width * THUMBNAIL_MAX_HEIGHT + height as int / 2) / height as int),
            THUMBNAIL_MAX_HEIGHT as int,
        )
    }
}

pub fn thumbnail_dimensions(width: u32, height: u32) -> (size: (u32, u32))
    ensures
        (size.0 as int, size.1 as int) == thumbnail_size(width, height),
        1 <= size.0 <= THUMBNAIL_MAX_WIDTH,
        1 <= size.1 <= THUMBNAIL_MAX_HEIGHT,
{
    if width <= THUMBNAIL_MAX_WIDTH && height <= THUMBNAIL_MAX_HEIGHT {
        let w = if width < 1 { 1 } else { width };
        let h = if height < 1 { 1 } else { height };
        return (w, h);
    }
    let w64 = width as u64;
    let h64 = height as u64;
    assert(w64 * 135 <= 0xffff_ffff * 135) by (nonlinear_arith)
        requires
            w64 <= 0xffff_ffff,
    ;
    assert(h64 * 240 <= 0xffff_ffff * 240) by (nonlinear_arith)
        requires
            h64 <= 0xffff_ffff,
    ;
    let width_limited = w64 * (THUMBNAIL_MAX_HEIGHT as u64) >= h64 * (THUMBNAIL_MAX_WIDTH as u64);
    if width_limited {
        assert(w64 > 0);
        let scaled = (h64 * 240 + w64 / 2) / w64;
        assert(scaled <= 135) by (nonlinear_arith)
            requires
                w64 > 0,
                w64 * 135 >= h64 * 240,
                scaled as int == (h64 * 240 + w64 / 2) as int / (w64 as int),
        ;
        let scaled = if scaled < 1 { 1 } else { scaled };
        (THUMBNAIL_MAX_WIDTH, scaled as u32)
    } else {
        assert(h64 > 0);
        let scaled = (w64 * 135 + h64 / 2) / h64;
        assert(scaled <= 240) by (nonlinear_arith)
            requires
                h64 > 0,
                w64 * 135 < h64 * 240,
                scaled as int == (w64 * 135 + h64 / 2) as int / (h64 as int),
        ;
        let scaled = if scaled < 1 { 1 } else { scaled };
        (scaled as u32, THUMBNAIL_MAX_HEIGHT)
    }
}

/// What the decoder is told when it learns an image's size.
pub enum PreparedSize {
    /// Decode at the thumbnail size.
    Scale { width: u32, height: u32, thumb_width: i32, thumb_height: i32 },
    /// Refuse the image; the size, when it was representable, is still
    /// recorded.
    Refuse { size: Option<(u32, u32)> },
}

/// The decision taken when the decoder reports an image's size.
pub fn size_prepared(width: i32, height: i32) -> (prepared: PreparedSize)
    ensures
        match prepared {
            PreparedSize::Scale { width: w, height: h, thumb_width, thumb_height } => {
                &&& width >= 0 && height >= 0
                &&& w == width && h == height
                &&& dimensions_ok(w, h)
                &&& (thumb_width as int, thumb_height as int) == thumbnail_size(w, h)
            },
            PreparedSize::Refuse { size } => {
                ||| (width < 0 || height < 0) && size is None
                ||| width >= 0 && height >= 0 && size == Some((width as u32, height as u32))
                    && !dimensions_ok(width as u32, height as u32)
            },
        },
{
    if width < 0 || height < 0 {
        return PreparedSize::Refuse { size: None };
    }
    let w = width as u32;
    let h = height as u32;
    if !dimensions_allowed(w, h) {
        return PreparedSize::Refuse { size: Some((w, h)) };
    }
    let (tw, th) = thumbnail_dimensions(w, h);
    PreparedSize::Scale { width: w, height: h, thumb_width: tw as i32, thumb_height: th as i32 }
}

pub open spec fn is_lower_hex(c: char) -> bool {
    ('0' <= c && c <= '9') || ('a' <= c && c <= 'f')
}

/// A content hash that can name a file: 64 lower-case hexadecimal digits.
pub open spec fn hash_is_valid(hash: Seq<char>) -> bool {
    hash.len() == 64 && forall|i: int| 0 <= i < hash.len() ==> is_lower_hex(#[trigger] hash[i])
}

/// Whether `hash` is a lower-case SHA-256 hex digest. Only such hashes are
/// ever mapped to file names, so no database value can name another path.
pub fn valid_hash(hash: &str) -> (valid: bool)
    ensures
        valid == hash_is_valid(hash@),
{
    let chars = chars_of(hash);
    if chars.len() != 64 {
        return false;
    }
    let mut i: usize = 0;
    while i < chars.len()
        invariant
            i <= chars@.len(),
            chars@ == hash@,
            forall|k: int| 0 <= k < i ==> is_lower_hex(#[trigger] chars@[k]),
        decreases chars.len() - i,
    {
        let c = chars[i];
        if !(('0' <= c && c <= '9') || ('a' <= c && c <= 'f')) {
            return false;
        }
        i = i + 1;
    }
    true
}

/// The file name of an image's original: its hash and its format's extension.
pub open spec fn blob_name(image: ImageView) -> Option<Seq<char>> {
    if hash_is_valid(image.content_hash) {
        Some(image.content_hash + "."@ + mime_extension(image.mime_type))
    } else {
        None
    }
}

/// The file name of an image's thumbnail.
pub open spec fn thumbnail_name(image: ImageView) -> Option<Seq<char>> {
    if hash_is_valid(image.content_hash) {
        Some(image.content_hash + ".png"@)
    } else {
        None
    }
}

/// The original's file name in the blob directory, for a valid hash only.
pub fn blob_file_name(image: &ImageData) -> (name: Option<String>)
    ensures
        match name {
            Some(n) => blob_name(image@) == Some(n@),
            None => blob_name(image@) is None,
        },
{
    if !valid_hash(image.content_hash()) {
        return None;
    }
    let mut name = String::from_str(image.content_hash());
    name.append(".");
    name.append(image.mime_type().extension());
    Some(name)
}

/// The thumbnail's file name in the thumbnail directory, for a valid hash only.
pub fn thumbnail_file_name(image: &ImageData) -> (name: Option<String>)
    ensures
        match name {
            Some(n) => thumbnail_name(image@) == Some(n@),
            None => thumbnail_name(image@) is None,
        },
{
    if !valid_hash(image.content_hash()) {
        return None;
    }
    let mut name = String::from_str(image.content_hash());
    name.append(".png");
    Some(name)
}

/// The metadata of a decoded image, refused when its hash cannot name a file.
pub fn describe_image(
    content_hash: String,
    mime_type: ImageMime,
    byte_length: usize,
    width: u32,
    height: u32,
) -> (described: Result<ImageData, ImageStoreError>)
    ensures
        match described {
            Ok(image) => hash_is_valid(content_hash@) && image@ == (ImageView {
                content_hash: content_hash@,
                mime_type,
                byte_length: byte_length as u64,
                width,
                height,
            }),
            Err(error) => !hash_is_valid(content_hash@) && error == ImageStoreError::Checksum,
        },
{
    if !valid_hash(content_hash.as_str()) {
        return Err(ImageStoreError::Checksum);
    }
    Ok(ImageData::new(content_hash, mime_type, byte_length as u64, width, height))
}

/// What start-up reconciliation keeps and reports: the file names entries
/// refer to, the entries whose original is gone (or whose hash cannot name a
/// file), and the thumbnails left behind by a missing original.
pub struct ReconcilePlan {
    pub expected_blobs: Vec<String>,
    pub expected_thumbnails: Vec<String>,
    pub missing: Vec<HistoryItemId>,
    pub stale_thumbnails: Vec<String>,
}

/// The mathematical value of a [`ReconcilePlan`].
pub struct PlanView {
    pub expected_blobs: Seq<Seq<char>>,
    pub expected_thumbnails: Seq<Seq<char>>,
    pub missing: Seq<i64>,
    pub stale_thumbnails: Seq<Seq<char>>,
}

pub open spec fn string_views(strings: Seq<String>) -> Seq<Seq<char>> {
    strings.map_values(|s: String| s@)
}

impl View for ReconcilePlan {
    type V = PlanView;

    open spec fn view(&self) -> PlanView {
        PlanView {
            expected_blobs: string_views(self.expected_blobs@),
            expected_thumbnails: string_views(self.expected_thumbnails@),
            missing: self.missing@.map_values(|id: HistoryItemId| id@),
            stale_thumbnails: string_views(self.stale_thumbnails@),
        }
    }
}

/// The plan for `items`, where `blob_exists[i]` tells whether the original
/// of entry `i` is present (it is not consulted for text entries).
pub open spec fn reconcile_of(items: Seq<ItemView>, blob_exists: Seq<bool>) -> PlanView
    decreases items.len(),
{
    if items.len() == 0 || blob_exists.len() != items.len() {
        PlanView {
            expected_blobs: seq![],
            expected_thumbnails: seq![],
            missing: seq![],
            stale_thumbnails: seq![],
        }
    } else {
        let p = reconcile_of(items.drop_last(), blob_exists.drop_last());
        let x = items.last();
        match x.payload {
            PayloadView::Text(_) => p,
            PayloadView::Image(image) => if hash_is_valid(image.content_hash) {
                let blob = blob_name(image)->0;
                let thumbnail = thumbnail_name(image)->0;
                if blob_exists.last() {
                    PlanView {
                        expected_blobs: p.expected_blobs.push(blob),
                        expected_thumbnails: p.expected_thumbnails.push(thumbnail),
                        ..p
                    }
                } else {
                    PlanView {
                        expected_blobs: p.expected_blobs.push(blob),
                        expected_thumbnails: p.expected_thumbnails.push(thumbnail),
                        missing: p.missing.push(x.id),
                        stale_thumbnails: p.stale_thumbnails.push(thumbnail),
                    }
                }
            } else {
                PlanView { missing: p.missing.push(x.id), ..p }
            },
        }
    }
}

/// Plans start-up reconciliation of the image directories against the
/// loaded entries. Only validated hashes are ever turned into file names.
pub fn reconcile_plan(items: &[HistoryItem], blob_exists: &[bool]) -> (plan: ReconcilePlan)
    requires
        blob_exists@.len() == items@.len(),
    ensures
        plan@ == reconcile_of(item_views(items@), blob_exists@),
{
    let ghost s = item_views(items@);
    let mut plan = ReconcilePlan {
        expected_blobs: Vec::new(),
        expected_thumbnails: Vec::new(),
        missing: Vec::new(),
        stale_thumbnails: Vec::new(),
    };
    let mut i: usize = 0;
    proof {
        assert(s.take(0).len() == 0);
        assert(plan@.expected_blobs =~= seq![]);
        assert(plan@.expected_thumbnails =~= seq![]);
        assert(plan@.missing =~= seq![]);
        assert(plan@.stale_thumbnails =~= seq![]);
    }
    while i < items.len()
        invariant
            i <= items@.len(),
            blob_exists@.len() == items@.len(),
            s == item_views(items@),
            plan@ == reconcile_of(s.take(i as int), blob_exists@.take(i as int)),
        decreases items.len() - i,
    {
        let item = &items[i];
        proof {
            assert(s.take(i + 1).drop_last() =~= s.take(i as int));
            assert(blob_exists@.take(i + 1).drop_last() =~= blob_exists@.take(i as int));
            assert(s.take(i + 1).last() == item@);
            assert(blob_exists@.take(i + 1).last() == blob_exists@[i as int]);
        }
        if let Some(image) = item.image() {
            let blob = blob_file_name(image);
            let thumbnail = thumbnail_file_name(image);
            match (blob, thumbnail) {
                (Some(blob), Some(thumbnail)) => {
                    let ghost b = blob@;
                    let ghost t = thumbnail@;
                    let ghost bv = plan.expected_blobs@;
                    let ghost tv = plan.expected_thumbnails@;
                    if !blob_exists[i] {
                        let ghost mv = plan.missing@;
                        let ghost sv = plan.stale_thumbnails@;
                        plan.missing.push(item.id());
                        plan.stale_thumbnails.push(String::from_str(thumbnail.as_str()));
                        assert(plan.missing@.map_values(|id: HistoryItemId| id@) =~= mv.map_values(
                            |id: HistoryItemId| id@,
                        ).push(item@.id));
                        assert(string_views(plan.stale_thumbnails@) =~= string_views(sv).push(t));
                    }
                    plan.expected_blobs.push(blob);
                    plan.expected_thumbnails.push(thumbnail);
                    assert(string_views(plan.expected_blobs@) =~= string_views(bv).push(b));
                    assert(string_views(plan.expected_thumbnails@) =~= string_views(tv).push(t));
                },
                _ => {
                    let ghost mv = plan.missing@;
                    plan.missing.push(item.id());
                    assert(plan.missing@.map_values(|id: HistoryItemId| id@) =~= mv.map_values(
                        |id: HistoryItemId| id@,
                    ).push(item@.id));
                },
            }
        }
        i = i + 1;
    }
    assert(s.take(i as int) =~= s);
    assert(blob_exists@.take(i as int) =~= blob_exists@);
    plan
}

/// Whether a file in an image directory is one of the expected names;
/// any other regular file or link there is an orphan.
pub fn is_expected(name: &str, expected: &[String]) -> (found: bool)
    ensures
        found == string_views(expected@).contains(name@),
{
    let mut i: usize = 0;
    let wanted = String::from_str(name);
    while i < expected.len()
        invariant
            i <= expected@.len(),
            wanted@ == name@,
            forall|k: int| 0 <= k < i ==> #[trigger] expected@[k]@ != name@,
        decreases expected.len() - i,
    {
        if expected[i] == wanted {
            assert(string_views(expected@)[i as int] == name@);
            return true;
        }
        i = i + 1;
    }
    assert forall|k: int| 0 <= k < string_views(expected@).len() implies #[trigger] string_views(expected@)[k] != name@ by {
        assert(expected@[k]@ != name@);
    }
    false
}

} // verus!
