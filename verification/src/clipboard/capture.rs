//! What a clipboard change leads to. Reading the clipboard, decoding and
//! storing images happen outside the library, in asynchronous steps; after
//! each step the decision is taken here, against the state as it is then.
use vstd::prelude::*;

use crate::history::model::{mime_name, ImageData, ImageMime, ImageView};
use crate::history::repository::opt_string;
use crate::history::service::{
    record_image_outcome, record_outcome, HistoryUpdate, HistoryView, TextHistory,
};
use crate::image_store::MAX_IMAGE_ENCODED_BYTES;
use crate::text::str_equal;
use super::suppression::{suppresses_image, suppresses_text, PendingView, SelfWriteSuppression};

verus! {

/// What a clipboard change starts.
#[derive(Clone, Copy, Debug, Eq, PartialEq, Structural)]
pub enum ChangeAction {
    /// Recording is paused: nothing is read, not even the offered formats.
    Ignore,
    /// Read the image in this format.
    CaptureImage(ImageMime),
    /// Read the text.
    CaptureText,
}

/// An image is captured when images are saved and one is offered;
/// otherwise the text offered alongside is read, so useful text is not lost
/// because an ignored image came with it.
pub fn change_action(recording_paused: bool, save_images: bool, image_mime: Option<ImageMime>) -> (action:
    ChangeAction)
    ensures
        action == if recording_paused {
            ChangeAction::Ignore
        } else if save_images && image_mime is Some {
            ChangeAction::CaptureImage(image_mime->0)
        } else {
            ChangeAction::CaptureText
        },
{
    if recording_paused {
        return ChangeAction::Ignore;
    }
    if save_images {
        if let Some(mime) = image_mime {
            return ChangeAction::CaptureImage(mime);
        }
    }
    ChangeAction::CaptureText
}

pub open spec fn offers(types: Seq<Seq<char>>, mime: ImageMime) -> bool {
    types.contains(mime_name(mime))
}

fn list_offers(types: &[String], mime: ImageMime) -> (offered: bool)
    ensures
        offered == offers(types@.map_values(|t: String| t@), mime),
{
    let ghost views = types@.map_values(|t: String| t@);
    let name = mime.as_str();
    let mut i: usize = 0;
    while i < types.len()
        invariant
            i <= types@.len(),
            views == types@.map_values(|t: String| t@),
            name@ == mime_name(mime),
            forall|k: int| 0 <= k < i ==> #[trigger] views[k] != mime_name(mime),
        decreases types.len() - i,
    {
        if str_equal(types[i].as_str(), name) {
            assert(views[i as int] == mime_name(mime));
            return true;
        }
        i = i + 1;
    }
    false
}

/// The image format to request: PNG, then JPEG, among the formats offered
/// directly, and only then among those the toolkit can serialise an offered
/// image into (a screenshot offered as a texture).
pub fn preferred_image_mime(offered: &[String], serializable: &[String]) -> (mime: Option<ImageMime>)
    ensures
        mime == ({
            let direct = offered@.map_values(|t: String| t@);
            let converted = serializable@.map_values(|t: String| t@);
            if offers(direct, ImageMime::Png) {
                Some(ImageMime::Png)
            } else if offers(direct, ImageMime::Jpeg) {
                Some(ImageMime::Jpeg)
            } else if offers(converted, ImageMime::Png) {
                Some(ImageMime::Png)
            } else if offers(converted, ImageMime::Jpeg) {
                Some(ImageMime::Jpeg)
            } else {
                None
            }
        }),
{
    if list_offers(offered, ImageMime::Png) {
        Some(ImageMime::Png)
    } else if list_offers(offered, ImageMime::Jpeg) {
        Some(ImageMime::Jpeg)
    } else if list_offers(serializable, ImageMime::Png) {
        Some(ImageMime::Png)
    } else if list_offers(serializable, ImageMime::Jpeg) {
        Some(ImageMime::Jpeg)
    } else {
        None
    }
}

/// The format of the bytes read: the one the clipboard answered with when
/// it is a supported one, else the one requested.
pub fn negotiated_mime(negotiated: &str, requested: ImageMime) -> (mime: ImageMime)
    ensures
        mime == if negotiated@ == mime_name(ImageMime::Png) {
            ImageMime::Png
        } else if negotiated@ == mime_name(ImageMime::Jpeg) {
            ImageMime::Jpeg
        } else {
            requested
        },
{
    match ImageMime::parse(negotiated) {
        Some(mime) => mime,
        None => requested,
    }
}

/// Whether an image read can be kept: it finished without error, read
/// something, and stayed within the encoded-size limit (the buffer holds one
/// byte more, so an oversized image is noticed).
pub fn encoded_read_ok(read: usize, partial_error: bool) -> (ok: bool)
    ensures
        ok == (!partial_error && 0 < read <= MAX_IMAGE_ENCODED_BYTES),
{
    !partial_error && read > 0 && read <= MAX_IMAGE_ENCODED_BYTES
}

/// How a text capture ended.
#[derive(Clone, Copy, Debug, Eq, PartialEq, Structural)]
pub enum TextCaptureOutcome {
    /// A newer change arrived meanwhile; this read is dropped.
    Stale,
    /// Nothing could be read; any pending self-write is dropped.
    ReadFailed,
    /// It was the application's own restore.
    Suppressed,
    /// A bulk clear ran while the read was in flight; the text must not
    /// bring a cleared entry back.
    Cleared,
    /// Recording was paused while the read was in flight.
    Paused,
    /// The text was recorded.
    Recorded(HistoryUpdate),
}

/// The history, the pending self-write and the outcome after a text
/// capture finishes, from the history `v` and pending write `pending` it
/// finds.
pub open spec fn text_capture_result(
    v: HistoryView,
    pending: Option<PendingView>,
    still_current: bool,
    read: Option<Seq<char>>,
    started_generation: u64,
    recording_paused: bool,
) -> (HistoryView, Option<PendingView>, TextCaptureOutcome) {
    if !still_current {
        (v, pending, TextCaptureOutcome::Stale)
    } else {
        match read {
            None => (v, None, TextCaptureOutcome::ReadFailed),
            Some(text) => if suppresses_text(pending, text) {
                (v, None, TextCaptureOutcome::Suppressed)
            } else if v.generation != started_generation {
                (v, None, TextCaptureOutcome::Cleared)
            } else if recording_paused {
                (v, None, TextCaptureOutcome::Paused)
            } else {
                let (recorded, update) = record_outcome(v, text);
                (recorded, None, TextCaptureOutcome::Recorded(update))
            },
        }
    }
}

/// Finishes a text capture after the read, checking again what may have
/// changed while it was in flight: a newer change, the self-write of a
/// restore, a bulk clear (the history's generation moved on from
/// `started_generation`), or a pause.
pub fn finish_text_capture(
    history: &mut TextHistory,
    suppression: &mut SelfWriteSuppression,
    still_current: bool,
    read: Option<String>,
    started_generation: u64,
    recording_paused: bool,
) -> (outcome: TextCaptureOutcome)
    requires
        old(history).wf(),
    ensures
        final(history).wf(),
        (final(history)@, final(suppression)@, outcome) == text_capture_result(
            old(history)@,
            old(suppression)@,
            still_current,
            opt_string(read),
            started_generation,
            recording_paused,
        ),
{
    if !still_current {
        return TextCaptureOutcome::Stale;
    }
    let text = match read {
        Some(text) => text,
        None => {
            suppression.cancel();
            return TextCaptureOutcome::ReadFailed;
        },
    };
    if suppression.should_suppress_text(text.as_str()) {
        return TextCaptureOutcome::Suppressed;
    }
    if history.generation() != started_generation {
        return TextCaptureOutcome::Cleared;
    }
    if recording_paused {
        return TextCaptureOutcome::Paused;
    }
    TextCaptureOutcome::Recorded(history.record(text))
}

/// How an image capture ended, after its blob was stored.
#[derive(Debug)]
pub enum ImageCaptureOutcome {
    /// A newer change arrived meanwhile; the stored image goes to cleanup.
    Stale(ImageData),
    /// It was the application's own restore.
    Suppressed,
    /// Recording was paused, images stopped being saved, or a bulk clear
    /// ran meanwhile; the stored image goes to cleanup.
    Rejected(ImageData),
    /// The image was recorded.
    Recorded(HistoryUpdate),
}

/// The mathematical value of an [`ImageCaptureOutcome`].
pub enum ImageOutcomeView {
    Stale(ImageView),
    Suppressed,
    Rejected(ImageView),
    Recorded(HistoryUpdate),
}

impl View for ImageCaptureOutcome {
    type V = ImageOutcomeView;

    open spec fn view(&self) -> ImageOutcomeView {
        match self {
            ImageCaptureOutcome::Stale(image) => ImageOutcomeView::Stale(image@),
            ImageCaptureOutcome::Suppressed => ImageOutcomeView::Suppressed,
            ImageCaptureOutcome::Rejected(image) => ImageOutcomeView::Rejected(image@),
            ImageCaptureOutcome::Recorded(update) => ImageOutcomeView::Recorded(*update),
        }
    }
}

/// The history, the pending self-write and the outcome after an image
/// capture finishes with the stored `image`.
pub open spec fn image_capture_result(
    v: HistoryView,
    pending: Option<PendingView>,
    still_current: bool,
    image: ImageView,
    started_generation: u64,
    recording_paused: bool,
    save_images: bool,
) -> (HistoryView, Option<PendingView>, ImageOutcomeView) {
    if !still_current {
        (v, pending, ImageOutcomeView::Stale(image))
    } else if suppresses_image(pending, image.content_hash) {
        (v, None, ImageOutcomeView::Suppressed)
    } else if recording_paused || !save_images || v.generation != started_generation {
        (v, None, ImageOutcomeView::Rejected(image))
    } else {
        let (recorded, update) = record_image_outcome(v, image);
        (recorded, None, ImageOutcomeView::Recorded(update))
    }
}

/// Finishes an image capture after its blob was stored, checking again
/// what may have changed while decoding and writing took their time.
pub fn finish_image_capture(
    history: &mut TextHistory,
    suppression: &mut SelfWriteSuppression,
    still_current: bool,
    image: ImageData,
    started_generation: u64,
    recording_paused: bool,
    save_images: bool,
) -> (outcome: ImageCaptureOutcome)
    requires
        old(history).wf(),
    ensures
        final(history).wf(),
        (final(history)@, final(suppression)@, outcome@) == image_capture_result(
            old(history)@,
            old(suppression)@,
            still_current,
            image@,
            started_generation,
            recording_paused,
            save_images,
        ),
{
    if !still_current {
        return ImageCaptureOutcome::Stale(image);
    }
    if suppression.should_suppress_image(image.content_hash()) {
        return ImageCaptureOutcome::Suppressed;
    }
    let policy_allows = !recording_paused && save_images;
    if !policy_allows || history.generation() != started_generation {
        return ImageCaptureOutcome::Rejected(image);
    }
    ImageCaptureOutcome::Recorded(history.record_image(image))
}

/// A restored entry never comes back into the history as a new copy: with
/// the suppression armed by the restore, the change the restore itself
/// causes is suppressed, leaves the history as it was and disarms the
/// suppression, whatever the pause, image and generation settings.
pub proof fn law_restore_is_not_recorded_again(
    v: HistoryView,
    text: Seq<char>,
    image: ImageView,
    started_generation: u64,
    recording_paused: bool,
    save_images: bool,
)
    ensures
        text_capture_result(
            v,
            Some(PendingView::Text(text)),
            true,
            Some(text),
            started_generation,
            recording_paused,
        ) == (v, None::<PendingView>, TextCaptureOutcome::Suppressed),
        image_capture_result(
            v,
            Some(PendingView::Image(image.content_hash)),
            true,
            image,
            started_generation,
            recording_paused,
            save_images,
        ) == (v, None::<PendingView>, ImageOutcomeView::Suppressed),
{
}

} // verus!
