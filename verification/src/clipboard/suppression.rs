//! Recognising the clipboard change caused by the application's own restore,
//! so that restoring an entry does not record it again.
//!
//! Each restore arms one pending write just before writing; the next change
//! consumes it, whether or not it matches.
use vstd::prelude::*;

verus! {

/// The payload a restore is about to write.
#[derive(Debug, Eq, PartialEq)]
enum PendingWrite {
    Text(String),
    Image(String),
}

/// The mathematical value of a pending write: the text, or the image's
/// content hash.
pub enum PendingView {
    Text(Seq<char>),
    Image(Seq<char>),
}

/// Tracks the one self-write that may be pending.
#[derive(Debug)]
pub struct SelfWriteSuppression {
    pending: Option<PendingWrite>,
}

impl View for SelfWriteSuppression {
    type V = Option<PendingView>;

    closed spec fn view(&self) -> Option<PendingView> {
        match self.pending {
            Some(PendingWrite::Text(text)) => Some(PendingView::Text(text@)),
            Some(PendingWrite::Image(hash)) => Some(PendingView::Image(hash@)),
            None => None,
        }
    }
}

/// Whether an observed text change is the pending self-write.
pub open spec fn suppresses_text(pending: Option<PendingView>, observed: Seq<char>) -> bool {
    pending matches Some(PendingView::Text(expected)) && expected == observed
}

/// Whether an observed image change is the pending self-write.
pub open spec fn suppresses_image(pending: Option<PendingView>, observed_hash: Seq<char>) -> bool {
    pending matches Some(PendingView::Image(expected)) && expected == observed_hash
}

impl Default for SelfWriteSuppression {
    fn default() -> (suppression: Self)
        ensures
            suppression@ is None,
    {
        Self { pending: None }
    }
}

impl SelfWriteSuppression {
    /// Arms the suppression for a text restore.
    pub fn arm_text(&mut self, text: &str)
        ensures
            final(self)@ == Some(PendingView::Text(text@)),
    {
        self.pending = Some(PendingWrite::Text(String::from_str(text)));
    }

    /// Arms the suppression for an image restore.
    pub fn arm_image(&mut self, content_hash: &str)
        ensures
            final(self)@ == Some(PendingView::Image(content_hash@)),
    {
        self.pending = Some(PendingWrite::Image(String::from_str(content_hash)));
    }

    /// Consumes a pending self-write without looking at any payload, for a
    /// change the clipboard already reports as owned by this process. Every
    /// restore arms a pending write just before writing, so ownership plus a
    /// pending write identifies the restore exactly.
    pub fn take_self_write(&mut self) -> (was_pending: bool)
        ensures
            was_pending == (old(self)@ is Some),
            final(self)@ is None,
    {
        self.pending.take().is_some()
    }

    /// Whether observed text is the pending self-write; any pending write is
    /// consumed either way.
    pub fn should_suppress_text(&mut self, observed_text: &str) -> (suppress: bool)
        ensures
            suppress == suppresses_text(old(self)@, observed_text@),
            final(self)@ is None,
    {
        match self.pending.take() {
            Some(PendingWrite::Text(expected)) => expected == String::from_str(observed_text),
            _ => false,
        }
    }

    /// Whether an observed image is the pending self-write; any pending
    /// write is consumed either way.
    pub fn should_suppress_image(&mut self, observed_hash: &str) -> (suppress: bool)
        ensures
            suppress == suppresses_image(old(self)@, observed_hash@),
            final(self)@ is None,
    {
        match self.pending.take() {
            Some(PendingWrite::Image(expected)) => expected == String::from_str(observed_hash),
            _ => false,
        }
    }

    /// The recording setting changed. While recording is paused the
    /// clipboard handler never consults the suppression, so a restore made
    /// meanwhile leaves it armed; resuming drops it, so it cannot hide the
    /// next external copy of the same content. Pausing keeps it.
    pub fn recording_setting_changed(&mut self, paused: bool)
        ensures
            final(self)@ == if paused {
                old(self)@
            } else {
                None
            },
    {
        if !paused {
            self.pending = None;
        }
    }

    /// Drops any pending write.
    pub fn cancel(&mut self)
        ensures
            final(self)@ is None,
    {
        self.pending = None;
    }
}

/// A restore's own change is suppressed exactly once: right after arming
/// text `t`, observing `t` is suppressed, and once any change has been
/// checked nothing is suppressed until the next restore.
pub proof fn law_self_write_suppressed_once(text: Seq<char>, observed: Seq<char>)
    ensures
        suppresses_text(Some(PendingView::Text(text)), text),
        !suppresses_text(None, observed),
        !suppresses_image(None, observed),
        !suppresses_image(Some(PendingView::Text(text)), observed),
        !suppresses_text(Some(PendingView::Image(text)), observed),
{
}

} // verus!
