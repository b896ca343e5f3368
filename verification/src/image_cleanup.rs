//! When an image's stored files may be deleted.
//!
//! History changes happen on the main thread while image capture decodes and
//! publishes blobs in workers. A content-addressed blob must not be unlinked
//! while another capture may still decide to reuse the same hash, so deletion
//! requests are queued while any capture is in flight and released once the
//! last one finishes. Only images no history entry refers to are released;
//! the caller unlinks their files.
use vstd::prelude::*;

use crate::history::model::{HistoryItem, ImageData, ImageView};
use crate::history::order::{first_index, image_hash_is};
use crate::history::service::{item_views, position_of_image};

verus! {

broadcast use vstd::seq::Seq::lemma_filter_push;

/// Tracks captures in flight and the images waiting to be deleted.
pub struct ImageCleanupCoordinator {
    in_flight: usize,
    pending: Vec<ImageData>,
}

/// The mathematical value of an [`ImageCleanupCoordinator`].
pub struct CleanupView {
    pub in_flight: nat,
    pub pending: Seq<ImageView>,
}

impl View for ImageCleanupCoordinator {
    type V = CleanupView;

    closed spec fn view(&self) -> CleanupView {
        CleanupView {
            in_flight: self.in_flight as nat,
            pending: self.pending@.map_values(|image: ImageData| image@),
        }
    }
}

/// Whether some history entry is an image with this content hash.
pub open spec fn referenced(items: Seq<crate::history::model::ItemView>, hash: Seq<char>) -> bool {
    first_index(items, image_hash_is(hash)) >= 0
}

/// The queued images no entry refers to, in queue order.
pub open spec fn releasable(
    pending: Seq<ImageView>,
    items: Seq<crate::history::model::ItemView>,
) -> Seq<ImageView> {
    pending.filter(|image: ImageView| !referenced(items, image.content_hash))
}

/// Whether an image with this content hash is already queued.
pub open spec fn queued(pending: Seq<ImageView>, hash: Seq<char>) -> bool {
    exists|i: int| 0 <= i < pending.len() && #[trigger] pending[i].content_hash == hash
}

impl ImageCleanupCoordinator {
    pub fn new() -> (coordinator: Self)
        ensures
            coordinator@.in_flight == 0,
            coordinator@.pending == Seq::<ImageView>::empty(),
    {
        let coordinator = Self { in_flight: 0, pending: Vec::new() };
        assert(coordinator@.pending =~= Seq::<ImageView>::empty());
        coordinator
    }

    /// Notes that a capture started.
    pub fn begin_capture(&mut self)
        ensures
            final(self)@.in_flight == if old(self)@.in_flight < usize::MAX {
                old(self)@.in_flight + 1
            } else {
                old(self)@.in_flight
            },
            final(self)@.pending == old(self)@.pending,
    {
        self.in_flight = self.in_flight.saturating_add(1);
    }

    /// Notes that a capture finished and releases what may now be deleted.
    /// A finish without a matching begin changes nothing and releases nothing.
    pub fn finish_capture(&mut self, items: &[HistoryItem]) -> (release: Vec<ImageData>)
        ensures
            old(self)@.in_flight == 0 ==> final(self)@ == old(self)@ && release@.len() == 0,
            old(self)@.in_flight == 1 ==> final(self)@.in_flight == 0 && final(self)@.pending
                == Seq::<ImageView>::empty() && release@.map_values(|image: ImageData| image@)
                == releasable(old(self)@.pending, item_views(items@)),
            old(self)@.in_flight > 1 ==> final(self)@.in_flight == old(self)@.in_flight - 1
                && final(self)@.pending == old(self)@.pending && release@.len() == 0,
    {
        if self.in_flight == 0 {
            return Vec::new();
        }
        self.in_flight = self.in_flight - 1;
        self.flush(items)
    }

    /// Queues an image for deletion, once per content hash.
    pub fn queue(&mut self, image: ImageData)
        ensures
            final(self)@.in_flight == old(self)@.in_flight,
            final(self)@.pending == if queued(old(self)@.pending, image@.content_hash) {
                old(self)@.pending
            } else {
                old(self)@.pending.push(image@)
            },
    {
        let ghost pending = self@.pending;
        let mut i: usize = 0;
        while i < self.pending.len()
            invariant
                i <= self.pending@.len(),
                pending == self@.pending,
                forall|k: int| 0 <= k < i ==> #[trigger] pending[k].content_hash != image@.content_hash,
            decreases self.pending.len() - i,
        {
            assert(pending[i as int] == self.pending@[i as int]@);
            if *self.pending[i].content_hash_string() == *image.content_hash_string() {
                return;
            }
            i = i + 1;
        }
        let ghost before = self.pending@;
        self.pending.push(image);
        assert(self.pending@.map_values(|image: ImageData| image@) =~= before.map_values(
            |image: ImageData| image@,
        ).push(image@));
    }

    /// Releases the queued images no history entry refers to, unless a
    /// capture is in flight; the queue is emptied when it releases.
    pub fn flush(&mut self, items: &[HistoryItem]) -> (release: Vec<ImageData>)
        ensures
            old(self)@.in_flight != 0 ==> final(self)@ == old(self)@ && release@.len() == 0,
            old(self)@.in_flight == 0 ==> final(self)@.in_flight == 0 && final(self)@.pending
                == Seq::<ImageView>::empty() && release@.map_values(|image: ImageData| image@)
                == releasable(old(self)@.pending, item_views(items@)),
    {
        if self.in_flight != 0 {
            return Vec::new();
        }
        let mut queue: Vec<ImageData> = Vec::new();
        std::mem::swap(&mut queue, &mut self.pending);
        let ghost all = queue@.map_values(|image: ImageData| image@);
        let ghost keep = |image: ImageView| !referenced(item_views(items@), image.content_hash);
        let mut release: Vec<ImageData> = Vec::new();
        let mut taken: usize = 0;
        let total = queue.len();
        assert(all.len() == total);
        assert(all.take(0) =~= Seq::<ImageView>::empty());
        assert(Seq::<ImageView>::empty().filter(keep) =~= Seq::<ImageView>::empty()) by {
            reveal(Seq::filter);
        }
        while queue.len() > 0
            invariant
                taken + queue@.len() == all.len(),
                all.len() <= usize::MAX,
                queue@.map_values(|image: ImageData| image@) == all.skip(taken as int),
                release@.map_values(|image: ImageData| image@) == all.take(taken as int).filter(
                    keep,
                ),
                keep == (|image: ImageView| !referenced(item_views(items@), image.content_hash)),
            decreases queue.len(),
        {
            let ghost before_queue = queue@;
            let image = queue.remove(0);
            assert(image@ == all[taken as int]) by {
                assert(before_queue.map_values(|image: ImageData| image@)[0] == all.skip(
                    taken as int,
                )[0]);
            }
            assert(queue@.map_values(|image: ImageData| image@) =~= all.skip(taken + 1)) by {
                assert(queue@ =~= before_queue.remove(0));
                assert(before_queue.remove(0).map_values(|image: ImageData| image@)
                    =~= before_queue.map_values(|image: ImageData| image@).remove(0));
                assert(all.skip(taken as int).remove(0) =~= all.skip(taken + 1));
            }
            assert(all.take(taken + 1) =~= all.take(taken as int).push(image@));
            let found = position_of_image(items, image.content_hash_string());
            let ghost before_release = release@;
            if found.is_none() {
                release.push(image);
                assert(release@.map_values(|image: ImageData| image@) =~= before_release.map_values(
                    |image: ImageData| image@,
                ).push(image@));
            }
            taken = taken + 1;
        }
        assert(all.take(taken as int) =~= all);
        assert(self@.pending =~= Seq::<ImageView>::empty());
        release
    }
}

/// Nothing is released while a capture is in flight, and what is released
/// was queued and is referred to by no entry.
pub proof fn law_cleanup_spares_referenced_images(
    pending: Seq<ImageView>,
    items: Seq<crate::history::model::ItemView>,
)
    ensures
        forall|i: int|
            0 <= i < releasable(pending, items).len() ==> !referenced(
                items,
                #[trigger] releasable(pending, items)[i].content_hash,
            ) && pending.contains(releasable(pending, items)[i]),
{
    let keep = |image: ImageView| !referenced(items, image.content_hash);
    assert forall|i: int| 0 <= i < releasable(pending, items).len() implies !referenced(
        items,
        #[trigger] releasable(pending, items)[i].content_hash,
    ) && pending.contains(releasable(pending, items)[i]) by {
        pending.lemma_filter_pred(keep, i);
        assert(pending.filter(keep).contains(pending.filter(keep)[i]));
        pending.lemma_filter_contains_rev(keep, pending.filter(keep)[i]);
    }
}

/// The images of `before` that no entry of `after` refers to any more, in
/// order: what a history change left for cleanup.
pub open spec fn dropped_images(
    before: Seq<crate::history::model::ItemView>,
    after: Seq<crate::history::model::ItemView>,
) -> Seq<ImageView>
    decreases before.len(),
{
    if before.len() == 0 {
        seq![]
    } else {
        let rest = dropped_images(before.drop_last(), after);
        match before.last().payload {
            crate::history::model::PayloadView::Image(image) => if referenced(after, image.content_hash) {
                rest
            } else {
                rest.push(image)
            },
            crate::history::model::PayloadView::Text(_) => rest,
        }
    }
}

/// The images a history change dropped, for the cleanup queue.
pub fn images_dropped(before: &[HistoryItem], after: &[HistoryItem]) -> (dropped: Vec<ImageData>)
    ensures
        dropped@.map_values(|image: ImageData| image@) == dropped_images(item_views(before@), item_views(after@)),
{
    let ghost b = item_views(before@);
    let ghost a = item_views(after@);
    let mut dropped: Vec<ImageData> = Vec::new();
    let mut i: usize = 0;
    assert(b.take(0) =~= Seq::<crate::history::model::ItemView>::empty());
    assert(dropped@.map_values(|image: ImageData| image@) =~= Seq::<ImageView>::empty());
    while i < before.len()
        invariant
            i <= before@.len(),
            b == item_views(before@),
            a == item_views(after@),
            dropped@.map_values(|image: ImageData| image@) == dropped_images(b.take(i as int), a),
        decreases before.len() - i,
    {
        assert(b.take(i + 1).drop_last() =~= b.take(i as int));
        assert(b.take(i + 1).last() == before@[i as int]@);
        let ghost prior = dropped@;
        if let Some(image) = before[i].image() {
            if position_of_image(after, image.content_hash_string()).is_none() {
                dropped.push(image.duplicate());
                assert(dropped@.map_values(|image: ImageData| image@) =~= prior.map_values(
                    |image: ImageData| image@,
                ).push(image@));
            }
        }
        i = i + 1;
    }
    assert(b.take(i as int) =~= b);
    dropped
}

} // verus!
