//! The artist images on disk: which of them go once they take more room than they may.

use crate::protocol::views;
use vstd::prelude::*;

verus! {

/// An image file of the cache.
#[derive(Debug, PartialEq, Eq)]
pub struct CachedImage {
    pub path: String,
    pub size: u64,
    pub modified_ms: u64,
}

/// The contents of a [`CachedImage`].
#[verifier::ext_equal]
pub struct ImageView {
    pub path: Seq<char>,
    pub size: u64,
    pub modified_ms: u64,
}

impl View for CachedImage {
    type V = ImageView;

    open spec fn view(&self) -> ImageView {
        ImageView { path: self.path@, size: self.size, modified_ms: self.modified_ms }
    }
}

/// The bytes that a list of images takes.
pub open spec fn total_size(images: Seq<ImageView>) -> nat
    decreases images.len(),
{
    if images.len() == 0 {
        0
    } else {
        total_size(images.drop_last()) + images.last().size as nat
    }
}

/// A number cut to what 64 bits hold.
pub open spec fn saturated(n: nat) -> nat {
    if n > u64::MAX {
        u64::MAX as nat
    } else {
        n
    }
}

/// An image put behind those that are as old as it or older.
pub open spec fn aged_insert(images: Seq<ImageView>, image: ImageView) -> Seq<ImageView>
    decreases images.len(),
{
    if images.len() == 0 || images.last().modified_ms <= image.modified_ms {
        images.push(image)
    } else {
        aged_insert(images.drop_last(), image).push(images.last())
    }
}

/// A list of images, the oldest first; images of one age keep their order.
pub open spec fn by_age(images: Seq<ImageView>) -> Seq<ImageView>
    decreases images.len(),
{
    if images.len() == 0 {
        images
    } else {
        aged_insert(by_age(images.drop_last()), images.last())
    }
}

/// The room that images may take, in bytes; a limit of nothing counts as one megabyte.
pub open spec fn size_limit(max_size_mb: u32) -> nat {
    (if max_size_mb >= 1 {
        max_size_mb as nat
    } else {
        1
    }) * 1_048_576
}

/// A clean-up under way.
pub struct ImagePrune {
    pub waiting: Vec<CachedImage>,
    pub at: usize,
    pub total: u64,
    pub limit: u64,
}

/// The state of an [`ImagePrune`]: the images that are left to look at, the bytes that all
/// images take, and the bytes that they may take.
#[verifier::ext_equal]
pub struct PruneView {
    pub waiting: Seq<ImageView>,
    pub total: nat,
    pub limit: nat,
}

impl View for ImagePrune {
    type V = PruneView;

    open spec fn view(&self) -> PruneView {
        PruneView {
            waiting: views(self.waiting@).skip(self.at as int),
            total: self.total as nat,
            limit: self.limit as nat,
        }
    }
}

impl PruneView {
    /// The image that goes next.
    pub open spec fn victim(self) -> Option<ImageView> {
        if self.total > self.limit && self.waiting.len() > 0 {
            Some(self.waiting[0])
        } else {
            None
        }
    }

    /// The state once the next image was tried.
    pub open spec fn tried(self, gone: bool) -> PruneView {
        PruneView {
            waiting: self.waiting.drop_first(),
            total: if !gone {
                self.total
            } else if self.total >= self.waiting[0].size {
                (self.total - self.waiting[0].size) as nat
            } else {
                0
            },
            limit: self.limit,
        }
    }

    /// The state at the end, where every removal works.
    pub open spec fn finished(self) -> PruneView
        decreases self.waiting.len(),
    {
        if self.victim() is Some {
            self.tried(true).finished()
        } else {
            self
        }
    }
}

/// The state at the start of a clean-up.
pub open spec fn prune_start(images: Seq<ImageView>, max_size_mb: u32) -> PruneView {
    PruneView {
        waiting: by_age(images),
        total: saturated(total_size(images)),
        limit: size_limit(max_size_mb),
    }
}

proof fn lemma_aged_insert(images: Seq<ImageView>, image: ImageView, at: int)
    requires
        0 <= at <= images.len(),
        at > 0 ==> images[at - 1].modified_ms <= image.modified_ms,
        forall|k: int| at <= k < images.len() ==> images[k].modified_ms > image.modified_ms,
    ensures
        aged_insert(images, image) == images.insert(at, image),
    decreases images.len(),
{
    if at == images.len() {
        assert(images.insert(at, image) =~= images.push(image));
    } else {
        lemma_aged_insert(images.drop_last(), image, at);
        assert(images.insert(at, image) =~= images.drop_last().insert(at, image).push(
            images.last(),
        ));
    }
}

impl ImagePrune {
    pub open spec fn wf(self) -> bool {
        self.at <= self.waiting.len()
    }

    /// Starts a clean-up of the images that are there.
    pub fn new(files: &Vec<CachedImage>, max_size_mb: u32) -> (r: Self)
        ensures
            r.wf(),
            r@ == prune_start(views(files@), max_size_mb),
    {
        let ghost all = views(files@);
        let mut waiting: Vec<CachedImage> = Vec::new();
        let mut total: u64 = 0;
        let count: usize = files.len();
        assert(all.take(0) =~= Seq::empty());
        assert(views(waiting@) =~= by_age(all.take(0)));
        let mut done: usize = 0;
        while done < count
            invariant
                done <= count,
                count == files.len(),
                all == views(files@),
                views(waiting@) == by_age(all.take(done as int)),
                total == saturated(total_size(all.take(done as int))),
            decreases count - done,
        {
            let ghost before = views(waiting@);
            let size: u64 = files[done].size;
            let modified_ms: u64 = files[done].modified_ms;
            let image = CachedImage { path: files[done].path.clone(), size, modified_ms };
            assert(image@ == all[done as int]);
            let mut at: usize = waiting.len();
            while at > 0 && waiting[at - 1].modified_ms > modified_ms
                invariant
                    at <= waiting.len(),
                    views(waiting@) == before,
                    forall|k: int|
                        at <= k < waiting.len() ==> before[k].modified_ms > modified_ms,
                decreases at,
            {
                assert(before[at - 1] == waiting@[at - 1]@);
                at -= 1;
            }
            proof {
                if at > 0 {
                    assert(before[at - 1] == waiting@[at - 1]@);
                }
                lemma_aged_insert(before, image@, at as int);
                assert(all.take(done as int + 1).drop_last() =~= all.take(done as int));
                assert(all.take(done as int + 1).last() == image@);
            }
            let ghost view = image@;
            waiting.insert(at, image);
            assert(views(waiting@) =~= before.insert(at as int, view));
            total = if total > u64::MAX - size {
                u64::MAX
            } else {
                total + size
            };
            done += 1;
        }
        assert(all.take(count as int) =~= all);
        let megabytes: u64 = if max_size_mb >= 1 {
            max_size_mb as u64
        } else {
            1
        };
        let r = ImagePrune { waiting, at: 0, total, limit: megabytes * 1_048_576 };
        assert(views(r.waiting@).skip(0) =~= views(r.waiting@));
        r
    }

    /// The path of the image to remove next, as long as the images take too much room.
    pub fn victim(&self) -> (r: Option<String>)
        requires
            self.wf(),
        ensures
            crate::text::option_text(r) == (match self@.victim() {
                Some(image) => Some(image.path),
                None => None,
            }),
    {
        if self.total > self.limit && self.at < self.waiting.len() {
            Some(self.waiting[self.at].path.clone())
        } else {
            None
        }
    }

    /// Goes on once the next image was tried; `gone` tells whether it was removed.
    pub fn tried(&mut self, gone: bool)
        requires
            old(self).wf(),
            old(self)@.victim() is Some,
        ensures
            final(self).wf(),
            final(self)@ == old(self)@.tried(gone),
    {
        let size: u64 = self.waiting[self.at].size;
        if gone {
            self.total = if self.total >= size {
                self.total - size
            } else {
                0
            };
        }
        self.at = self.at + 1;
        assert(self@.waiting =~= old(self)@.waiting.drop_first());
    }
}

proof fn lemma_total_front(images: Seq<ImageView>)
    requires
        images.len() > 0,
    ensures
        total_size(images) == images[0].size + total_size(images.drop_first()),
    decreases images.len(),
{
    if images.len() > 1 {
        lemma_total_front(images.drop_last());
        assert(images.drop_last().drop_first() =~= images.drop_first().drop_last());
    } else {
        assert(images.drop_first() =~= Seq::empty());
        assert(images.drop_last() =~= Seq::empty());
        assert(total_size(images.drop_first()) == 0);
        assert(total_size(images.drop_last()) == 0);
    }
}

proof fn lemma_aged_total(images: Seq<ImageView>, image: ImageView)
    ensures
        total_size(aged_insert(images, image)) == total_size(images) + image.size,
    decreases images.len(),
{
    if images.len() == 0 || images.last().modified_ms <= image.modified_ms {
        assert(images.push(image).drop_last() =~= images);
    } else {
        lemma_aged_total(images.drop_last(), image);
        let front = aged_insert(images.drop_last(), image);
        assert(front.push(images.last()).drop_last() =~= front);
    }
}

proof fn lemma_by_age_total(images: Seq<ImageView>)
    ensures
        total_size(by_age(images)) == total_size(images),
    decreases images.len(),
{
    if images.len() > 0 {
        lemma_by_age_total(images.drop_last());
        lemma_aged_total(by_age(images.drop_last()), images.last());
    }
}

proof fn lemma_finished(p: PruneView)
    requires
        p.total == total_size(p.waiting),
    ensures
        p.finished().total <= p.limit,
        p.finished().total == total_size(p.finished().waiting),
    decreases p.waiting.len(),
{
    if p.victim() is Some {
        lemma_total_front(p.waiting);
        lemma_finished(p.tried(true));
    }
}

/// Where every removal works, a clean-up leaves no more than the limit, and counts rightly
/// what it leaves.
pub proof fn cleaning_up_suffices(images: Seq<ImageView>, max_size_mb: u32)
    requires
        total_size(images) <= u64::MAX,
    ensures
        prune_start(images, max_size_mb).finished().total <= size_limit(max_size_mb),
        prune_start(images, max_size_mb).finished().total == total_size(
            prune_start(images, max_size_mb).finished().waiting,
        ),
{
    lemma_by_age_total(images);
    lemma_finished(prune_start(images, max_size_mb));
}

proof fn lemma_aged_insert_sorted(images: Seq<ImageView>, image: ImageView)
    requires
        forall|i: int, j: int|
            0 <= i <= j < images.len() ==> (#[trigger] images[i]).modified_ms <= (
            #[trigger] images[j]).modified_ms,
    ensures
        ({
            let out = aged_insert(images, image);
            &&& out.len() == images.len() + 1
            &&& forall|i: int, j: int|
                0 <= i <= j < out.len() ==> (#[trigger] out[i]).modified_ms <= (
                #[trigger] out[j]).modified_ms
            &&& out.last().modified_ms == image.modified_ms || (images.len() > 0
                && out.last().modified_ms == images.last().modified_ms)
        }),
    decreases images.len(),
{
    if images.len() > 0 && images.last().modified_ms > image.modified_ms {
        let front = images.drop_last();
        assert forall|i: int, j: int| 0 <= i <= j < front.len() implies (
        #[trigger] front[i]).modified_ms <= (#[trigger] front[j]).modified_ms by {
            assert(images[i].modified_ms <= images[j].modified_ms);
        }
        lemma_aged_insert_sorted(front, image);
        let inner = aged_insert(front, image);
        let out = inner.push(images.last());
        if front.len() > 0 {
            assert(images[front.len() - 1].modified_ms <= images[images.len() - 1].modified_ms);
        }
        assert(inner.last().modified_ms <= images.last().modified_ms);
        assert forall|i: int, j: int| 0 <= i <= j < out.len() implies (
        #[trigger] out[i]).modified_ms <= (#[trigger] out[j]).modified_ms by {
            if j < inner.len() {
                assert(inner[i].modified_ms <= inner[j].modified_ms);
            } else if i < inner.len() {
                assert(inner[i].modified_ms <= inner[inner.len() - 1].modified_ms);
            }
        }
    } else {
        let out = images.push(image);
        assert forall|i: int, j: int| 0 <= i <= j < out.len() implies (
        #[trigger] out[i]).modified_ms <= (#[trigger] out[j]).modified_ms by {
            if j < images.len() {
                assert(images[i].modified_ms <= images[j].modified_ms);
            } else if i < images.len() {
                assert(images[i].modified_ms <= images[images.len() - 1].modified_ms);
            }
        }
    }
}

/// The oldest image goes first: those that wait are ordered by their age.
pub proof fn oldest_images_go_first(images: Seq<ImageView>)
    ensures
        forall|i: int, j: int|
            0 <= i <= j < by_age(images).len() ==> (#[trigger] by_age(images)[i]).modified_ms <= (
            #[trigger] by_age(images)[j]).modified_ms,
    decreases images.len(),
{
    if images.len() > 0 {
        oldest_images_go_first(images.drop_last());
        lemma_aged_insert_sorted(by_age(images.drop_last()), images.last());
    }
}

/// Images are removed only while they take more than they may, the one in front first; what was
/// removed no longer counts, what could not be removed does, and neither is tried again.
pub proof fn images_go_only_over_the_limit(p: PruneView)
    ensures
        p.total <= p.limit ==> p.victim() is None,
        p.total > p.limit && p.waiting.len() > 0 ==> p.victim() == Some(p.waiting.first()),
        p.waiting.len() == 0 ==> p.victim() is None,
        p.tried(false).total == p.total,
        p.waiting.len() > 0 && p.total >= p.waiting.first().size ==> p.tried(true).total
            + p.waiting.first().size == p.total,
        p.tried(true).limit == p.limit && p.tried(false).limit == p.limit,
        p.waiting.len() > 0 ==> seq![p.waiting.first()] + p.tried(true).waiting == p.waiting
            && p.tried(false).waiting == p.tried(true).waiting,
{
    if p.waiting.len() > 0 {
        assert(seq![p.waiting.first()] + p.waiting.drop_first() =~= p.waiting);
    }
}

/// A limit counts in mebibytes, and is at least one.
pub proof fn limits_count_in_mebibytes(megabytes: u32)
    ensures
        size_limit(0) == 1024 * 1024,
        size_limit(1) == 1024 * 1024,
        1 <= megabytes < u32::MAX ==> size_limit((megabytes + 1) as u32) == size_limit(megabytes)
            + 1024 * 1024,
{
    if 1 <= megabytes < u32::MAX {
        assert((megabytes + 1) * 1_048_576 == megabytes * 1_048_576 + 1_048_576)
            by (nonlinear_arith);
    }
}

proof fn lemma_aged_items(images: Seq<ImageView>, image: ImageView)
    ensures
        aged_insert(images, image).to_multiset() == images.to_multiset().insert(image),
    decreases images.len(),
{
    broadcast use vstd::seq_lib::group_to_multiset_ensures;

    if images.len() > 0 && images.last().modified_ms > image.modified_ms {
        lemma_aged_items(images.drop_last(), image);
        assert(images.drop_last().push(images.last()) =~= images);
        assert(images.to_multiset().insert(image) =~= images.drop_last().to_multiset().insert(
            image,
        ).insert(images.last()));
    }
}

/// Every image waits its turn, and none twice.
pub proof fn all_images_wait(images: Seq<ImageView>)
    ensures
        by_age(images).to_multiset() == images.to_multiset(),
    decreases images.len(),
{
    broadcast use vstd::seq_lib::group_to_multiset_ensures;

    if images.len() > 0 {
        all_images_wait(images.drop_last());
        lemma_aged_items(by_age(images.drop_last()), images.last());
        assert(images.drop_last().push(images.last()) =~= images);
    }
}

/// A clean-up removes no more than it must: it stops at the first image with which the rest
/// fits, so with the last image that it removed the rest would not.
pub proof fn cleaning_up_stops_in_time(p: PruneView)
    requires
        p.total == total_size(p.waiting),
    ensures
        ({
            let left = p.finished().waiting;
            let gone = p.waiting.len() - left.len();
            &&& 0 <= gone
            &&& left == p.waiting.skip(gone)
            &&& gone > 0 ==> total_size(left) + p.waiting[gone - 1].size > p.limit
            &&& gone == 0 <==> total_size(p.waiting) <= p.limit
        }),
    decreases p.waiting.len(),
{
    if p.victim() is Some {
        lemma_total_front(p.waiting);
        let next = p.tried(true);
        cleaning_up_stops_in_time(next);
        let left = p.finished().waiting;
        let gone = p.waiting.len() - left.len();
        assert(next.waiting.skip(gone - 1) =~= p.waiting.skip(gone));
        if gone > 1 {
            assert(next.waiting[gone - 2] == p.waiting[gone - 1]);
        } else {
            assert(left =~= next.waiting);
        }
    } else {
        assert(p.waiting.skip(0) =~= p.waiting);
        if p.waiting.len() == 0 {
            assert(total_size(p.waiting) == 0);
        }
    }
}

} // verus!
