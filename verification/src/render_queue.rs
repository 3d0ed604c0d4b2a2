//! Which pages to render next: the pages around the visible part of the
//! canvas, and the sidebar's thumbnails, rendered in batches, nearest to the
//! current page first, with a bound on how many batches run at once.

use vstd::prelude::*;
use vstd::set_lib::{lemma_int_range, lemma_len_subset, set_int_range};
use crate::navigation::{has_page, is_render_idle, render_idle};

verus! {

/// An inclusive range of pages handed to the renderer in one call.
#[derive(Clone, Copy, Debug, PartialEq, Eq, Structural)]
pub struct PageSpan {
    pub first: u32,
    pub last: u32,
}

/// The first page the canvas renders when pages `first..` are visible: one
/// page before them, but never before page 1.
pub open spec fn buffered_first(first: u32) -> int {
    if first <= 1 {
        1
    } else {
        first - 1
    }
}

/// The last page the canvas renders when pages `..=last` are visible: one
/// page after them, but never past the document's last page.
pub open spec fn buffered_last(last: u32, page_count: u32) -> int {
    if last + 1 <= page_count {
        last + 1
    } else {
        page_count as int
    }
}

/// Whether `page` lies in `lo..=hi` and has no image among `rendered`.
pub open spec fn unrendered_in(rendered: Set<u32>, lo: int, hi: int, page: int) -> bool {
    lo <= page <= hi && !rendered.contains(page as u32)
}

/// Whether `r` is what the canvas renders when pages `first..=last` of a
/// document of `page_count` pages are visible and the pages among
/// `rendered` have images: the buffered range's pages without an image,
/// covered by one span from the lowest of them to the highest, or `None`
/// when every page of the buffered range has one.
pub open spec fn is_render_span(
    rendered: Set<u32>,
    first: u32,
    last: u32,
    page_count: u32,
    r: Option<PageSpan>,
) -> bool {
    let lo = buffered_first(first);
    let hi = buffered_last(last, page_count);
    &&& r is None <==> forall|p: int| !#[trigger] unrendered_in(rendered, lo, hi, p)
    &&& r matches Some(s) ==> {
        &&& unrendered_in(rendered, lo, hi, s.first as int)
        &&& unrendered_in(rendered, lo, hi, s.last as int)
        &&& forall|p: int| #[trigger] unrendered_in(rendered, lo, hi, p) ==> s.first <= p <= s.last
    }
}

/// The pages the canvas renders when pages `first..=last` are visible and
/// those among `rendered` already have images; see [`is_render_span`].
pub fn canvas_render_span(first: u32, last: u32, page_count: u32, rendered: &[u32]) -> (r: Option<
    PageSpan,
>)
    ensures
        is_render_span(rendered@.to_set(), first, last, page_count, r),
{
    let lo: u64 = if first <= 1 {
        1
    } else {
        (first - 1) as u64
    };
    let hi: u64 = if (last as u64) + 1 <= page_count as u64 {
        (last as u64) + 1
    } else {
        page_count as u64
    };
    let ghost glo = buffered_first(first);
    let ghost ghi = buffered_last(last, page_count);
    assert(lo == glo && hi == ghi);
    if lo > hi {
        return None;
    }
    // The lowest page without an image.
    let mut p: u64 = lo;
    let mut found = false;
    while !found && p <= hi
        invariant
            lo == glo,
            hi == ghi,
            lo <= p <= hi + 1,
            hi <= u32::MAX,
            found ==> p <= hi && unrendered_in(rendered@.to_set(), glo, ghi, p as int),
            forall|q: int| lo <= q < p ==> !#[trigger] unrendered_in(rendered@.to_set(), glo, ghi, q),
        decreases hi + 2 - p - (if found { 1int } else { 0int }),
    {
        if has_page(rendered, p as u32) {
            p = p + 1;
        } else {
            found = true;
        }
    }
    if !found {
        assert forall|q: int| !#[trigger] unrendered_in(rendered@.to_set(), glo, ghi, q) by {
            if lo <= q && q <= hi {
            }
        }
        return None;
    }
    // The highest page without an image.
    let mut h: u64 = hi;
    let mut found_high = false;
    while !found_high && h > p
        invariant
            lo == glo,
            hi == ghi,
            lo <= p <= h <= hi,
            hi <= u32::MAX,
            unrendered_in(rendered@.to_set(), glo, ghi, p as int),
            found_high ==> unrendered_in(rendered@.to_set(), glo, ghi, h as int),
            forall|q: int| h < q <= hi ==> !#[trigger] unrendered_in(rendered@.to_set(), glo, ghi, q),
        decreases h - p + (if found_high { 0int } else { 1int }),
    {
        if has_page(rendered, h as u32) {
            h = h - 1;
        } else {
            found_high = true;
        }
    }
    Some(PageSpan { first: p as u32, last: h as u32 })
}

/// The most thumbnail batches that may be rendering at once.
pub const MAX_CONCURRENT_THUMBNAIL_TASKS: u32 = 2;

/// The most pages one thumbnail batch covers.
pub const THUMBNAIL_BATCH_SIZE: usize = 20;

/// A batch of thumbnails to render: pages `first..=last` at `dpi` dots per
/// inch, on behalf of the queue's generation `generation`.
#[derive(Clone, Copy, Debug, PartialEq, Eq, Structural)]
pub struct ThumbnailBatch {
    pub first: u32,
    pub last: u32,
    pub dpi: u32,
    pub generation: u64,
}

/// The thumbnail queue's state: the pages whose thumbnails are cached, the
/// number of batches rendering, and the generation that rendered results
/// must carry to be kept.
pub struct ThumbnailState {
    pub cached: Set<u32>,
    pub active: u32,
    pub generation: u64,
}

/// How far page `p` lies from page `center`.
pub open spec fn page_distance(p: int, center: int) -> int {
    if p < center {
        center - p
    } else {
        p - center
    }
}

/// Whether page `q` comes before page `p` when pages are taken nearest to
/// `center` first, the lower of two equally near pages first.
pub open spec fn nearer(q: int, p: int, center: int) -> bool {
    page_distance(q, center) < page_distance(p, center) || (page_distance(q, center)
        == page_distance(p, center) && q < p)
}

/// Whether page `p` of a document of `page_count` pages still needs a
/// thumbnail.
pub open spec fn awaiting(cached: Set<u32>, page_count: u32, p: int) -> bool {
    1 <= p <= page_count && !cached.contains(p as u32)
}

/// The pages still needing a thumbnail that come before `p`, nearest to
/// `center` first.
pub open spec fn ahead_of(cached: Set<u32>, page_count: u32, center: int, p: int) -> Set<int> {
    Set::new(|q: int| awaiting(cached, page_count, q) && nearer(q, p, center))
}

/// Whether page `p` belongs to the next backfill batch: it needs a
/// thumbnail, and fewer than a batch's worth of such pages come before it.
pub open spec fn in_backfill_batch(cached: Set<u32>, page_count: u32, center: int, p: int) -> bool {
    awaiting(cached, page_count, p) && ahead_of(cached, page_count, center, p).len()
        < THUMBNAIL_BATCH_SIZE
}

/// Whether a backfill batch is due: fewer batches than the limit are
/// rendering, the sidebar shows, thumbnails have a resolution, and some page
/// still needs one.
pub open spec fn backfill_due(
    s: ThumbnailState,
    sidebar_visible: bool,
    page_count: u32,
    dpi: u32,
) -> bool {
    &&& s.active < MAX_CONCURRENT_THUMBNAIL_TASKS
    &&& sidebar_visible
    &&& page_count > 0
    &&& dpi > 0
    &&& exists|p: int| #[trigger] awaiting(s.cached, page_count, p)
}

/// The page where the nearest-first walk outward from `center` stands after
/// `d` steps out: below the center, or above it once `upper`.
pub open spec fn frontier(center: int, d: int, upper: bool) -> int {
    if upper {
        center + d
    } else {
        center - d
    }
}

/// Everything that comes before a page in nearest-first order lies within
/// the document, so there are finitely many such pages, and no more than
/// the pages before any later one.
proof fn lemma_ahead_finite(cached: Set<u32>, page_count: u32, center: int, p: int)
    ensures
        ahead_of(cached, page_count, center, p).finite(),
        ahead_of(cached, page_count, center, p).len() <= page_count,
{
    lemma_int_range(1, page_count + 1);
    lemma_len_subset(ahead_of(cached, page_count, center, p), set_int_range(1, page_count + 1));
}

/// One step of the walk adds the page it passes, if that page needs a
/// thumbnail, to the pages before the walk's position.
proof fn lemma_frontier_step(cached: Set<u32>, page_count: u32, center: int, d: int, upper: bool)
    requires
        d >= 0,
        upper || d >= 1,
    ensures
        ({
            let x = frontier(center, d, upper);
            let y = if upper {
                frontier(center, d + 1, false)
            } else {
                frontier(center, d, true)
            };
            ahead_of(cached, page_count, center, y) == if awaiting(cached, page_count, x) {
                ahead_of(cached, page_count, center, x).insert(x)
            } else {
                ahead_of(cached, page_count, center, x)
            }
        }),
{
    let x = frontier(center, d, upper);
    let y = if upper {
        frontier(center, d + 1, false)
    } else {
        frontier(center, d, true)
    };
    let before = ahead_of(cached, page_count, center, x);
    let after = ahead_of(cached, page_count, center, y);
    if awaiting(cached, page_count, x) {
        assert(after =~= before.insert(x));
    } else {
        assert(after =~= before);
    }
}

/// Once the walk has taken a batch's worth of pages, or every page still
/// needing a thumbnail, the pages it took are exactly the next batch.
proof fn lemma_taken_is_batch(cached: Set<u32>, page_count: u32, center: int, x: int, p: int)
    requires
        ahead_of(cached, page_count, center, x).len() <= THUMBNAIL_BATCH_SIZE,
        ahead_of(cached, page_count, center, x).len() == THUMBNAIL_BATCH_SIZE || forall|q: int|
            #[trigger] awaiting(cached, page_count, q) ==> nearer(q, x, center),
    ensures
        in_backfill_batch(cached, page_count, center, p) <==> ahead_of(
            cached,
            page_count,
            center,
            x,
        ).contains(p),
{
    let taken = ahead_of(cached, page_count, center, x);
    let mine = ahead_of(cached, page_count, center, p);
    lemma_ahead_finite(cached, page_count, center, x);
    lemma_ahead_finite(cached, page_count, center, p);
    if taken.contains(p) {
        assert(mine.subset_of(taken.remove(p)));
        lemma_len_subset(mine, taken.remove(p));
    } else if awaiting(cached, page_count, p) {
        assert(taken.subset_of(mine));
        lemma_len_subset(taken, mine);
    }
}

/// The pages of `first..=last` whose thumbnails are not cached, in order.
pub open spec fn uncached_pages(cached: Set<u32>, first: int, last: int) -> Seq<u32>
    decreases last - first + 1,
{
    if last < first {
        Seq::empty()
    } else {
        let rest = uncached_pages(cached, first, last - 1);
        if cached.contains(last as u32) {
            rest
        } else {
            rest.push(last as u32)
        }
    }
}

/// The number of batches that `len` pages fill, the last perhaps partly.
pub open spec fn chunk_count(len: nat) -> nat {
    ((len + THUMBNAIL_BATCH_SIZE - 1) / THUMBNAIL_BATCH_SIZE as int) as nat
}

/// Batch `j` of `pages` cut into batches in order: from its first page to
/// its last, at `dpi`, for `generation`.
pub open spec fn chunk_batch(pages: Seq<u32>, j: int, dpi: u32, generation: u64) -> ThumbnailBatch {
    let start = j * THUMBNAIL_BATCH_SIZE;
    let end = if start + THUMBNAIL_BATCH_SIZE <= pages.len() {
        start + THUMBNAIL_BATCH_SIZE
    } else {
        pages.len() as int
    };
    ThumbnailBatch { first: pages[start], last: pages[end - 1], dpi, generation }
}

/// The number of batches rendered for the visible thumbnails: none unless
/// fewer batches than the limit are rendering, the sidebar shows, the
/// document has pages and thumbnails have a resolution; then as many of the
/// `len` pages' batches as the limit leaves room for.
pub open spec fn visible_batch_count(
    s: ThumbnailState,
    sidebar_visible: bool,
    page_count: u32,
    dpi: u32,
    len: nat,
) -> nat {
    if s.active < MAX_CONCURRENT_THUMBNAIL_TASKS && sidebar_visible && page_count > 0 && dpi > 0 {
        let room = (MAX_CONCURRENT_THUMBNAIL_TASKS - s.active) as nat;
        if chunk_count(len) <= room {
            chunk_count(len)
        } else {
            room
        }
    } else {
        0
    }
}

/// The sidebar's thumbnail queue; see [`ThumbnailState`].
pub struct ThumbnailQueue {
    cached: Vec<u32>,
    active_batch_tasks: u32,
    backfill_generation: u64,
}

impl View for ThumbnailQueue {
    type V = ThumbnailState;

    closed spec fn view(&self) -> ThumbnailState {
        ThumbnailState {
            cached: self.cached@.to_set(),
            active: self.active_batch_tasks,
            generation: self.backfill_generation,
        }
    }
}

impl ThumbnailQueue {
    /// An empty queue: nothing cached, nothing rendering, generation 0.
    pub fn new() -> (r: Self)
        ensures
            r@.cached == Set::<u32>::empty(),
            r@.active == 0,
            r@.generation == 0,
    {
        let r = ThumbnailQueue { cached: Vec::new(), active_batch_tasks: 0, backfill_generation: 0 };
        assert(r@.cached =~= Set::<u32>::empty());
        r
    }

    /// Whether page `page`'s thumbnail is cached.
    pub fn is_cached(&self, page: u32) -> (r: bool)
        ensures
            r == self@.cached.contains(page),
    {
        has_page(self.cached.as_slice(), page)
    }

    /// The number of batches rendering.
    pub fn active_batch_tasks(&self) -> (r: u32)
        ensures
            r == self@.active,
    {
        self.active_batch_tasks
    }

    /// The generation that rendered results must carry to be kept.
    pub fn backfill_generation(&self) -> (r: u64)
        ensures
            r == self@.generation,
    {
        self.backfill_generation
    }

    /// Starts a new generation, so that batches still rendering for the old
    /// one are dropped when they arrive; returns the new generation.
    pub fn advance_generation(&mut self) -> (r: u64)
        requires
            old(self)@.generation < u64::MAX,
        ensures
            r == old(self)@.generation + 1,
            final(self)@.generation == r,
            final(self)@.cached == old(self)@.cached,
            final(self)@.active == old(self)@.active,
    {
        self.backfill_generation = self.backfill_generation + 1;
        self.backfill_generation
    }

    /// Forgets every cached thumbnail and every batch in flight, as when a
    /// document is opened or the thumbnails' resolution changes.
    pub fn clear(&mut self)
        ensures
            final(self)@.cached == Set::<u32>::empty(),
            final(self)@.active == 0,
            final(self)@.generation == old(self)@.generation,
    {
        self.cached = Vec::new();
        self.active_batch_tasks = 0;
        assert(self@.cached =~= Set::<u32>::empty());
    }

    /// The wait after the sidebar resize that started `generation` ran out.
    /// Returns whether that resize is the latest: then every thumbnail and
    /// every batch in flight is forgotten, so that thumbnails render anew at
    /// the new size; a wait for an older resize changes nothing.
    pub fn resize_settled(&mut self, generation: u64) -> (r: bool)
        ensures
            r == (generation == old(self)@.generation),
            r ==> final(self)@.cached == Set::<u32>::empty(),
            r ==> final(self)@.active == 0,
            final(self)@.generation == old(self)@.generation,
            !r ==> final(self)@ == old(self)@,
    {
        if generation == self.backfill_generation {
            self.clear();
            true
        } else {
            false
        }
    }

    /// A batch rendered for `generation` arrived with thumbnails of `pages`:
    /// one batch fewer is rendering, and the pages are cached if the batch
    /// belongs to the current generation.
    pub fn batch_rendered(&mut self, pages: &[u32], generation: u64)
        ensures
            final(self)@.active == (if old(self)@.active > 0 {
                old(self)@.active - 1
            } else {
                0
            }),
            final(self)@.generation == old(self)@.generation,
            final(self)@.cached == (if generation == old(self)@.generation {
                old(self)@.cached + pages@.to_set()
            } else {
                old(self)@.cached
            }),
    {
        self.active_batch_tasks = if self.active_batch_tasks > 0 {
            self.active_batch_tasks - 1
        } else {
            0
        };
        if generation != self.backfill_generation {
            return;
        }
        let ghost start = self.cached@.to_set();
        let ghost active = self.active_batch_tasks;
        let mut i: usize = 0;
        while i < pages.len()
            invariant
                i <= pages@.len(),
                self.active_batch_tasks == active,
                self.backfill_generation == generation,
                self.cached@.to_set() == start + pages@.take(i as int).to_set(),
            decreases pages.len() - i,
        {
            let page = pages[i];
            let ghost before = self.cached@;
            if !has_page(self.cached.as_slice(), page) {
                self.cached.push(page);
                proof {
                    before.lemma_push_to_set_commute(page);
                }
            } else {
                assert(before.to_set() =~= before.to_set().insert(page));
            }
            assert(pages@.take(i + 1) =~= pages@.take(i as int).push(page));
            proof {
                pages@.take(i as int).lemma_push_to_set_commute(page);
            }
            assert(self.cached@.to_set() =~= start + pages@.take(i + 1).to_set());
            i = i + 1;
        }
        assert(pages@.take(pages@.len() as int) =~= pages@);
    }

    /// The next backfill batch: when one is due (see [`backfill_due`]), the
    /// pages of the next batch (see [`in_backfill_batch`]), nearest to
    /// `current_page` first, covered by one span from the lowest of them to
    /// the highest, at `dpi` for the current generation; one batch more is
    /// then rendering. Otherwise `None`, and nothing changes.
    pub fn schedule_backfill(
        &mut self,
        sidebar_visible: bool,
        page_count: u32,
        current_page: u32,
        dpi: u32,
    ) -> (r: Option<ThumbnailBatch>)
        ensures
            r is Some <==> backfill_due(old(self)@, sidebar_visible, page_count, dpi),
            r is None ==> final(self)@ == old(self)@,
            old(self)@.active <= MAX_CONCURRENT_THUMBNAIL_TASKS ==> final(self)@.active
                <= MAX_CONCURRENT_THUMBNAIL_TASKS,
            r matches Some(b) ==> {
                &&& final(self)@.active == old(self)@.active + 1
                &&& final(self)@.cached == old(self)@.cached
                &&& final(self)@.generation == old(self)@.generation
                &&& b.dpi == dpi
                &&& b.generation == old(self)@.generation
                &&& in_backfill_batch(old(self)@.cached, page_count, current_page as int, b.first as int)
                &&& in_backfill_batch(old(self)@.cached, page_count, current_page as int, b.last as int)
                &&& forall|p: int|
                    #[trigger] in_backfill_batch(old(self)@.cached, page_count, current_page as int, p)
                        ==> b.first <= p <= b.last
            },
    {
        if self.active_batch_tasks >= MAX_CONCURRENT_THUMBNAIL_TASKS || !sidebar_visible
            || page_count == 0 || dpi == 0 {
            return None;
        }
        let ghost cached = self@.cached;
        let ghost center = current_page as int;
        let c: u64 = current_page as u64;
        let n: u64 = page_count as u64;
        let limit: u64 = c + n;
        let mut d: u64 = 0;
        let mut upper = true;
        let mut taken: usize = 0;
        let mut lo: u32 = 0;
        let mut hi: u32 = 0;
        proof {
            assert(ahead_of(cached, page_count, center, center) =~= Set::<int>::empty());
        }
        while taken < THUMBNAIL_BATCH_SIZE && d <= limit
            invariant
                cached == self@.cached,
                center == c,
                c == current_page as u64,
                n == page_count,
                limit == c + n,
                d <= limit + 1,
                upper || d >= 1,
                taken <= THUMBNAIL_BATCH_SIZE,
                taken == ahead_of(cached, page_count, center, frontier(center, d as int, upper)).len(),
                taken > 0 ==> {
                    let t = ahead_of(cached, page_count, center, frontier(center, d as int, upper));
                    &&& t.contains(lo as int)
                    &&& t.contains(hi as int)
                    &&& forall|q: int| #[trigger] t.contains(q) ==> lo <= q <= hi
                },
            decreases 2 * (limit + 1 - d) + (if upper { 0int } else { 1int }),
        {
            let ghost x = frontier(center, d as int, upper);
            let ghost before = ahead_of(cached, page_count, center, x);
            proof {
                lemma_frontier_step(cached, page_count, center, d as int, upper);
                lemma_ahead_finite(cached, page_count, center, x);
            }
            let candidate: Option<u64> = if upper {
                Some(c + d)
            } else if d <= c {
                Some(c - d)
            } else {
                None
            };
            if let Some(page) = candidate {
                if page >= 1 && page <= n && !has_page(self.cached.as_slice(), page as u32) {
                    let p32 = page as u32;
                    assert(awaiting(cached, page_count, x));
                    assert(!before.contains(x));
                    if taken == 0 || p32 < lo {
                        lo = p32;
                    }
                    if taken == 0 || p32 > hi {
                        hi = p32;
                    }
                    taken = taken + 1;
                } else {
                    assert(!awaiting(cached, page_count, x));
                }
            } else {
                assert(!awaiting(cached, page_count, x));
            }
            if upper {
                d = d + 1;
                upper = false;
            } else {
                upper = true;
            }
        }
        let ghost x = frontier(center, d as int, upper);
        proof {
            lemma_ahead_finite(cached, page_count, center, x);
            if taken < THUMBNAIL_BATCH_SIZE {
                assert forall|q: int| #[trigger] awaiting(cached, page_count, q) implies nearer(
                    q,
                    x,
                    center,
                ) by {}
            }
        }
        if taken == 0 {
            proof {
                assert forall|q: int| !#[trigger] awaiting(cached, page_count, q) by {
                    if awaiting(cached, page_count, q) {
                        assert(ahead_of(cached, page_count, center, x).contains(q));
                    }
                }
            }
            return None;
        }
        proof {
            assert(awaiting(cached, page_count, lo as int));
            assert forall|p: int|
                #[trigger] in_backfill_batch(cached, page_count, center, p) <==> ahead_of(
                    cached,
                    page_count,
                    center,
                    x,
                ).contains(p) by {
                lemma_taken_is_batch(cached, page_count, center, x, p);
            }
        }
        self.active_batch_tasks = self.active_batch_tasks + 1;
        Some(ThumbnailBatch { first: lo, last: hi, dpi, generation: self.backfill_generation })
    }

    /// The batches that render the visible thumbnails, pages `first..=last`:
    /// their pages without a cached thumbnail, cut in order into batches
    /// (see [`chunk_batch`]), as many as [`visible_batch_count`] allows, at
    /// `dpi` for the current generation; that many batches more are then
    /// rendering.
    pub fn visible_batches(
        &mut self,
        sidebar_visible: bool,
        page_count: u32,
        dpi: u32,
        first: u32,
        last: u32,
    ) -> (r: Vec<ThumbnailBatch>)
        ensures
            ({
                let pages = uncached_pages(old(self)@.cached, first as int, last as int);
                let k = visible_batch_count(old(self)@, sidebar_visible, page_count, dpi, pages.len());
                &&& r@.len() == k
                &&& final(self)@.active == old(self)@.active + k
                &&& forall|j: int|
                    0 <= j < k ==> #[trigger] r@[j] == chunk_batch(
                        pages,
                        j,
                        dpi,
                        old(self)@.generation,
                    )
            }),
            final(self)@.cached == old(self)@.cached,
            final(self)@.generation == old(self)@.generation,
            old(self)@.active <= MAX_CONCURRENT_THUMBNAIL_TASKS ==> final(self)@.active
                <= MAX_CONCURRENT_THUMBNAIL_TASKS,
    {
        let mut batches: Vec<ThumbnailBatch> = Vec::new();
        if self.active_batch_tasks >= MAX_CONCURRENT_THUMBNAIL_TASKS || !sidebar_visible
            || page_count == 0 || dpi == 0 {
            return batches;
        }
        let ghost cached = self@.cached;
        let mut pages: Vec<u32> = Vec::new();
        let mut p: u64 = first as u64;
        while p <= last as u64
            invariant
                cached == self@.cached,
                first <= p <= last as u64 + 1 || p == first,
                pages@ == uncached_pages(cached, first as int, p - 1),
            decreases last as u64 + 1 - p,
        {
            if !has_page(self.cached.as_slice(), p as u32) {
                pages.push(p as u32);
            }
            p = p + 1;
        }
        assert(pages@ == uncached_pages(cached, first as int, last as int)) by {
            if last < first {
                assert(uncached_pages(cached, first as int, first - 1) =~= Seq::<u32>::empty());
            }
        }
        let ghost start_active = self.active_batch_tasks;
        let ghost generation = self.backfill_generation;
        let ghost k = visible_batch_count(self@, sidebar_visible, page_count, dpi, pages@.len());
        let mut start: usize = 0;
        while self.active_batch_tasks < MAX_CONCURRENT_THUMBNAIL_TASKS && start < pages.len()
            invariant
                start_active < MAX_CONCURRENT_THUMBNAIL_TASKS,
                start == (if batches@.len() * THUMBNAIL_BATCH_SIZE <= pages@.len() {
                    batches@.len() * THUMBNAIL_BATCH_SIZE
                } else {
                    pages@.len() as int
                }),
                self.backfill_generation == generation,
                self.active_batch_tasks == start_active + batches@.len(),
                batches@.len() <= chunk_count(pages@.len()),
                batches@.len() <= MAX_CONCURRENT_THUMBNAIL_TASKS - start_active,
                start < pages@.len() ==> batches@.len() < chunk_count(pages@.len()),
                start >= pages@.len() ==> batches@.len() == chunk_count(pages@.len()),
                self@.cached == cached,
                forall|j: int|
                    0 <= j < batches@.len() ==> #[trigger] batches@[j] == chunk_batch(
                        pages@,
                        j,
                        dpi,
                        self.backfill_generation,
                    ),
            decreases pages.len() - start,
        {
            let end: usize = if pages.len() - start >= THUMBNAIL_BATCH_SIZE {
                start + THUMBNAIL_BATCH_SIZE
            } else {
                pages.len()
            };
            batches.push(
                ThumbnailBatch {
                    first: pages[start],
                    last: pages[end - 1],
                    dpi,
                    generation: self.backfill_generation,
                },
            );
            self.active_batch_tasks = self.active_batch_tasks + 1;
            start = end;
        }
        batches
    }
}

/// The canvas's page images: the pages rendered, the zoom generation (which
/// advances with every zoom change), and the generation the images were
/// last cleared for. Images rendered before the latest zoom change stay on
/// screen, scaled, until the change settles and they are cleared.
pub struct PageCacheState {
    pub rendered: Set<u32>,
    pub zoom_generation: u64,
    pub settled_generation: u64,
}

/// The canvas's page images; see [`PageCacheState`].
pub struct PageCache {
    rendered: Vec<u32>,
    zoom_generation: u64,
    settled_generation: u64,
}

impl View for PageCache {
    type V = PageCacheState;

    closed spec fn view(&self) -> PageCacheState {
        PageCacheState {
            rendered: self.rendered@.to_set(),
            zoom_generation: self.zoom_generation,
            settled_generation: self.settled_generation,
        }
    }
}

impl PageCacheState {
    /// The images were last cleared for a zoom change that has happened.
    pub open spec fn wf(&self) -> bool {
        self.settled_generation <= self.zoom_generation
    }
}

/// Whether the canvas has nothing left to render: no thumbnail batch is
/// rendering, the latest zoom change has settled, and every page of the
/// document (if one is open) has an image.
pub open spec fn canvas_idle(s: PageCacheState, active_tasks: usize, page_count: Option<u32>) -> bool {
    &&& s.settled_generation == s.zoom_generation
    &&& active_tasks == 0
    &&& (page_count matches Some(n) ==> forall|p: u32|
        1 <= p <= n ==> #[trigger] s.rendered.contains(p))
}

impl PageCache {
    /// No images, no zoom change.
    pub fn new() -> (r: Self)
        ensures
            r@.rendered == Set::<u32>::empty(),
            r@.zoom_generation == 0,
            r@.settled_generation == 0,
            r@.wf(),
    {
        let r = PageCache { rendered: Vec::new(), zoom_generation: 0, settled_generation: 0 };
        assert(r@.rendered =~= Set::<u32>::empty());
        r
    }

    /// Whether page `page` has an image.
    pub fn is_rendered(&self, page: u32) -> (r: bool)
        ensures
            r == self@.rendered.contains(page),
    {
        has_page(self.rendered.as_slice(), page)
    }

    /// Whether no page has an image.
    pub fn is_empty(&self) -> (r: bool)
        ensures
            r == (self@.rendered == Set::<u32>::empty()),
    {
        proof {
            if self.rendered@.len() > 0 {
                assert(self@.rendered.contains(self.rendered@[0]));
            } else {
                assert(self@.rendered =~= Set::<u32>::empty());
            }
        }
        self.rendered.len() == 0
    }

    /// The current zoom generation.
    pub fn zoom_generation(&self) -> (r: u64)
        ensures
            r == self@.zoom_generation,
    {
        self.zoom_generation
    }

    /// The zoom changed: a new generation starts, whose settling is awaited
    /// before the images are replaced; the old images stay meanwhile.
    /// Returns the new generation.
    pub fn zoom_changed(&mut self) -> (r: u64)
        requires
            old(self)@.zoom_generation < u64::MAX,
        ensures
            old(self)@.wf() ==> final(self)@.wf(),
            r == old(self)@.zoom_generation + 1,
            final(self)@.zoom_generation == r,
            final(self)@.rendered == old(self)@.rendered,
            final(self)@.settled_generation == old(self)@.settled_generation,
    {
        self.zoom_generation = self.zoom_generation + 1;
        self.zoom_generation
    }

    /// The wait after the zoom change to `generation` ran out. Returns
    /// whether that change is the latest: then it has settled, and every
    /// image is dropped so that the pages render anew; a wait for an older
    /// change changes nothing.
    pub fn zoom_settled(&mut self, generation: u64) -> (r: bool)
        ensures
            old(self)@.wf() ==> final(self)@.wf(),
            r == (generation == old(self)@.zoom_generation),
            final(self)@.zoom_generation == old(self)@.zoom_generation,
            r ==> final(self)@.rendered == Set::<u32>::empty(),
            r ==> final(self)@.settled_generation == generation,
            !r ==> final(self)@ == old(self)@,
    {
        if generation == self.zoom_generation {
            self.rendered = Vec::new();
            self.settled_generation = generation;
            assert(self@.rendered =~= Set::<u32>::empty());
            true
        } else {
            false
        }
    }

    /// Images of `pages` arrived.
    pub fn pages_rendered(&mut self, pages: &[u32])
        ensures
            old(self)@.wf() ==> final(self)@.wf(),
            final(self)@.rendered == old(self)@.rendered + pages@.to_set(),
            final(self)@.zoom_generation == old(self)@.zoom_generation,
            final(self)@.settled_generation == old(self)@.settled_generation,
    {
        let ghost start = self.rendered@.to_set();
        let mut i: usize = 0;
        while i < pages.len()
            invariant
                i <= pages@.len(),
                self.rendered@.to_set() == start + pages@.take(i as int).to_set(),
                self.zoom_generation == old(self)@.zoom_generation,
                self.settled_generation == old(self)@.settled_generation,
            decreases pages.len() - i,
        {
            let page = pages[i];
            let ghost before = self.rendered@;
            if !has_page(self.rendered.as_slice(), page) {
                self.rendered.push(page);
                proof {
                    before.lemma_push_to_set_commute(page);
                }
            } else {
                assert(before.to_set() =~= before.to_set().insert(page));
            }
            assert(pages@.take(i + 1) =~= pages@.take(i as int).push(page));
            proof {
                pages@.take(i as int).lemma_push_to_set_commute(page);
            }
            i = i + 1;
        }
        assert(pages@.take(pages@.len() as int) =~= pages@);
    }

    /// Forgets every image and zoom change, as when a document is opened.
    pub fn reset(&mut self)
        ensures
            old(self)@.wf() ==> final(self)@.wf(),
            final(self)@.rendered == Set::<u32>::empty(),
            final(self)@.zoom_generation == 0,
            final(self)@.settled_generation == 0,
    {
        self.rendered = Vec::new();
        self.zoom_generation = 0;
        self.settled_generation = 0;
        assert(self@.rendered =~= Set::<u32>::empty());
    }

    /// The pages to render when pages `first..=last` of a document of
    /// `page_count` pages are visible; see [`canvas_render_span`].
    pub fn render_span(&self, first: u32, last: u32, page_count: u32) -> (r: Option<PageSpan>)
        ensures
            is_render_span(self@.rendered, first, last, page_count, r),
    {
        canvas_render_span(first, last, page_count, self.rendered.as_slice())
    }

    /// Whether the canvas has nothing left to render (see [`canvas_idle`]),
    /// with `active_tasks` thumbnail batches rendering.
    pub fn is_idle(&self, active_tasks: usize, page_count: Option<u32>) -> (r: bool)
        ensures
            r == canvas_idle(self@, active_tasks, page_count),
    {
        let all = is_render_idle(active_tasks, page_count, self.rendered.as_slice());
        proof {
            let settled = PageCacheState { settled_generation: self.zoom_generation, ..self@ };
            if render_idle(active_tasks, page_count, self.rendered@) {
                if let Some(n) = page_count {
                    assert forall|p: u32| 1 <= p <= n implies #[trigger] settled.rendered.contains(
                        p,
                    ) by {
                        assert(self.rendered@.contains(p));
                    }
                }
            }
            if canvas_idle(settled, active_tasks, page_count) {
                if let Some(n) = page_count {
                    assert forall|p: u32| 1 <= p <= n implies #[trigger] self.rendered@.contains(
                        p,
                    ) by {
                        assert(settled.rendered.contains(p));
                    }
                }
            }
            assert(render_idle(active_tasks, page_count, self.rendered@) == canvas_idle(
                settled,
                active_tasks,
                page_count,
            ));
        }
        self.settled_generation == self.zoom_generation && all
    }
}

/// A zoom change keeps the canvas from being idle until the change settles,
/// so a wait for idle never ends on images rendered at the old zoom.
pub proof fn lemma_zoom_change_is_not_idle(
    s: PageCacheState,
    active_tasks: usize,
    page_count: Option<u32>,
)
    requires
        s.wf(),
        s.zoom_generation < u64::MAX,
    ensures
        !canvas_idle(
            PageCacheState { zoom_generation: (s.zoom_generation + 1) as u64, ..s },
            active_tasks,
            page_count,
        ),
{
}

/// Once a zoom change settles its images are gone, so a document with pages
/// is not idle again until its pages are rendered anew.
pub proof fn lemma_settled_zoom_awaits_rerender(
    s: PageCacheState,
    active_tasks: usize,
    page_count: u32,
)
    requires
        page_count > 0,
        s.rendered == Set::<u32>::empty(),
    ensures
        !canvas_idle(s, active_tasks, Some(page_count)),
{
    assert(!s.rendered.contains(1u32));
}

} // verus!
