use spe::render_queue::{
    canvas_render_span, PageCache, PageSpan, ThumbnailBatch, ThumbnailQueue,
    MAX_CONCURRENT_THUMBNAIL_TASKS,
};

struct DocumentState {
    page_count: u32,
    current_page: u32,
}

struct SidebarState {
    queue: ThumbnailQueue,
    visible: bool,
    thumbnail_dpi: f32,
    dragging: bool,
}

/// The part of the application that drives thumbnail rendering.
struct App {
    document: Option<DocumentState>,
    sidebar: SidebarState,
}

impl App {
    fn new() -> App {
        App {
            document: None,
            sidebar: SidebarState {
                queue: ThumbnailQueue::new(),
                visible: true,
                thumbnail_dpi: 0.0,
                dragging: false,
            },
        }
    }

    fn schedule_thumbnail_backfill(&mut self) -> Option<ThumbnailBatch> {
        let doc = self.document.as_ref()?;
        self.sidebar.queue.schedule_backfill(
            self.sidebar.visible,
            doc.page_count,
            doc.current_page,
            self.sidebar.thumbnail_dpi as u32,
        )
    }

    /// Every page of the small test document fits in the sidebar.
    fn render_visible_thumbnails(&mut self) -> Vec<ThumbnailBatch> {
        let Some(doc) = self.document.as_ref() else {
            return Vec::new();
        };
        self.sidebar.queue.visible_batches(
            self.sidebar.visible,
            doc.page_count,
            self.sidebar.thumbnail_dpi as u32,
            1,
            doc.page_count,
        )
    }

    fn thumbnail_batch_rendered(&mut self, pages: &[u32], generation: u64) -> Option<ThumbnailBatch> {
        self.sidebar.queue.batch_rendered(pages, generation);
        self.schedule_thumbnail_backfill()
    }

    fn sidebar_drag_start(&mut self) {
        self.sidebar.dragging = true;
    }

    /// Ends a drag: a new generation starts, whose settling is awaited.
    fn sidebar_resize_end(&mut self) -> Option<u64> {
        if !self.sidebar.dragging {
            return None;
        }
        self.sidebar.dragging = false;
        Some(self.sidebar.queue.advance_generation())
    }

    /// The resize settled: thumbnails restart at `dpi` when it is the latest.
    fn sidebar_resize_debounce_expired(&mut self, generation: u64, dpi: f32) {
        if self.sidebar.queue.resize_settled(generation) {
            self.sidebar.thumbnail_dpi = dpi;
        }
    }

    fn set_generation(&mut self, generation: u64) {
        while self.sidebar.queue.backfill_generation() < generation {
            self.sidebar.queue.advance_generation();
        }
    }

    /// Brings the number of batches in flight up to `count` by scheduling
    /// backfill batches.
    fn set_active_batch_tasks(&mut self, count: u32) {
        let (visible, dpi) = (self.sidebar.visible, self.sidebar.thumbnail_dpi);
        self.sidebar.visible = true;
        self.sidebar.thumbnail_dpi = 36.0;
        while self.sidebar.queue.active_batch_tasks() < count {
            assert!(self.schedule_thumbnail_backfill().is_some());
        }
        self.sidebar.visible = visible;
        self.sidebar.thumbnail_dpi = dpi;
    }
}

fn test_app_with_document() -> App {
    let mut app = App::new();
    app.document = Some(DocumentState {
        page_count: 3,
        current_page: 1,
    });
    app
}

#[test]
fn thumbnail_batch_rendered_inserts_with_matching_generation() {
    let mut app = test_app_with_document();
    app.set_generation(5);
    let _ = app.thumbnail_batch_rendered(&[1], 5);
    assert!(app.sidebar.queue.is_cached(1));
}

#[test]
fn thumbnail_batch_rendered_ignores_stale_generation() {
    let mut app = test_app_with_document();
    app.set_generation(5);
    let _ = app.thumbnail_batch_rendered(&[1], 3);
    assert!(!app.sidebar.queue.is_cached(1));
}

#[test]
fn schedule_thumbnail_backfill_returns_none_without_document() {
    let mut app = App::new();
    assert!(app.schedule_thumbnail_backfill().is_none());
}

#[test]
fn schedule_thumbnail_backfill_returns_none_when_sidebar_hidden() {
    let mut app = test_app_with_document();
    app.sidebar.visible = false;
    app.sidebar.thumbnail_dpi = 36.0;
    assert!(app.schedule_thumbnail_backfill().is_none());
}

#[test]
fn schedule_thumbnail_backfill_returns_none_when_all_rendered() {
    let mut app = test_app_with_document();
    app.sidebar.visible = true;
    app.sidebar.thumbnail_dpi = 36.0;
    app.sidebar.queue.batch_rendered(&[1, 2, 3], 0);
    assert!(app.schedule_thumbnail_backfill().is_none());
    assert_eq!(app.sidebar.queue.active_batch_tasks(), 0);
}

#[test]
fn schedule_thumbnail_backfill_skips_already_cached_pages() {
    let mut app = test_app_with_document();
    app.sidebar.visible = true;
    app.sidebar.thumbnail_dpi = 36.0;
    app.sidebar.queue.batch_rendered(&[1, 2], 0);
    let batch = app.schedule_thumbnail_backfill().unwrap();
    assert_eq!((batch.first, batch.last), (3, 3));
}

#[test]
fn thumbnail_batch_rendered_chains_backfill() {
    let mut app = test_app_with_document();
    app.sidebar.visible = true;
    app.sidebar.thumbnail_dpi = 36.0;
    app.set_generation(1);
    let next = app.thumbnail_batch_rendered(&[1], 1);
    assert!(app.sidebar.queue.is_cached(1));
    let batch = next.unwrap();
    assert_eq!((batch.first, batch.last, batch.dpi, batch.generation), (2, 3, 36, 1));
}

#[test]
fn render_visible_thumbnails_respects_concurrency_limit() {
    let mut app = test_app_with_document();
    app.sidebar.visible = true;
    app.sidebar.thumbnail_dpi = 36.0;
    app.set_active_batch_tasks(MAX_CONCURRENT_THUMBNAIL_TASKS);
    let batches = app.render_visible_thumbnails();
    assert!(batches.is_empty());
    assert_eq!(
        app.sidebar.queue.active_batch_tasks(),
        MAX_CONCURRENT_THUMBNAIL_TASKS
    );
}

#[test]
fn schedule_thumbnail_backfill_respects_concurrency_limit() {
    let mut app = test_app_with_document();
    app.sidebar.visible = true;
    app.sidebar.thumbnail_dpi = 36.0;
    app.set_active_batch_tasks(MAX_CONCURRENT_THUMBNAIL_TASKS);
    assert!(app.schedule_thumbnail_backfill().is_none());
    assert_eq!(
        app.sidebar.queue.active_batch_tasks(),
        MAX_CONCURRENT_THUMBNAIL_TASKS
    );
}

#[test]
fn thumbnail_batch_rendered_decrements_active_batch_tasks() {
    let mut app = test_app_with_document();
    app.set_generation(1);
    app.set_active_batch_tasks(1);
    app.sidebar.visible = false;
    let _ = app.thumbnail_batch_rendered(&[1], 1);
    assert_eq!(app.sidebar.queue.active_batch_tasks(), 0);
}

#[test]
fn thumbnail_batch_rendered_decrements_on_stale_generation() {
    let mut app = test_app_with_document();
    app.set_generation(5);
    app.set_active_batch_tasks(2);
    app.sidebar.visible = false;
    let _ = app.thumbnail_batch_rendered(&[1], 3);
    assert_eq!(app.sidebar.queue.active_batch_tasks(), 1);
    assert!(!app.sidebar.queue.is_cached(1));
}

#[test]
fn render_visible_thumbnails_increments_active_batch_tasks_when_below_limit() {
    let mut app = test_app_with_document();
    app.sidebar.visible = true;
    app.sidebar.thumbnail_dpi = 36.0;
    assert_eq!(app.sidebar.queue.active_batch_tasks(), 0);
    let _ = app.render_visible_thumbnails();
    assert!(app.sidebar.queue.active_batch_tasks() >= 1);
}

#[test]
fn schedule_thumbnail_backfill_increments_active_batch_tasks_when_below_limit() {
    let mut app = test_app_with_document();
    app.sidebar.visible = true;
    app.sidebar.thumbnail_dpi = 36.0;
    assert_eq!(app.sidebar.queue.active_batch_tasks(), 0);
    let _ = app.schedule_thumbnail_backfill();
    assert_eq!(app.sidebar.queue.active_batch_tasks(), 1);
}

#[test]
fn backfill_takes_the_nearest_pages_first() {
    let mut queue = ThumbnailQueue::new();
    let batch = queue.schedule_backfill(true, 50, 30, 36).unwrap();
    // Pages 21..=39 lie within nine of page 30; page 20 comes before page 40.
    assert_eq!((batch.first, batch.last), (20, 39));
    assert_eq!(queue.active_batch_tasks(), 1);
}

#[test]
fn backfill_passes_over_cached_pages() {
    let mut queue = ThumbnailQueue::new();
    let cached: Vec<u32> = (25..=35).collect();
    queue.batch_rendered(&cached, 0);
    let batch = queue.schedule_backfill(true, 50, 30, 36).unwrap();
    assert_eq!((batch.first, batch.last), (15, 45));
}

#[test]
fn backfill_from_the_first_page_takes_a_batch_of_pages() {
    let mut queue = ThumbnailQueue::new();
    let batch = queue.schedule_backfill(true, 50, 1, 72).unwrap();
    assert_eq!((batch.first, batch.last, batch.dpi), (1, 20, 72));
}

#[test]
fn backfill_needs_a_resolution() {
    let mut queue = ThumbnailQueue::new();
    assert!(queue.schedule_backfill(true, 50, 1, 0).is_none());
    assert!(queue.schedule_backfill(true, 0, 1, 36).is_none());
    assert_eq!(queue.active_batch_tasks(), 0);
}

#[test]
fn visible_thumbnails_are_cut_into_batches_up_to_the_limit() {
    let mut queue = ThumbnailQueue::new();
    queue.batch_rendered(&[3], 0);
    let batches = queue.visible_batches(true, 100, 36, 1, 46);
    assert_eq!(batches.len(), 2);
    assert_eq!((batches[0].first, batches[0].last), (1, 21));
    assert_eq!((batches[1].first, batches[1].last), (22, 41));
    assert_eq!(queue.active_batch_tasks(), MAX_CONCURRENT_THUMBNAIL_TASKS);
}

#[test]
fn clearing_the_queue_forgets_thumbnails_and_batches() {
    let mut queue = ThumbnailQueue::new();
    queue.batch_rendered(&[1, 2], 0);
    let _ = queue.schedule_backfill(true, 5, 1, 36);
    let generation = queue.advance_generation();
    queue.clear();
    assert!(!queue.is_cached(1));
    assert_eq!(queue.active_batch_tasks(), 0);
    assert_eq!(queue.backfill_generation(), generation);
}

#[test]
fn canvas_renders_the_visible_pages_and_one_either_side() {
    assert_eq!(
        canvas_render_span(2, 3, 5, &[]),
        Some(PageSpan { first: 1, last: 4 })
    );
    assert_eq!(
        canvas_render_span(1, 5, 5, &[]),
        Some(PageSpan { first: 1, last: 5 })
    );
}

#[test]
fn canvas_skips_pages_already_rendered_at_the_ends() {
    assert_eq!(
        canvas_render_span(2, 3, 5, &[1, 2]),
        Some(PageSpan { first: 3, last: 4 })
    );
    assert_eq!(
        canvas_render_span(2, 3, 5, &[1, 3, 4]),
        Some(PageSpan { first: 2, last: 2 })
    );
    assert_eq!(canvas_render_span(2, 3, 5, &[1, 2, 3, 4]), None);
}

enum ZoomMessage {
    ZoomIn,
    ZoomOut,
    ZoomReset,
    ZoomDebounceExpired(u64),
    PageBatchRendered(Vec<u32>),
}

/// The part of the application that keeps the canvas's page images across
/// zoom changes. The zoom factor itself is not kept here.
struct Canvas {
    page_count: u32,
    cache: PageCache,
    active_batch_tasks: usize,
}

impl Canvas {
    fn with_document() -> Canvas {
        Canvas {
            page_count: 3,
            cache: PageCache::new(),
            active_batch_tasks: 0,
        }
    }

    fn update(&mut self, message: ZoomMessage) {
        match message {
            ZoomMessage::ZoomIn | ZoomMessage::ZoomOut | ZoomMessage::ZoomReset => {
                self.cache.zoom_changed();
            }
            ZoomMessage::ZoomDebounceExpired(generation) => {
                self.cache.zoom_settled(generation);
            }
            ZoomMessage::PageBatchRendered(pages) => self.cache.pages_rendered(&pages),
        }
    }

    fn zoom_generation(&self) -> u64 {
        self.cache.zoom_generation()
    }

    fn render_all_pages(&mut self) {
        let pages: Vec<u32> = (1..=self.page_count).collect();
        self.update(ZoomMessage::PageBatchRendered(pages));
    }

    fn is_render_idle(&self) -> bool {
        self.cache.is_idle(self.active_batch_tasks, Some(self.page_count))
    }
}

#[test]
fn zoom_in_increments_generation() {
    let mut canvas = Canvas::with_document();
    assert_eq!(canvas.zoom_generation(), 0);
    canvas.update(ZoomMessage::ZoomIn);
    assert_eq!(canvas.zoom_generation(), 1);
    canvas.update(ZoomMessage::ZoomIn);
    assert_eq!(canvas.zoom_generation(), 2);
}

#[test]
fn zoom_out_increments_generation() {
    let mut canvas = Canvas::with_document();
    canvas.update(ZoomMessage::ZoomIn);
    let gen_before = canvas.zoom_generation();
    canvas.update(ZoomMessage::ZoomOut);
    assert_eq!(canvas.zoom_generation(), gen_before + 1);
}

#[test]
fn zoom_reset_increments_generation() {
    let mut canvas = Canvas::with_document();
    canvas.update(ZoomMessage::ZoomIn);
    let gen_before = canvas.zoom_generation();
    canvas.update(ZoomMessage::ZoomReset);
    assert_eq!(canvas.zoom_generation(), gen_before + 1);
}

#[test]
fn zoom_keeps_stale_image_for_visual_feedback() {
    let mut canvas = Canvas::with_document();
    canvas.update(ZoomMessage::PageBatchRendered(vec![1]));
    canvas.update(ZoomMessage::ZoomIn);
    assert!(!canvas.cache.is_empty());
    assert!(canvas.cache.is_rendered(1));
}

#[test]
fn zoom_debounce_expired_clears_cache() {
    let mut canvas = Canvas::with_document();
    canvas.update(ZoomMessage::PageBatchRendered(vec![1]));
    canvas.update(ZoomMessage::ZoomIn);
    let generation = canvas.zoom_generation();
    canvas.update(ZoomMessage::ZoomDebounceExpired(generation));
    assert!(canvas.cache.is_empty());
}

#[test]
fn zoom_debounce_expired_stale_generation_is_noop() {
    let mut canvas = Canvas::with_document();
    canvas.update(ZoomMessage::ZoomIn);
    let stale_gen = canvas.zoom_generation();
    canvas.update(ZoomMessage::ZoomIn);
    assert_ne!(stale_gen, canvas.zoom_generation());
    canvas.update(ZoomMessage::PageBatchRendered(vec![1]));
    canvas.update(ZoomMessage::ZoomDebounceExpired(stale_gen));
    assert!(!canvas.cache.is_empty());
}

#[test]
fn is_render_idle_false_after_zoom_before_debounce_fires() {
    let mut canvas = Canvas::with_document();
    canvas.render_all_pages();
    assert!(canvas.is_render_idle());
    canvas.update(ZoomMessage::ZoomIn);
    assert!(
        !canvas.is_render_idle(),
        "wait_ready must not resolve on a stale pre-zoom render"
    );
}

#[test]
fn is_render_idle_true_once_rerender_catches_up_to_zoom_generation() {
    let mut canvas = Canvas::with_document();
    canvas.render_all_pages();
    canvas.update(ZoomMessage::ZoomIn);
    assert!(!canvas.is_render_idle());
    let generation = canvas.zoom_generation();
    canvas.update(ZoomMessage::ZoomDebounceExpired(generation));
    assert!(!canvas.is_render_idle());
    canvas.render_all_pages();
    assert!(
        canvas.is_render_idle(),
        "idle once images reflect the current zoom generation"
    );
}

#[test]
fn a_busy_thumbnail_batch_keeps_the_canvas_from_idling() {
    let mut canvas = Canvas::with_document();
    canvas.render_all_pages();
    canvas.active_batch_tasks = 1;
    assert!(!canvas.is_render_idle());
}

#[test]
fn the_page_cache_plans_renders_around_the_visible_pages() {
    let mut canvas = Canvas::with_document();
    canvas.update(ZoomMessage::PageBatchRendered(vec![1]));
    assert_eq!(
        canvas.cache.render_span(1, 2, 3),
        Some(PageSpan { first: 2, last: 3 })
    );
    canvas.cache.reset();
    assert_eq!(canvas.cache.zoom_generation(), 0);
    assert_eq!(
        canvas.cache.render_span(1, 2, 3),
        Some(PageSpan { first: 1, last: 3 })
    );
}

#[test]
fn sidebar_resize_end_increments_backfill_generation() {
    let mut app = test_app_with_document();
    let gen_before = app.sidebar.queue.backfill_generation();
    app.sidebar_drag_start();
    let _ = app.sidebar_resize_end();
    assert_eq!(app.sidebar.queue.backfill_generation(), gen_before + 1);
}

#[test]
fn sidebar_resize_end_ignored_when_not_dragging() {
    let mut app = test_app_with_document();
    let gen_before = app.sidebar.queue.backfill_generation();
    let _ = app.sidebar_resize_end();
    assert_eq!(app.sidebar.queue.backfill_generation(), gen_before);
}

#[test]
fn sidebar_resize_debounce_expired_stale_generation_is_noop() {
    let mut app = test_app_with_document();
    app.set_generation(5);
    app.sidebar.thumbnail_dpi = 99.0;
    app.sidebar.queue.batch_rendered(&[1], 5);
    app.sidebar_resize_debounce_expired(3, 48.0);
    assert!((app.sidebar.thumbnail_dpi - 99.0).abs() < f32::EPSILON);
    assert!(app.sidebar.queue.is_cached(1));
}

#[test]
fn a_settled_resize_forgets_the_thumbnails() {
    let mut app = test_app_with_document();
    app.sidebar.thumbnail_dpi = 36.0;
    app.sidebar.queue.batch_rendered(&[1, 2], 0);
    let _ = app.schedule_thumbnail_backfill();
    app.sidebar_drag_start();
    let generation = app.sidebar_resize_end().unwrap();
    app.sidebar_resize_debounce_expired(generation, 48.0);
    assert!((app.sidebar.thumbnail_dpi - 48.0).abs() < f32::EPSILON);
    assert!(!app.sidebar.queue.is_cached(1));
    assert_eq!(app.sidebar.queue.active_batch_tasks(), 0);
}

#[test]
fn active_batch_tasks_does_not_underflow() {
    let mut app = test_app_with_document();
    app.set_generation(1);
    app.sidebar.visible = false;
    assert_eq!(app.sidebar.queue.active_batch_tasks(), 0);
    let _ = app.thumbnail_batch_rendered(&[1], 1);
    assert_eq!(app.sidebar.queue.active_batch_tasks(), 0);
}
