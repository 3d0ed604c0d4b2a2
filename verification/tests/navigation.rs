use spe::navigation::{frame_wait_target, go_to_page, is_render_idle, next_page, previous_page, window_title, WaitState};

#[test]
fn next_page_is_noop_at_last_page() {
    assert_eq!(next_page(3, 3), None);
}

#[test]
fn next_page_increments() {
    assert_eq!(next_page(1, 3), Some(2));
}

#[test]
fn previous_page_is_noop_at_first_page() {
    assert_eq!(previous_page(1), None);
}

#[test]
fn previous_page_decrements() {
    assert_eq!(previous_page(2), Some(1));
}

#[test]
fn tests_go_to_page_ignores_out_of_range() {
    assert_eq!(go_to_page(99, 3), None);
    assert_eq!(go_to_page(0, 3), None);
}

#[test]
fn go_to_page_sets_current_page() {
    assert_eq!(go_to_page(2, 3), Some(2));
}

#[test]
fn tests_title_without_document() {
    assert_eq!(window_title(None), "SPE - PDF Text Overlay Editor");
}

#[test]
fn tests_title_with_document() {
    assert_eq!(window_title(Some("report.pdf")), "report.pdf - SPE");
}

#[test]
fn is_render_idle_true_when_no_document() {
    assert!(is_render_idle(0, None, &[]));
}

#[test]
fn is_render_idle_false_with_active_tasks() {
    assert!(!is_render_idle(1, None, &[]));
}

#[test]
fn is_render_idle_false_when_page_not_yet_rendered() {
    // Document has 3 pages but no page images: not idle.
    assert!(!is_render_idle(0, Some(3), &[]));
    assert!(!is_render_idle(0, Some(3), &[1, 3]));
}

#[test]
fn is_render_idle_true_when_all_pages_rendered() {
    assert!(is_render_idle(0, Some(3), &[3, 1, 2]));
}

#[test]
fn a_frame_wait_targets_the_generation_before_its_own() {
    assert_eq!(frame_wait_target(7), 6);
    assert_eq!(frame_wait_target(0), 0);
}

struct DocumentState {
    page_count: u32,
    rendered: Vec<u32>,
}

enum IpcEvent {
    WaitReady,
    WaitFrame,
}

enum Message {
    Noop,
    FramePresented,
    Ipc(IpcEvent),
}

/// The part of the application that answers waiting IPC clients: every
/// answer goes to `ipc_response_sender` while a client is attached.
struct App {
    document: Option<DocumentState>,
    active_batch_tasks: usize,
    waits: WaitState,
    ipc_response_sender: Option<Vec<bool>>,
    pending_ipc_wait: bool,
    pending_frame_wait: Option<u64>,
    state_generation: u64,
    presented_generation: u64,
}

impl App {
    fn new() -> App {
        let mut app = App {
            document: None,
            active_batch_tasks: 0,
            waits: WaitState::new(),
            ipc_response_sender: None,
            pending_ipc_wait: false,
            pending_frame_wait: None,
            state_generation: 0,
            presented_generation: 0,
        };
        app.refresh();
        app
    }

    fn refresh(&mut self) {
        self.pending_ipc_wait = self.waits.pending_ready;
        self.pending_frame_wait = self.waits.pending_frame;
        self.state_generation = self.waits.state_generation;
        self.presented_generation = self.waits.presented_generation;
    }

    /// Hands the fields a test set back to the wait state.
    fn store(&mut self) {
        self.waits.pending_ready = self.pending_ipc_wait;
        self.waits.pending_frame = self.pending_frame_wait;
        self.waits.state_generation = self.state_generation;
        self.waits.presented_generation = self.presented_generation;
    }

    fn is_render_idle(&self) -> bool {
        match &self.document {
            Some(doc) => is_render_idle(self.active_batch_tasks, Some(doc.page_count), &doc.rendered),
            None => is_render_idle(self.active_batch_tasks, None, &[]),
        }
    }

    fn send_ipc_response(&mut self) {
        if let Some(sent) = self.ipc_response_sender.as_mut() {
            sent.push(true);
        }
    }

    fn update(&mut self, message: Message) {
        self.store();
        self.waits.message_processed();
        match message {
            Message::Noop => {}
            Message::FramePresented => {
                self.waits.frame_presented();
                if self.waits.check_frame() {
                    self.send_ipc_response();
                }
            }
            Message::Ipc(IpcEvent::WaitReady) => {
                let idle = self.is_render_idle();
                if self.waits.wait_ready(idle) {
                    self.send_ipc_response();
                }
            }
            Message::Ipc(IpcEvent::WaitFrame) => {
                if self.waits.wait_frame() {
                    self.send_ipc_response();
                }
            }
        }
        self.refresh();
    }

    fn check_ipc_wait(&mut self) {
        self.store();
        let idle = self.is_render_idle();
        if self.waits.check_ready(idle) {
            self.send_ipc_response();
        }
        self.refresh();
    }

    fn check_ipc_frame_wait(&mut self) {
        self.store();
        if self.waits.check_frame() {
            self.send_ipc_response();
        }
        self.refresh();
    }
}

fn test_app_with_document() -> App {
    let mut app = App::new();
    app.document = Some(DocumentState {
        page_count: 3,
        rendered: Vec::new(),
    });
    app
}

fn attach_ipc_response_sender(app: &mut App) {
    app.ipc_response_sender = Some(Vec::new());
}

#[test]
fn ipc_wait_ready_when_idle_does_not_set_pending() {
    let mut app = App::new();
    attach_ipc_response_sender(&mut app);
    app.update(Message::Ipc(IpcEvent::WaitReady));
    assert!(!app.pending_ipc_wait);
    assert_eq!(app.ipc_response_sender, Some(vec![true]));
}

#[test]
fn ipc_wait_ready_when_rendering_sets_pending() {
    let mut app = test_app_with_document();
    app.update(Message::Ipc(IpcEvent::WaitReady));
    assert!(app.pending_ipc_wait);
}

#[test]
fn ipc_wait_ready_idle_without_sender_is_noop() {
    let mut app = App::new();
    app.update(Message::Ipc(IpcEvent::WaitReady));
    assert!(!app.pending_ipc_wait);
    assert!(app.ipc_response_sender.is_none());
}

#[test]
fn check_ipc_wait_clears_pending_when_idle() {
    let mut app = App::new();
    attach_ipc_response_sender(&mut app);
    app.pending_ipc_wait = true;
    app.check_ipc_wait();
    assert!(!app.pending_ipc_wait);
    assert_eq!(app.ipc_response_sender, Some(vec![true]));
}

#[test]
fn check_ipc_wait_keeps_pending_when_still_rendering() {
    let mut app = test_app_with_document();
    app.pending_ipc_wait = true;
    app.check_ipc_wait();
    assert!(app.pending_ipc_wait);
}

#[test]
fn state_generation_advances_on_every_processed_message() {
    let mut app = App::new();
    let before = app.state_generation;
    app.update(Message::Noop);
    assert_eq!(app.state_generation, before + 1);
    app.update(Message::Noop);
    assert_eq!(app.state_generation, before + 2);
}

#[test]
fn frame_presented_records_the_generation_as_of_the_redraw() {
    let mut app = App::new();
    app.update(Message::Noop);
    let expected = app.state_generation + 1;
    app.update(Message::FramePresented);
    assert_eq!(app.presented_generation, expected);
}

#[test]
fn ipc_wait_frame_already_presented_resolves_immediately() {
    let mut app = App::new();
    attach_ipc_response_sender(&mut app);
    app.update(Message::Ipc(IpcEvent::WaitFrame));
    assert!(
        app.pending_frame_wait.is_none(),
        "an already-presented wait must resolve immediately, not sit pending"
    );
}

#[test]
fn ipc_wait_frame_not_yet_presented_sets_pending() {
    let mut app = test_app_with_document();
    attach_ipc_response_sender(&mut app);
    app.update(Message::Noop);
    let generation_before_wait = app.state_generation;
    app.update(Message::Ipc(IpcEvent::WaitFrame));
    assert_eq!(app.pending_frame_wait, Some(generation_before_wait));
}

#[test]
fn check_ipc_frame_wait_clears_pending_once_presented_catches_up() {
    let mut app = App::new();
    attach_ipc_response_sender(&mut app);
    app.pending_frame_wait = Some(app.state_generation);
    app.presented_generation = app.state_generation;
    app.check_ipc_frame_wait();
    assert!(app.pending_frame_wait.is_none());
}

#[test]
fn check_ipc_frame_wait_keeps_pending_when_not_yet_presented() {
    let mut app = App::new();
    attach_ipc_response_sender(&mut app);
    app.pending_frame_wait = Some(app.state_generation + 1);
    app.check_ipc_frame_wait();
    assert!(app.pending_frame_wait.is_some());
}

#[test]
fn a_pending_frame_wait_is_answered_by_the_next_presented_frame() {
    let mut app = test_app_with_document();
    attach_ipc_response_sender(&mut app);
    app.update(Message::Noop);
    app.update(Message::Ipc(IpcEvent::WaitFrame));
    assert!(app.pending_frame_wait.is_some());
    app.update(Message::FramePresented);
    assert!(app.pending_frame_wait.is_none());
    assert_eq!(app.ipc_response_sender, Some(vec![true]));
}
