//! Page navigation, render readiness and the window title: the decisions the
//! application makes about which page to show and when it is idle.

use vstd::prelude::*;

verus! {

/// The page after `current`, if the document has one.
pub fn next_page(current: u32, page_count: u32) -> (r: Option<u32>)
    ensures
        r == (if current < page_count {
            Some((current + 1) as u32)
        } else {
            None
        }),
{
    if current < page_count {
        Some(current + 1)
    } else {
        None
    }
}

/// The page before `current`, if there is one.
pub fn previous_page(current: u32) -> (r: Option<u32>)
    ensures
        r == (if current > 1 {
            Some((current - 1) as u32)
        } else {
            None
        }),
{
    if current > 1 {
        Some(current - 1)
    } else {
        None
    }
}

/// `page` when the document has it; out-of-range requests are ignored.
pub fn go_to_page(page: u32, page_count: u32) -> (r: Option<u32>)
    ensures
        r == (if 1 <= page && page <= page_count {
            Some(page)
        } else {
            None
        }),
{
    if page >= 1 && page <= page_count {
        Some(page)
    } else {
        None
    }
}

/// Whether rendering is idle: no render task is in flight and every page of
/// the document (if one is open) has an image among `rendered`.
pub open spec fn render_idle(active_tasks: usize, page_count: Option<u32>, rendered: Seq<u32>) -> bool {
    active_tasks == 0 && (page_count matches Some(n) ==> forall|p: u32|
        1 <= p <= n ==> #[trigger] rendered.contains(p))
}

pub(crate) fn has_page(rendered: &[u32], page: u32) -> (r: bool)
    ensures
        r == rendered@.contains(page),
{
    let mut i: usize = 0;
    while i < rendered.len()
        invariant
            i <= rendered@.len(),
            forall|k: int| 0 <= k < i ==> rendered@[k] != page,
        decreases rendered.len() - i,
    {
        if rendered[i] == page {
            return true;
        }
        i = i + 1;
    }
    false
}

/// Whether rendering is idle; see [`render_idle`].
pub fn is_render_idle(active_tasks: usize, page_count: Option<u32>, rendered: &[u32]) -> (r: bool)
    ensures
        r == render_idle(active_tasks, page_count, rendered@),
{
    if active_tasks > 0 {
        return false;
    }
    if let Some(n) = page_count {
        let mut page: u64 = 1;
        while page <= n as u64
            invariant
                active_tasks == 0,
                page_count == Some(n),
                1 <= page,
                page <= n as u64 + 1,
                forall|p: u32| 1 <= p < page ==> #[trigger] rendered@.contains(p),
            decreases n as u64 + 1 - page,
        {
            if !has_page(rendered, page as u32) {
                let missing: u32 = page as u32;
                assert(1 <= missing && missing <= n && !rendered@.contains(missing));
                assert(!render_idle(active_tasks, page_count, rendered@));
                return false;
            }
            page = page + 1;
        }
    }
    true
}

/// The redraw generation a frame wait waits for, asked while the state is at
/// `state_generation`: the one before, so the wait's own message does not
/// count.
pub fn frame_wait_target(state_generation: u64) -> (r: u64)
    ensures
        r == (if state_generation > 0 {
            state_generation - 1
        } else {
            0
        }),
{
    state_generation.saturating_sub(1)
}

/// What the application tracks to answer clients waiting on it: how many
/// messages it has processed, how many of them the last presented frame
/// reflects, and which waits are still unanswered.
pub struct WaitState {
    /// Advances with every processed message.
    pub state_generation: u64,
    /// `state_generation` as of the most recent presented frame.
    pub presented_generation: u64,
    /// A client waits for rendering to become idle.
    pub pending_ready: bool,
    /// A client waits for a frame reflecting this generation.
    pub pending_frame: Option<u64>,
}

impl WaitState {
    /// Waits and frames never run ahead of the messages processed: a frame
    /// reflects no more messages than were processed, and a frame wait waits
    /// for no later generation than the state's.
    pub open spec fn wf(&self) -> bool {
        &&& self.presented_generation <= self.state_generation
        &&& (self.pending_frame matches Some(t) ==> t <= self.state_generation)
    }

    /// No message processed, no frame presented, no client waiting.
    pub fn new() -> (r: Self)
        ensures
            r.state_generation == 0,
            r.presented_generation == 0,
            !r.pending_ready,
            r.pending_frame is None,
            r.wf(),
    {
        WaitState {
            state_generation: 0,
            presented_generation: 0,
            pending_ready: false,
            pending_frame: None,
        }
    }

    /// One more message is being processed.
    pub fn message_processed(&mut self)
        requires
            old(self).state_generation < u64::MAX,
        ensures
            old(self).wf() ==> final(self).wf(),
            final(self).state_generation == old(self).state_generation + 1,
            final(self).presented_generation == old(self).presented_generation,
            final(self).pending_ready == old(self).pending_ready,
            final(self).pending_frame == old(self).pending_frame,
    {
        self.state_generation = self.state_generation + 1;
    }

    /// A frame was presented: it reflects every message processed so far.
    pub fn frame_presented(&mut self)
        ensures
            old(self).wf() ==> final(self).wf(),
            final(self).presented_generation == old(self).state_generation,
            final(self).state_generation == old(self).state_generation,
            final(self).pending_ready == old(self).pending_ready,
            final(self).pending_frame == old(self).pending_frame,
    {
        self.presented_generation = self.state_generation;
    }

    /// A client asks to be answered once rendering is idle (`idle` says
    /// whether it is now). Returns whether to answer at once; otherwise the
    /// wait is kept until [`WaitState::check_ready`] finds rendering idle.
    pub fn wait_ready(&mut self, idle: bool) -> (answer: bool)
        ensures
            old(self).wf() ==> final(self).wf(),
            answer == idle,
            final(self).pending_ready == (old(self).pending_ready || !idle),
            final(self).state_generation == old(self).state_generation,
            final(self).presented_generation == old(self).presented_generation,
            final(self).pending_frame == old(self).pending_frame,
    {
        if !idle {
            self.pending_ready = true;
        }
        idle
    }

    /// Rendering progressed and is now `idle` or not. Returns whether a
    /// waiting client is to be answered now; its wait is then over.
    pub fn check_ready(&mut self, idle: bool) -> (answer: bool)
        ensures
            old(self).wf() ==> final(self).wf(),
            answer == (old(self).pending_ready && idle),
            final(self).pending_ready == (old(self).pending_ready && !idle),
            final(self).state_generation == old(self).state_generation,
            final(self).presented_generation == old(self).presented_generation,
            final(self).pending_frame == old(self).pending_frame,
    {
        if self.pending_ready && idle {
            self.pending_ready = false;
            true
        } else {
            false
        }
    }

    /// A client asks to be answered once a frame reflects the state as of
    /// the message before its request (see [`frame_wait_target`]). Returns
    /// whether to answer at once, because such a frame was already
    /// presented; otherwise the wait is kept for that generation.
    pub fn wait_frame(&mut self) -> (answer: bool)
        ensures
            old(self).wf() ==> final(self).wf(),
            ({
                let target = if old(self).state_generation > 0 {
                    old(self).state_generation - 1
                } else {
                    0
                };
                &&& answer == (old(self).presented_generation >= target)
                &&& final(self).pending_frame == (if answer {
                    old(self).pending_frame
                } else {
                    Some(target as u64)
                })
            }),
            final(self).state_generation == old(self).state_generation,
            final(self).presented_generation == old(self).presented_generation,
            final(self).pending_ready == old(self).pending_ready,
    {
        let target = frame_wait_target(self.state_generation);
        if self.presented_generation >= target {
            true
        } else {
            self.pending_frame = Some(target);
            false
        }
    }

    /// A frame may have been presented. Returns whether a client waiting
    /// for a frame is to be answered now, because the presented frame
    /// reflects the generation it waits for; its wait is then over.
    pub fn check_frame(&mut self) -> (answer: bool)
        ensures
            old(self).wf() ==> final(self).wf(),
            answer == (old(self).pending_frame matches Some(t) && old(
                self,
            ).presented_generation >= t),
            final(self).pending_frame == (if answer {
                None
            } else {
                old(self).pending_frame
            }),
            final(self).state_generation == old(self).state_generation,
            final(self).presented_generation == old(self).presented_generation,
            final(self).pending_ready == old(self).pending_ready,
    {
        match self.pending_frame {
            Some(target) => {
                if self.presented_generation >= target {
                    self.pending_frame = None;
                    true
                } else {
                    false
                }
            },
            None => false,
        }
    }
}

/// A frame presented while a frame wait is pending answers the wait at the
/// next check: the generation waited for is never newer than the state.
pub proof fn lemma_presented_frame_answers_wait(s: WaitState)
    requires
        s.wf(),
        s.pending_frame is Some,
    ensures
        ({
            let presented = WaitState { presented_generation: s.state_generation, ..s };
            presented.pending_frame matches Some(t) && presented.presented_generation >= t
        }),
{
}

/// The window title: the open document's file name, or the application's
/// name when none is open.
pub open spec fn title_text(document_name: Option<Seq<char>>) -> Seq<char> {
    match document_name {
        Some(name) => name + " - SPE"@,
        None => "SPE - PDF Text Overlay Editor"@,
    }
}

/// The window title for a document whose file is named `document_name`
/// (`None` when no document is open).
pub fn window_title(document_name: Option<&str>) -> (r: String)
    ensures
        r@ == title_text(match document_name {
            Some(n) => Some(n@),
            None => None,
        }),
{
    let mut s = String::new();
    match document_name {
        Some(name) => {
            s.append(name);
            s.append(" - SPE");
        },
        None => s.append("SPE - PDF Text Overlay Editor"),
    }
    s
}

} // verus!
