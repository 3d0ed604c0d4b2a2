//! The editing state of an open document and how each user action changes it:
//! the overlay list, the undo and redo histories, the selected overlay and
//! the edit session on it, and the font and size the toolbar shows.
//!
//! Every action is modelled by a spec transition on [`EditorState`]; each
//! method of [`Editor`] is proved to perform exactly its transition and to
//! keep the histories replayable on the overlay list they belong to.

use vstd::prelude::*;

use crate::command::Command;
use crate::fonts::FontId;
use crate::overlay::{PdfPosition, TextOverlay};

verus! {

/// Whether `c` is white space as Unicode's `White_Space` property has it
/// (what `char::is_whitespace` and `str::trim` go by).
pub open spec fn white_space(c: char) -> bool {
    let v = c as u32;
    (9 <= v && v <= 13) || v == 0x20 || v == 0x85 || v == 0xA0 || v == 0x1680 || (0x2000 <= v
        && v <= 0x200A) || v == 0x2028 || v == 0x2029 || v == 0x202F || v == 0x205F || v
        == 0x3000
}

/// Whether `s` holds nothing but white space, so an overlay with this text
/// would only render as an empty box.
pub open spec fn blank(s: Seq<char>) -> bool {
    forall|i: int| 0 <= i < s.len() ==> #[trigger] white_space(s[i])
}

/// Whether `c` is white space; see [`white_space`].
pub fn is_white_space(c: char) -> (r: bool)
    ensures
        r == white_space(c),
{
    let v: u32 = c as u32;
    (9 <= v && v <= 13) || v == 0x20 || v == 0x85 || v == 0xA0 || v == 0x1680 || (0x2000 <= v
        && v <= 0x200A) || v == 0x2028 || v == 0x2029 || v == 0x202F || v == 0x205F || v
        == 0x3000
}

/// Whether `s` is blank; see [`blank`].
pub fn is_blank(s: &str) -> (r: bool)
    ensures
        r == blank(s@),
{
    for c in it: s.chars()
        invariant
            it.seq() == s@,
            forall|k: int| 0 <= k < it.index() ==> #[trigger] white_space(s@[k]),
    {
        if !is_white_space(c) {
            return false;
        }
    }
    true
}

/// The length of a list of `len` overlays once `cmd` is applied to it.
pub open spec fn applied_len<F>(cmd: Command<F>, len: nat) -> nat {
    match cmd {
        Command::PlaceOverlay { .. } => len + 1,
        Command::DeleteOverlay { .. } => (len - 1) as nat,
        _ => len,
    }
}

/// The length of a list of `len` overlays once `cmd` is reversed on it.
pub open spec fn reversed_len<F>(cmd: Command<F>, len: nat) -> nat {
    match cmd {
        Command::PlaceOverlay { .. } => (len - 1) as nat,
        Command::DeleteOverlay { .. } => len + 1,
        _ => len,
    }
}

/// Whether `cmd` can be reversed on a list of `len` overlays, a placement
/// having an overlay to take back.
pub open spec fn reversible<F: Copy>(cmd: Command<F>, len: nat) -> bool {
    cmd.can_reverse(len) && (cmd is PlaceOverlay ==> len > 0)
}

/// Whether the undo history `stack` (most recent last) can be reversed, one
/// command after another, starting from a list of `len` overlays.
pub open spec fn undo_ok<F: Copy>(stack: Seq<Command<F>>, len: nat) -> bool
    decreases stack.len(),
{
    if stack.len() == 0 {
        true
    } else {
        reversible(stack.last(), len) && undo_ok(
            stack.drop_last(),
            reversed_len(stack.last(), len),
        )
    }
}

/// Whether the redo history `stack` (next to redo last) can be applied, one
/// command after another, starting from a list of `len` overlays.
pub open spec fn redo_ok<F: Copy>(stack: Seq<Command<F>>, len: nat) -> bool
    decreases stack.len(),
{
    if stack.len() == 0 {
        true
    } else {
        stack.last().can_apply(len) && redo_ok(stack.drop_last(), applied_len(stack.last(), len))
    }
}

/// `stack` cut back to its first `n` commands, as `Vec::truncate` does.
pub open spec fn truncated<F>(stack: Seq<Command<F>>, n: usize) -> Seq<Command<F>> {
    if n <= stack.len() {
        stack.take(n as int)
    } else {
        stack
    }
}

/// The editing state of an open document.
pub struct EditorState<F> {
    /// The document's overlays, in order.
    pub overlays: Seq<TextOverlay<F>>,
    /// Commands that can be undone, most recent last.
    pub undo: Seq<Command<F>>,
    /// Commands that can be redone, next to redo last.
    pub redo: Seq<Command<F>>,
    /// The overlay selected or being edited.
    pub active: Option<usize>,
    /// Whether the active overlay's text is being edited.
    pub editing: bool,
    /// The active overlay's text when its edit session began.
    pub edit_start: Option<String>,
    /// While editing an overlay that was just placed: the undo history's
    /// length before the placement, so abandoning it leaves no trace.
    pub fresh: Option<usize>,
    /// The font the toolbar shows, given to newly placed overlays.
    pub font: FontId,
    /// The font size the toolbar shows, given to newly placed overlays.
    pub font_size: F,
}

impl<F: Copy> EditorState<F> {
    /// The state's internal consistency: both histories replay in bounds on
    /// the overlay list, the selection addresses an overlay, an edit session
    /// has an overlay, and a fresh placement is the last overlay with the
    /// history before it replayable without it.
    pub open spec fn wf(self) -> bool {
        &&& undo_ok(self.undo, self.overlays.len())
        &&& redo_ok(self.redo, self.overlays.len())
        &&& (self.active matches Some(i) ==> i < self.overlays.len())
        &&& (self.editing ==> self.active is Some)
        &&& (self.editing <==> self.edit_start is Some)
        &&& (self.fresh matches Some(base) ==> {
            &&& self.editing
            &&& self.overlays.len() > 0
            &&& (self.active matches Some(a) && a + 1 == self.overlays.len())
            &&& base <= self.undo.len()
            &&& undo_ok(self.undo.take(base as int), (self.overlays.len() - 1) as nat)
        })
    }

    /// A freshly opened document holding `overlays`, with empty histories and
    /// nothing selected.
    pub open spec fn opened(overlays: Seq<TextOverlay<F>>, font: FontId, font_size: F) -> Self {
        EditorState {
            overlays,
            undo: Seq::empty(),
            redo: Seq::empty(),
            active: None,
            editing: false,
            edit_start: None,
            fresh: None,
            font,
            font_size,
        }
    }

    /// `cmd` applied and recorded as the newest undoable command; a new
    /// action leaves nothing to redo.
    pub open spec fn executed(self, cmd: Command<F>) -> Self {
        EditorState {
            overlays: cmd.applied(self.overlays),
            undo: self.undo.push(cmd),
            redo: Seq::empty(),
            ..self
        }
    }

    /// No overlay selected and no edit session.
    pub open spec fn session_cleared(self) -> Self {
        EditorState { editing: false, active: None, edit_start: None, fresh: None, ..self }
    }

    /// The toolbar showing the active overlay's font and size, if any.
    pub open spec fn toolbar_synced(self) -> Self {
        match self.active {
            Some(i) => if i < self.overlays.len() {
                EditorState {
                    font: self.overlays[i as int].font,
                    font_size: self.overlays[i as int].font_size,
                    ..self
                }
            } else {
                self
            },
            None => self,
        }
    }

    /// The overlay at `index`, whose text was erased, removed: a fresh
    /// placement leaves no history behind; an established overlay records a
    /// deletion that restores it with its text `start` from before the edit.
    pub open spec fn discarded(self, index: usize, start: String) -> Self {
        let overlay = self.overlays[index as int];
        let overlays = self.overlays.remove(index as int);
        match self.fresh {
            Some(base) => EditorState {
                overlays,
                undo: truncated(self.undo, base),
                redo: Seq::empty(),
                fresh: None,
                active: None,
                ..self
            },
            None => EditorState {
                overlays,
                undo: self.undo.push(
                    Command::DeleteOverlay { overlay: TextOverlay { text: start, ..overlay }, index },
                ),
                redo: Seq::empty(),
                active: None,
                ..self
            },
        }
    }

    /// The edit session closed: blank text discards its overlay, changed text
    /// is recorded as an edit.
    pub open spec fn committed(self) -> Self {
        let v = match self.active {
            Some(idx) => match self.edit_start {
                Some(old_text) => if idx < self.overlays.len() {
                    let new_text = self.overlays[idx as int].text;
                    if blank(new_text@) {
                        self.discarded(idx, old_text)
                    } else if old_text@ != new_text@ {
                        EditorState {
                            undo: self.undo.push(
                                Command::EditText { index: idx, old_text, new_text },
                            ),
                            redo: Seq::empty(),
                            fresh: None,
                            ..self
                        }
                    } else {
                        EditorState {
                            overlays: self.overlays.update(
                                idx as int,
                                TextOverlay { text: old_text, ..self.overlays[idx as int] },
                            ),
                            fresh: None,
                            ..self
                        }
                    }
                } else {
                    self
                },
                None => self,
            },
            None => self,
        };
        EditorState { editing: false, edit_start: None, fresh: None, ..v }
    }

    /// The state with any edit session committed first.
    pub open spec fn settled(self) -> Self {
        if self.editing {
            self.committed()
        } else {
            self
        }
    }

    /// The edit session abandoned, and whether that changed the document or
    /// its history: a fresh placement is taken back with its commands, an
    /// established overlay's text reverts.
    pub open spec fn cancelled(self) -> (Self, bool) {
        if !self.editing {
            (self, false)
        } else {
            let v = self.session_cleared();
            match self.active {
                Some(index) => if index < self.overlays.len() {
                    match self.fresh {
                        Some(base) => (
                            EditorState {
                                overlays: v.overlays.remove(index as int),
                                undo: truncated(v.undo, base),
                                redo: Seq::empty(),
                                ..v
                            },
                            true,
                        ),
                        None => match self.edit_start {
                            Some(t) => (
                                EditorState {
                                    overlays: v.overlays.update(
                                        index as int,
                                        TextOverlay { text: t, ..v.overlays[index as int] },
                                    ),
                                    ..v
                                },
                                self.overlays[index as int].text@ != t@,
                            ),
                            None => (v, false),
                        },
                    }
                } else {
                    (v, false)
                },
                None => (v, false),
            }
        }
    }

    /// Undo: abandon the edit session if that changes anything, else reverse
    /// the most recent command and make it redoable.
    pub open spec fn undone(self) -> Self {
        let (v, changed) = self.cancelled();
        if changed || v.undo.len() == 0 {
            v
        } else {
            let cmd = v.undo.last();
            let w = EditorState {
                overlays: cmd.reversed(v.overlays),
                undo: v.undo.drop_last(),
                redo: v.redo.push(cmd),
                ..v
            };
            let w = if cmd is PlaceOverlay || cmd is DeleteOverlay {
                w.session_cleared()
            } else {
                w
            };
            w.toolbar_synced()
        }
    }

    /// Redo: commit the edit session, then reapply the most recently undone
    /// command.
    pub open spec fn redone(self) -> Self {
        let v = self.settled();
        if v.redo.len() == 0 {
            v
        } else {
            let cmd = v.redo.last();
            let w = EditorState {
                overlays: cmd.applied(v.overlays),
                undo: v.undo.push(cmd),
                redo: v.redo.drop_last(),
                ..v
            };
            let w = if cmd is PlaceOverlay || cmd is DeleteOverlay {
                w.session_cleared()
            } else {
                w
            };
            w.toolbar_synced()
        }
    }

    /// A new overlay placed on `page` at `position` with the toolbar's font
    /// and size, holding `empty` for its text, and opened for editing.
    pub open spec fn placed(
        self,
        page: u32,
        position: PdfPosition<F>,
        width: Option<F>,
        empty: String,
    ) -> Self {
        let v = self.settled();
        let overlay = TextOverlay {
            page,
            position,
            text: empty,
            font: v.font,
            font_size: v.font_size,
            width,
            min_height: None,
        };
        let w = v.executed(Command::PlaceOverlay { overlay });
        EditorState {
            active: Some(v.overlays.len() as usize),
            editing: true,
            edit_start: Some(empty),
            fresh: Some(v.undo.len() as usize),
            ..w
        }
    }

    /// The active overlay's text set to `text`; typing into a selected
    /// overlay begins an edit session on it first.
    pub open spec fn typed(self, text: String) -> Self {
        match self.active {
            Some(i) => if i < self.overlays.len() {
                let v = if self.editing {
                    self
                } else {
                    EditorState {
                        edit_start: Some(self.overlays[i as int].text),
                        fresh: None,
                        editing: true,
                        ..self
                    }
                };
                EditorState {
                    overlays: v.overlays.update(
                        i as int,
                        TextOverlay { text, ..v.overlays[i as int] },
                    ),
                    ..v
                }
            } else {
                self
            },
            None => self,
        }
    }

    /// Overlay `index` moved to `position`, recorded.
    pub open spec fn moved(self, index: usize, position: PdfPosition<F>) -> Self {
        if index < self.overlays.len() {
            self.executed(
                Command::MoveOverlay {
                    index,
                    from: self.overlays[index as int].position,
                    to: position,
                },
            )
        } else {
            self
        }
    }

    /// Overlay `index` resized from `old_width` to `new_width`, recorded.
    pub open spec fn resized(self, index: usize, old_width: F, new_width: F) -> Self {
        if index < self.overlays.len() {
            self.executed(Command::ResizeOverlay { index, old_width, new_width })
        } else {
            self
        }
    }

    /// The toolbar font set to `font`, and the active overlay's with it.
    pub open spec fn font_changed(self, font: FontId) -> Self {
        let v = match self.active {
            Some(i) => if i < self.overlays.len() {
                self.executed(
                    Command::ChangeOverlayFont {
                        index: i,
                        old_font: self.overlays[i as int].font,
                        new_font: font,
                    },
                )
            } else {
                self
            },
            None => self,
        };
        EditorState { font, ..v }
    }

    /// The toolbar font size set to `size`, and the active overlay's with it.
    pub open spec fn font_size_changed(self, size: F) -> Self {
        let v = match self.active {
            Some(i) => if i < self.overlays.len() {
                self.executed(
                    Command::ChangeOverlayFontSize {
                        index: i,
                        old_size: self.overlays[i as int].font_size,
                        new_size: size,
                    },
                )
            } else {
                self
            },
            None => self,
        };
        EditorState { font_size: size, ..v }
    }

    /// The active overlay deleted, recorded, after committing any edit.
    pub open spec fn deleted(self) -> Self {
        let v = self.settled();
        match v.active {
            Some(i) => if i < v.overlays.len() {
                v.executed(
                    Command::DeleteOverlay { overlay: v.overlays[i as int], index: i },
                ).session_cleared()
            } else {
                v
            },
            None => v,
        }
    }

    /// Any edit session committed before acting on overlay `index`, and the
    /// index that overlay has afterwards: discarding the blank overlay being
    /// edited shifts later ones down.
    pub open spec fn targeted(self, index: usize) -> (Self, usize) {
        if !self.editing {
            (self, index)
        } else {
            let c = self.committed();
            let shifted = c.overlays.len() < self.overlays.len() && (self.active matches Some(
                e,
            ) && e < index);
            (c, if shifted {
                (index - 1) as usize
            } else {
                index
            })
        }
    }

    /// Overlay `index` selected, not edited.
    pub open spec fn selected(self, index: usize) -> Self {
        let (v, i) = self.targeted(index);
        if i < v.overlays.len() {
            EditorState {
                active: Some(i),
                editing: false,
                fresh: None,
                edit_start: None,
                ..v
            }.toolbar_synced()
        } else {
            v
        }
    }

    /// Overlay `index` opened for editing.
    pub open spec fn opened_for_edit(self, index: usize) -> Self {
        let (v, i) = self.targeted(index);
        if i < v.overlays.len() {
            EditorState {
                active: Some(i),
                editing: true,
                fresh: None,
                edit_start: Some(v.overlays[i as int].text),
                ..v
            }.toolbar_synced()
        } else {
            v
        }
    }

    /// Nothing selected, after committing any edit.
    pub open spec fn deselected(self) -> Self {
        EditorState { active: None, editing: false, ..self.settled() }
    }

    /// Whether the text widget of the overlay being edited should get the
    /// keyboard focus back.
    pub open spec fn wants_focus(self) -> bool {
        self.editing && self.active is Some
    }

    /// The overlay edited in a multi-line text widget: the one being edited,
    /// when it has a width to wrap its text to.
    pub open spec fn multiline_edit(self) -> Option<usize> {
        match self.active {
            Some(i) => if self.editing && 0 <= i < self.overlays.len()
                && self.overlays[i as int].width is Some {
                Some(i)
            } else {
                None
            },
            None => None,
        }
    }
}

/// Applying a command records it so that the history stays replayable.
proof fn lemma_record<F: Copy>(stack: Seq<Command<F>>, len: nat, cmd: Command<F>)
    requires
        undo_ok(stack, len),
        cmd.can_apply(len),
    ensures
        undo_ok(stack.push(cmd), applied_len(cmd, len)),
{
    assert(stack.push(cmd).drop_last() =~= stack);
}

/// The most recent command of a replayable undo history can be reversed,
/// and what is left stays replayable.
proof fn lemma_unrecord<F: Copy>(stack: Seq<Command<F>>, len: nat)
    requires
        undo_ok(stack, len),
        stack.len() > 0,
    ensures
        reversible(stack.last(), len),
        undo_ok(stack.drop_last(), reversed_len(stack.last(), len)),
{
}

/// A reversed command can be redone from where its reversal left the list.
proof fn lemma_defer<F: Copy>(stack: Seq<Command<F>>, len: nat, cmd: Command<F>)
    requires
        redo_ok(stack, len),
        reversible(cmd, len),
    ensures
        redo_ok(stack.push(cmd), reversed_len(cmd, len)),
{
    assert(stack.push(cmd).drop_last() =~= stack);
}

/// The next command of a replayable redo history can be applied, and what is
/// left stays replayable.
proof fn lemma_undefer<F: Copy>(stack: Seq<Command<F>>, len: nat)
    requires
        redo_ok(stack, len),
        stack.len() > 0,
    ensures
        stack.last().can_apply(len),
        redo_ok(stack.drop_last(), applied_len(stack.last(), len)),
{
}

/// A command changes the list's length as [`applied_len`] and
/// [`reversed_len`] say.
proof fn lemma_lengths<F: Copy>(cmd: Command<F>, s: Seq<TextOverlay<F>>)
    ensures
        cmd.can_apply(s.len()) ==> cmd.applied(s).len() == applied_len(cmd, s.len()),
        reversible(cmd, s.len()) ==> cmd.reversed(s).len() == reversed_len(cmd, s.len()),
{
}

/// An empty history is replayable from any length.
proof fn lemma_empty_ok<F: Copy>(len: nat)
    ensures
        undo_ok(Seq::<Command<F>>::empty(), len),
        redo_ok(Seq::<Command<F>>::empty(), len),
{
}

/// Recording a command during a fresh placement keeps the history before the
/// placement as it was.
proof fn lemma_take_push<F>(stack: Seq<Command<F>>, cmd: Command<F>, base: int)
    requires
        0 <= base <= stack.len(),
    ensures
        stack.push(cmd).take(base) == stack.take(base),
{
    assert(stack.push(cmd).take(base) =~= stack.take(base));
}

/// The fields of an [`Editor`], with no invariant of their own.
struct EditorCore<F> {
    overlays: Vec<TextOverlay<F>>,
    undo_stack: Vec<Command<F>>,
    redo_stack: Vec<Command<F>>,
    active_overlay: Option<usize>,
    editing: bool,
    edit_start_text: Option<String>,
    fresh_placement: Option<usize>,
    font: FontId,
    font_size: F,
}

impl<F: Copy> View for EditorCore<F> {
    type V = EditorState<F>;

    closed spec fn view(&self) -> EditorState<F> {
        EditorState {
            overlays: self.overlays@,
            undo: self.undo_stack@,
            redo: self.redo_stack@,
            active: self.active_overlay,
            editing: self.editing,
            edit_start: self.edit_start_text,
            fresh: self.fresh_placement,
            font: self.font,
            font_size: self.font_size,
        }
    }
}

impl<F: Copy> EditorCore<F> {
    /// The editing state of a freshly opened document holding `overlays`,
    /// with the toolbar showing `font` at `font_size`.
    pub fn new(overlays: Vec<TextOverlay<F>>, font: FontId, font_size: F) -> (r: Self)
        ensures
            r@ == EditorState::opened(overlays@, font, font_size),
            r@.wf(),
    {
        proof {
            lemma_empty_ok::<F>(overlays@.len());
        }
        EditorCore {
            overlays,
            undo_stack: Vec::new(),
            redo_stack: Vec::new(),
            active_overlay: None,
            editing: false,
            edit_start_text: None,
            fresh_placement: None,
            font,
            font_size,
        }
    }

    /// The document's overlays, in order.
    pub fn overlays(&self) -> (r: &[TextOverlay<F>])
        ensures
            r@ == self@.overlays,
    {
        self.overlays.as_slice()
    }

    /// The overlay selected or being edited.
    pub fn active_overlay(&self) -> (r: Option<usize>)
        ensures
            r == self@.active,
    {
        self.active_overlay
    }

    /// Whether the active overlay's text is being edited.
    pub fn is_editing(&self) -> (r: bool)
        ensures
            r == self@.editing,
    {
        self.editing
    }

    /// The active overlay's text when its edit session began.
    pub fn edit_start_text(&self) -> (r: Option<&str>)
        ensures
            r is Some == self@.edit_start is Some,
            r matches Some(t) ==> t@ == self@.edit_start->0@,
    {
        match &self.edit_start_text {
            Some(t) => Some(t.as_str()),
            None => None,
        }
    }

    /// While a just-placed overlay is being edited, the undo history's length
    /// before its placement.
    pub fn fresh_placement(&self) -> (r: Option<usize>)
        ensures
            r == self@.fresh,
    {
        self.fresh_placement
    }

    /// The commands that can be undone, most recent last.
    pub fn undo_history(&self) -> (r: &[Command<F>])
        ensures
            r@ == self@.undo,
    {
        self.undo_stack.as_slice()
    }

    /// The commands that can be redone, next to redo last.
    pub fn redo_history(&self) -> (r: &[Command<F>])
        ensures
            r@ == self@.redo,
    {
        self.redo_stack.as_slice()
    }

    /// Number of commands available to undo.
    pub fn undo_depth(&self) -> (r: usize)
        ensures
            r == self@.undo.len(),
    {
        self.undo_stack.len()
    }

    /// Number of commands available to redo.
    pub fn redo_depth(&self) -> (r: usize)
        ensures
            r == self@.redo.len(),
    {
        self.redo_stack.len()
    }

    /// The font the toolbar shows.
    pub fn toolbar_font(&self) -> (r: FontId)
        ensures
            r == self@.font,
    {
        self.font
    }

    /// The font size the toolbar shows.
    pub fn toolbar_font_size(&self) -> (r: F)
        ensures
            r == self@.font_size,
    {
        self.font_size
    }

    /// The text the multi-line text widget shows: that of the overlay being
    /// edited, when it wraps to a width; `None` when no such edit is open.
    pub fn multiline_text(&self) -> (r: Option<&str>)
        ensures
            r is Some <==> self@.multiline_edit() is Some,
            r matches Some(t) ==> t@ == self@.overlays[self@.multiline_edit()->0 as int].text@,
    {
        match self.active_overlay {
            Some(i) => {
                if self.editing && i < self.overlays.len() {
                    match self.overlays[i].width {
                        Some(_) => Some(self.overlays[i].text.as_str()),
                        None => None,
                    }
                } else {
                    None
                }
            },
            None => None,
        }
    }

    /// Whether the text widget of the overlay being edited should get the
    /// keyboard focus back after a toolbar interaction.
    pub fn wants_focus(&self) -> (r: bool)
        ensures
            r == self@.wants_focus(),
    {
        self.editing && self.active_overlay.is_some()
    }

    fn execute(&mut self, cmd: Command<F>)
        requires
            cmd.can_apply(old(self)@.overlays.len()),
        ensures
            final(self)@ == old(self)@.executed(cmd),
    {
        cmd.apply(&mut self.overlays);
        self.undo_stack.push(cmd);
        self.redo_stack.clear();
    }

    fn clear_edit_session(&mut self)
        ensures
            final(self)@ == old(self)@.session_cleared(),
    {
        self.editing = false;
        self.active_overlay = None;
        self.edit_start_text = None;
        self.fresh_placement = None;
    }

    fn sync_toolbar_to_active_overlay(&mut self)
        ensures
            final(self)@ == old(self)@.toolbar_synced(),
    {
        if let Some(idx) = self.active_overlay {
            if idx < self.overlays.len() {
                self.font = self.overlays[idx].font;
                self.font_size = self.overlays[idx].font_size;
            }
        }
    }

    fn discard_empty_overlay(&mut self, index: usize, text_at_edit_start: String)
        requires
            index < old(self)@.overlays.len(),
        ensures
            final(self)@ == old(self)@.discarded(index, text_at_edit_start),
    {
        let mut overlay = self.overlays.remove(index);
        match self.fresh_placement {
            Some(base_len) => {
                self.fresh_placement = None;
                self.undo_stack.truncate(base_len);
            },
            None => {
                overlay.text = text_at_edit_start;
                self.undo_stack.push(Command::DeleteOverlay { overlay, index });
            },
        }
        // Redo entries address overlays by index, so none of them can survive
        // the list shrinking.
        self.redo_stack.clear();
        self.active_overlay = None;
    }

    /// Close the edit session: blank text discards its overlay, changed text
    /// is recorded as an edit.
    pub fn commit_text(&mut self)
        requires
            old(self)@.wf(),
        ensures
            final(self)@ == old(self)@.committed(),
            final(self)@.wf(),
    {
        let ghost v = self@;
        if let Some(idx) = self.active_overlay {
            if idx < self.overlays.len() {
                if let Some(old_text) = self.edit_start_text.take() {
                    if is_blank(self.overlays[idx].text.as_str()) {
                        proof {
                            if let Some(base) = v.fresh {
                                assert(v.overlays.remove(idx as int) =~= v.overlays.drop_last());
                                assert(truncated(v.undo, base) == v.undo.take(base as int));
                            } else {
                                lemma_record(
                                    v.undo,
                                    v.overlays.len(),
                                    Command::DeleteOverlay {
                                        overlay: TextOverlay {
                                            text: old_text,
                                            ..v.overlays[idx as int]
                                        },
                                        index: idx,
                                    },
                                );
                            }
                            lemma_empty_ok::<F>((v.overlays.len() - 1) as nat);
                        }
                        self.discard_empty_overlay(idx, old_text);
                    } else {
                        self.fresh_placement = None;
                        if old_text == self.overlays[idx].text {
                            // The same characters: keep the text the history
                            // already holds.
                            self.overlays[idx].text = old_text;
                        } else {
                            let new_text = self.overlays[idx].text.clone();
                            proof {
                                lemma_record(
                                    v.undo,
                                    v.overlays.len(),
                                    Command::EditText {
                                        index: idx,
                                        old_text,
                                        new_text,
                                    },
                                );
                                lemma_empty_ok::<F>(v.overlays.len());
                            }
                            self.undo_stack.push(
                                Command::EditText { index: idx, old_text, new_text },
                            );
                            self.redo_stack.clear();
                        }
                    }
                }
            }
        }
        self.editing = false;
        self.edit_start_text = None;
        self.fresh_placement = None;
    }

    fn settle(&mut self)
        requires
            old(self)@.wf(),
        ensures
            final(self)@ == old(self)@.settled(),
            final(self)@.wf(),
    {
        if self.editing {
            self.commit_text();
        }
    }

    fn cancel_edit_session(&mut self) -> (r: bool)
        requires
            old(self)@.wf(),
        ensures
            (final(self)@, r) == old(self)@.cancelled(),
            final(self)@.wf(),
    {
        let ghost v = self@;
        if !self.editing {
            return false;
        }
        let index = self.active_overlay;
        let start_text = self.edit_start_text.take();
        let fresh_placement = self.fresh_placement;
        self.clear_edit_session();
        proof {
            lemma_empty_ok::<F>(v.overlays.len());
        }
        match index {
            Some(index) => {
                if index >= self.overlays.len() {
                    return false;
                }
                if let Some(base_len) = fresh_placement {
                    proof {
                        assert(v.overlays.remove(index as int) =~= v.overlays.drop_last());
                        assert(truncated(v.undo, base_len) == v.undo.take(base_len as int));
                        lemma_empty_ok::<F>((v.overlays.len() - 1) as nat);
                    }
                    self.overlays.remove(index);
                    self.undo_stack.truncate(base_len);
                    // Redo entries address overlays by index, so none of them
                    // can survive the list shrinking outside the history.
                    self.redo_stack.clear();
                    return true;
                }
                match start_text {
                    Some(text) => {
                        let changed = self.overlays[index].text != text;
                        self.overlays[index].text = text;
                        changed
                    },
                    None => false,
                }
            },
            None => false,
        }
    }

    /// Undo the in-progress edit if there is one, otherwise reverse the most
    /// recent command. An edit that changed nothing falls through to the
    /// history.
    pub fn undo(&mut self)
        requires
            old(self)@.wf(),
        ensures
            final(self)@ == old(self)@.undone(),
            final(self)@.wf(),
    {
        if self.cancel_edit_session() {
            return;
        }
        let ghost v = self@;
        if let Some(cmd) = self.undo_stack.pop() {
            proof {
                assert(cmd == v.undo.last());
                lemma_unrecord(v.undo, v.overlays.len());
                lemma_defer(v.redo, v.overlays.len(), cmd);
                lemma_lengths(cmd, v.overlays);
            }
            cmd.reverse(&mut self.overlays);
            // A selection is an index, so it only survives commands that leave
            // the list's length intact.
            let changes_count = cmd.changes_overlay_count();
            self.redo_stack.push(cmd);
            if changes_count {
                self.clear_edit_session();
            }
            self.sync_toolbar_to_active_overlay();
        }
    }

    /// Reapply the most recently undone command, committing any edit first.
    pub fn redo(&mut self)
        requires
            old(self)@.wf(),
        ensures
            final(self)@ == old(self)@.redone(),
            final(self)@.wf(),
    {
        self.settle();
        let ghost v = self@;
        if let Some(cmd) = self.redo_stack.pop() {
            proof {
                assert(cmd == v.redo.last());
                lemma_undefer(v.redo, v.overlays.len());
                lemma_record(v.undo, v.overlays.len(), cmd);
                lemma_lengths(cmd, v.overlays);
            }
            cmd.apply(&mut self.overlays);
            let changes_count = cmd.changes_overlay_count();
            self.undo_stack.push(cmd);
            if changes_count {
                self.clear_edit_session();
            }
            self.sync_toolbar_to_active_overlay();
        }
    }

    /// Place a new empty overlay with the toolbar's font and size, and open it
    /// for editing, committing any edit first. The text widget then wants the
    /// keyboard focus.
    pub fn place_overlay(&mut self, page: u32, position: PdfPosition<F>, width: Option<F>)
        requires
            old(self)@.wf(),
            old(self)@.overlays.len() < usize::MAX,
        ensures
            exists|empty: String|
                empty@ == Seq::<char>::empty() && final(self)@ == old(self)@.placed(
                    page,
                    position,
                    width,
                    empty,
                ),
            final(self)@.wf(),
            final(self)@.wants_focus(),
    {
        self.settle();
        let ghost v = self@;
        let empty = String::new();
        let overlay = TextOverlay {
            page,
            position,
            text: empty.clone(),
            font: self.font,
            font_size: self.font_size,
            width,
            min_height: None,
        };
        let fresh_placement_base = self.undo_stack.len();
        let cmd = Command::PlaceOverlay { overlay };
        proof {
            lemma_record(v.undo, v.overlays.len(), cmd);
            lemma_empty_ok::<F>(v.overlays.len() + 1);
            assert(v.undo.push(cmd).take(v.undo.len() as int) =~= v.undo);
        }
        self.execute(cmd);
        let idx = self.overlays.len() - 1;
        self.active_overlay = Some(idx);
        self.editing = true;
        self.edit_start_text = Some(empty);
        self.fresh_placement = Some(fresh_placement_base);
        assert(self@ == old(self)@.placed(page, position, width, empty));
    }

    /// Set the active overlay's text; typing into a selected overlay begins
    /// an edit session on it, which is what records the change on commit.
    pub fn update_overlay_text(&mut self, text: String)
        requires
            old(self)@.wf(),
        ensures
            final(self)@ == old(self)@.typed(text),
            final(self)@.wf(),
    {
        if let Some(idx) = self.active_overlay {
            if idx < self.overlays.len() {
                if !self.editing {
                    self.edit_start_text = Some(self.overlays[idx].text.clone());
                    self.fresh_placement = None;
                    self.editing = true;
                }
                self.overlays[idx].text = text;
            }
        }
    }

    /// Move overlay `index` to `position`, recorded for undo.
    pub fn move_overlay(&mut self, index: usize, position: PdfPosition<F>)
        requires
            old(self)@.wf(),
        ensures
            final(self)@ == old(self)@.moved(index, position),
            final(self)@.wf(),
    {
        let ghost v = self@;
        if index < self.overlays.len() {
            let cmd = Command::MoveOverlay {
                index,
                from: self.overlays[index].position,
                to: position,
            };
            proof {
                self.lemma_execute_keeps_wf(cmd);
            }
            self.execute(cmd);
        }
    }

    /// Resize overlay `index` from `old_width` to `new_width`, recorded for
    /// undo.
    pub fn resize_overlay(&mut self, index: usize, old_width: F, new_width: F)
        requires
            old(self)@.wf(),
        ensures
            final(self)@ == old(self)@.resized(index, old_width, new_width),
            final(self)@.wf(),
    {
        if index < self.overlays.len() {
            let cmd = Command::ResizeOverlay { index, old_width, new_width };
            proof {
                self.lemma_execute_keeps_wf(cmd);
            }
            self.execute(cmd);
        }
    }

    /// Set the toolbar font, and the active overlay's with it (recorded).
    /// Returns whether the text widget wants the keyboard focus back.
    pub fn change_font(&mut self, font: FontId) -> (r: bool)
        requires
            old(self)@.wf(),
        ensures
            final(self)@ == old(self)@.font_changed(font),
            final(self)@.wf(),
            r == final(self)@.wants_focus(),
    {
        if let Some(idx) = self.active_overlay {
            if idx < self.overlays.len() {
                let cmd = Command::ChangeOverlayFont {
                    index: idx,
                    old_font: self.overlays[idx].font,
                    new_font: font,
                };
                proof {
                    self.lemma_execute_keeps_wf(cmd);
                }
                self.execute(cmd);
            }
        }
        self.font = font;
        self.wants_focus()
    }

    /// Set the toolbar font size, and the active overlay's with it
    /// (recorded). Returns whether the text widget wants the keyboard focus
    /// back.
    pub fn change_font_size(&mut self, size: F) -> (r: bool)
        requires
            old(self)@.wf(),
        ensures
            final(self)@ == old(self)@.font_size_changed(size),
            final(self)@.wf(),
            r == final(self)@.wants_focus(),
    {
        if let Some(idx) = self.active_overlay {
            if idx < self.overlays.len() {
                let cmd = Command::ChangeOverlayFontSize {
                    index: idx,
                    old_size: self.overlays[idx].font_size,
                    new_size: size,
                };
                proof {
                    self.lemma_execute_keeps_wf(cmd);
                }
                self.execute(cmd);
            }
        }
        self.font_size = size;
        self.wants_focus()
    }

    /// Delete the selected overlay, recorded. Any pending text is committed
    /// first, so undoing the deletion cannot restore text the history never
    /// recorded.
    pub fn delete_overlay(&mut self)
        requires
            old(self)@.wf(),
        ensures
            final(self)@ == old(self)@.deleted(),
            final(self)@.wf(),
    {
        self.settle();
        let ghost v = self@;
        if let Some(idx) = self.active_overlay {
            if idx < self.overlays.len() {
                let cmd = Command::DeleteOverlay { overlay: self.overlays[idx].duplicate(), index: idx };
                proof {
                    lemma_record(v.undo, v.overlays.len(), cmd);
                    lemma_empty_ok::<F>((v.overlays.len() - 1) as nat);
                }
                self.execute(cmd);
                self.clear_edit_session();
            }
        }
    }

    fn commit_before_targeting(&mut self, index: usize) -> (r: usize)
        requires
            old(self)@.wf(),
        ensures
            (final(self)@, r) == old(self)@.targeted(index),
            final(self)@.wf(),
    {
        if !self.editing {
            return index;
        }
        let edited = self.active_overlay;
        let count_before = self.overlays.len();
        self.commit_text();
        let shifted = self.overlays.len() < count_before && match edited {
            Some(e) => e < index,
            None => false,
        };
        if shifted {
            index - 1
        } else {
            index
        }
    }

    /// Select overlay `index` without editing it, committing any edit first.
    pub fn select_overlay(&mut self, index: usize)
        requires
            old(self)@.wf(),
        ensures
            final(self)@ == old(self)@.selected(index),
            final(self)@.wf(),
    {
        let index = self.commit_before_targeting(index);
        if index < self.overlays.len() {
            self.active_overlay = Some(index);
            self.editing = false;
            self.fresh_placement = None;
            self.edit_start_text = None;
            self.sync_toolbar_to_active_overlay();
        }
    }

    /// Open overlay `index` for editing, committing any other edit first.
    /// Returns whether the text widget wants the keyboard focus.
    pub fn edit_overlay(&mut self, index: usize) -> (r: bool)
        requires
            old(self)@.wf(),
        ensures
            final(self)@ == old(self)@.opened_for_edit(index),
            final(self)@.wf(),
            r == (old(self)@.targeted(index).1 < old(self)@.targeted(index).0.overlays.len()),
    {
        let index = self.commit_before_targeting(index);
        if index < self.overlays.len() {
            self.active_overlay = Some(index);
            self.editing = true;
            self.fresh_placement = None;
            self.edit_start_text = Some(self.overlays[index].text.clone());
            self.sync_toolbar_to_active_overlay();
            true
        } else {
            false
        }
    }

    /// Clear the selection, committing any edit first.
    pub fn deselect_overlay(&mut self)
        requires
            old(self)@.wf(),
        ensures
            final(self)@ == old(self)@.deselected(),
            final(self)@.wf(),
    {
        self.settle();
        self.active_overlay = None;
        self.editing = false;
    }

    /// Recording a command that keeps the list's length keeps the state
    /// consistent.
    proof fn lemma_execute_keeps_wf(&self, cmd: Command<F>)
        requires
            self@.wf(),
            cmd.can_apply(self@.overlays.len()),
            !(cmd is PlaceOverlay),
            !(cmd is DeleteOverlay),
        ensures
            self@.executed(cmd).wf(),
    {
        let v = self@;
        lemma_record(v.undo, v.overlays.len(), cmd);
        lemma_empty_ok::<F>(v.overlays.len());
        lemma_lengths(cmd, v.overlays);
        if let Some(base) = v.fresh {
            lemma_take_push(v.undo, cmd, base as int);
        }
    }
}

/// The editing state of an open document; see [`EditorState`]. Its state
/// is always well formed ([`EditorState::wf`]).
pub struct Editor<F: Copy> {
    core: EditorCore<F>,
}

impl<F: Copy> View for Editor<F> {
    type V = EditorState<F>;

    closed spec fn view(&self) -> EditorState<F> {
        self.core@
    }
}

impl<F: Copy> Editor<F> {
    /// Every editor's state is well formed.
    #[verifier::type_invariant]
    closed spec fn inv(self) -> bool {
        self.core@.wf()
    }

    /// The editing state of a freshly opened document holding `overlays`,
    /// with the toolbar showing `font` at `font_size`.
    pub fn new(overlays: Vec<TextOverlay<F>>, font: FontId, font_size: F) -> (r: Self)
        ensures
            r@ == EditorState::opened(overlays@, font, font_size),
            r@.wf(),
    {
        Editor { core: EditorCore::new(overlays, font, font_size) }
    }

    /// The document's overlays, in order.
    pub fn overlays(&self) -> (r: &[TextOverlay<F>])
        ensures
            r@ == self@.overlays,
    {
        self.core.overlays()
    }

    /// The overlay selected or being edited.
    pub fn active_overlay(&self) -> (r: Option<usize>)
        ensures
            r == self@.active,
    {
        self.core.active_overlay()
    }

    /// Whether the active overlay's text is being edited.
    pub fn is_editing(&self) -> (r: bool)
        ensures
            r == self@.editing,
    {
        self.core.is_editing()
    }

    /// The active overlay's text when its edit session began.
    pub fn edit_start_text(&self) -> (r: Option<&str>)
        ensures
            r is Some == self@.edit_start is Some,
            r matches Some(t) ==> t@ == self@.edit_start->0@,
    {
        self.core.edit_start_text()
    }

    /// While a just-placed overlay is being edited, the undo history's length
    /// before its placement.
    pub fn fresh_placement(&self) -> (r: Option<usize>)
        ensures
            r == self@.fresh,
    {
        self.core.fresh_placement()
    }

    /// The commands that can be undone, most recent last.
    pub fn undo_history(&self) -> (r: &[Command<F>])
        ensures
            r@ == self@.undo,
    {
        self.core.undo_history()
    }

    /// The commands that can be redone, next to redo last.
    pub fn redo_history(&self) -> (r: &[Command<F>])
        ensures
            r@ == self@.redo,
    {
        self.core.redo_history()
    }

    /// Number of commands available to undo.
    pub fn undo_depth(&self) -> (r: usize)
        ensures
            r == self@.undo.len(),
    {
        self.core.undo_depth()
    }

    /// Number of commands available to redo.
    pub fn redo_depth(&self) -> (r: usize)
        ensures
            r == self@.redo.len(),
    {
        self.core.redo_depth()
    }

    /// The font the toolbar shows.
    pub fn toolbar_font(&self) -> (r: FontId)
        ensures
            r == self@.font,
    {
        self.core.toolbar_font()
    }

    /// The font size the toolbar shows.
    pub fn toolbar_font_size(&self) -> (r: F)
        ensures
            r == self@.font_size,
    {
        self.core.toolbar_font_size()
    }

    /// The text the multi-line text widget shows: that of the overlay being
    /// edited, when it wraps to a width; `None` when no such edit is open.
    pub fn multiline_text(&self) -> (r: Option<&str>)
        ensures
            r is Some <==> self@.multiline_edit() is Some,
            r matches Some(t) ==> t@ == self@.overlays[self@.multiline_edit()->0 as int].text@,
    {
        self.core.multiline_text()
    }

    /// Whether the text widget of the overlay being edited should get the
    /// keyboard focus back after a toolbar interaction.
    pub fn wants_focus(&self) -> (r: bool)
        ensures
            r == self@.wants_focus(),
    {
        self.core.wants_focus()
    }

    /// Close the edit session: blank text discards its overlay, changed text
    /// is recorded as an edit.
    pub fn commit_text(&mut self)
        ensures
            final(self)@ == old(self)@.committed(),
            final(self)@.wf(),
    {
        proof {
            use_type_invariant(&*self);
        }
        let mut core = EditorCore::new(Vec::new(), self.core.font, self.core.font_size);
        std::mem::swap(&mut core, &mut self.core);
        core.commit_text();
        self.core = core;
    }

    /// Undo the in-progress edit if there is one, otherwise reverse the most
    /// recent command. An edit that changed nothing falls through to the
    /// history.
    pub fn undo(&mut self)
        ensures
            final(self)@ == old(self)@.undone(),
            final(self)@.wf(),
    {
        proof {
            use_type_invariant(&*self);
        }
        let mut core = EditorCore::new(Vec::new(), self.core.font, self.core.font_size);
        std::mem::swap(&mut core, &mut self.core);
        core.undo();
        self.core = core;
    }

    /// Reapply the most recently undone command, committing any edit first.
    pub fn redo(&mut self)
        ensures
            final(self)@ == old(self)@.redone(),
            final(self)@.wf(),
    {
        proof {
            use_type_invariant(&*self);
        }
        let mut core = EditorCore::new(Vec::new(), self.core.font, self.core.font_size);
        std::mem::swap(&mut core, &mut self.core);
        core.redo();
        self.core = core;
    }

    /// Place a new empty overlay with the toolbar's font and size, and open it
    /// for editing, committing any edit first. The text widget then wants the
    /// keyboard focus.
    pub fn place_overlay(&mut self, page: u32, position: PdfPosition<F>, width: Option<F>)
        requires
            old(self)@.overlays.len() < usize::MAX,
        ensures
            exists|empty: String|
                empty@ == Seq::<char>::empty() && final(self)@ == old(self)@.placed(
                    page,
                    position,
                    width,
                    empty,
                ),
            final(self)@.wf(),
            final(self)@.wants_focus(),
    {
        proof {
            use_type_invariant(&*self);
        }
        let mut core = EditorCore::new(Vec::new(), self.core.font, self.core.font_size);
        std::mem::swap(&mut core, &mut self.core);
        core.place_overlay(page, position, width);
        self.core = core;
    }

    /// Set the active overlay's text; typing into a selected overlay begins
    /// an edit session on it, which is what records the change on commit.
    pub fn update_overlay_text(&mut self, text: String)
        ensures
            final(self)@ == old(self)@.typed(text),
            final(self)@.wf(),
    {
        proof {
            use_type_invariant(&*self);
        }
        let mut core = EditorCore::new(Vec::new(), self.core.font, self.core.font_size);
        std::mem::swap(&mut core, &mut self.core);
        core.update_overlay_text(text);
        self.core = core;
    }

    /// Move overlay `index` to `position`, recorded for undo.
    pub fn move_overlay(&mut self, index: usize, position: PdfPosition<F>)
        ensures
            final(self)@ == old(self)@.moved(index, position),
            final(self)@.wf(),
            index < old(self)@.overlays.len() ==> final(self)@.overlays == old(self)@.overlays.update(
                index as int,
                TextOverlay { position, ..old(self)@.overlays[index as int] },
            ),
    {
        proof {
            lemma_move_sets_position(old(self)@, index, position);
            if index < old(self)@.overlays.len() {
                assert(old(self)@.moved(index, position).overlays =~= old(self)@.overlays.update(
                    index as int,
                    TextOverlay { position, ..old(self)@.overlays[index as int] },
                ));
            }
        }
        proof {
            use_type_invariant(&*self);
        }
        let mut core = EditorCore::new(Vec::new(), self.core.font, self.core.font_size);
        std::mem::swap(&mut core, &mut self.core);
        core.move_overlay(index, position);
        self.core = core;
    }

    /// Resize overlay `index` from `old_width` to `new_width`, recorded for
    /// undo.
    pub fn resize_overlay(&mut self, index: usize, old_width: F, new_width: F)
        ensures
            final(self)@ == old(self)@.resized(index, old_width, new_width),
            final(self)@.wf(),
    {
        proof {
            use_type_invariant(&*self);
        }
        let mut core = EditorCore::new(Vec::new(), self.core.font, self.core.font_size);
        std::mem::swap(&mut core, &mut self.core);
        core.resize_overlay(index, old_width, new_width);
        self.core = core;
    }

    /// Set the toolbar font, and the active overlay's with it (recorded).
    /// Returns whether the text widget wants the keyboard focus back.
    pub fn change_font(&mut self, font: FontId) -> (r: bool)
        ensures
            final(self)@ == old(self)@.font_changed(font),
            final(self)@.wf(),
            final(self)@.font == font,
            r == final(self)@.wants_focus(),
    {
        proof {
            use_type_invariant(&*self);
        }
        let mut core = EditorCore::new(Vec::new(), self.core.font, self.core.font_size);
        std::mem::swap(&mut core, &mut self.core);
        let r = core.change_font(font);
        self.core = core;
        r
    }

    /// Set the toolbar font size, and the active overlay's with it
    /// (recorded). Returns whether the text widget wants the keyboard focus
    /// back.
    pub fn change_font_size(&mut self, size: F) -> (r: bool)
        ensures
            final(self)@ == old(self)@.font_size_changed(size),
            final(self)@.wf(),
            final(self)@.font_size == size,
            r == final(self)@.wants_focus(),
    {
        proof {
            use_type_invariant(&*self);
        }
        let mut core = EditorCore::new(Vec::new(), self.core.font, self.core.font_size);
        std::mem::swap(&mut core, &mut self.core);
        let r = core.change_font_size(size);
        self.core = core;
        r
    }

    /// Delete the selected overlay, recorded. Any pending text is committed
    /// first, so undoing the deletion cannot restore text the history never
    /// recorded.
    pub fn delete_overlay(&mut self)
        ensures
            final(self)@ == old(self)@.deleted(),
            final(self)@.wf(),
    {
        proof {
            use_type_invariant(&*self);
        }
        let mut core = EditorCore::new(Vec::new(), self.core.font, self.core.font_size);
        std::mem::swap(&mut core, &mut self.core);
        core.delete_overlay();
        self.core = core;
    }

    /// Select overlay `index` without editing it, committing any edit first.
    pub fn select_overlay(&mut self, index: usize)
        ensures
            final(self)@ == old(self)@.selected(index),
            final(self)@.wf(),
    {
        proof {
            use_type_invariant(&*self);
        }
        let mut core = EditorCore::new(Vec::new(), self.core.font, self.core.font_size);
        std::mem::swap(&mut core, &mut self.core);
        core.select_overlay(index);
        self.core = core;
    }

    /// Open overlay `index` for editing, committing any other edit first.
    /// Returns whether the text widget wants the keyboard focus.
    pub fn edit_overlay(&mut self, index: usize) -> (r: bool)
        ensures
            final(self)@ == old(self)@.opened_for_edit(index),
            final(self)@.wf(),
            r == (old(self)@.targeted(index).1 < old(self)@.targeted(index).0.overlays.len()),
    {
        proof {
            use_type_invariant(&*self);
        }
        let mut core = EditorCore::new(Vec::new(), self.core.font, self.core.font_size);
        std::mem::swap(&mut core, &mut self.core);
        let r = core.edit_overlay(index);
        self.core = core;
        r
    }

    /// Clear the selection, committing any edit first.
    pub fn deselect_overlay(&mut self)
        ensures
            final(self)@ == old(self)@.deselected(),
            final(self)@.wf(),
    {
        proof {
            use_type_invariant(&*self);
        }
        let mut core = EditorCore::new(Vec::new(), self.core.font, self.core.font_size);
        std::mem::swap(&mut core, &mut self.core);
        core.deselect_overlay();
        self.core = core;
    }
}

/// The overlays obtained by applying `cmds`, oldest first, to `start`.
pub open spec fn replay<F: Copy>(cmds: Seq<Command<F>>, start: Seq<TextOverlay<F>>) -> Seq<
    TextOverlay<F>,
>
    decreases cmds.len(),
{
    if cmds.len() == 0 {
        start
    } else {
        cmds.last().applied(replay(cmds.drop_last(), start))
    }
}

/// Whether each command of `cmds` was recorded against the overlays that the
/// commands before it leave, starting from `start`.
pub open spec fn sound<F: Copy>(cmds: Seq<Command<F>>, start: Seq<TextOverlay<F>>) -> bool {
    forall|k: int|
        0 <= k < cmds.len() ==> #[trigger] cmds[k].recorded_before(replay(cmds.take(k), start))
}

/// The whole history: the undoable commands, oldest first, then the redoable
/// ones in the order they would be redone.
pub open spec fn timeline<F>(undo: Seq<Command<F>>, redo: Seq<Command<F>>) -> Seq<Command<F>> {
    undo + Seq::new(redo.len(), |i: int| redo[redo.len() - 1 - i])
}

impl<F: Copy> EditorState<F> {
    /// The overlays as the history knows them: while an edit session is
    /// open, the edited overlay still holds its text from before the session.
    pub open spec fn committed_overlays(self) -> Seq<TextOverlay<F>> {
        match self.active {
            Some(i) => match self.edit_start {
                Some(t) => if self.editing {
                    self.overlays.update(i as int, TextOverlay { text: t, ..self.overlays[i as int] })
                } else {
                    self.overlays
                },
                None => self.overlays,
            },
            None => self.overlays,
        }
    }

    /// Whether the document is what its history says, for a document that
    /// was opened holding `start`: replaying the undo history on `start`
    /// gives the overlays (as they were before any open edit session), every
    /// recorded command can be reversed and redone faithfully, and a fresh
    /// placement's history replays to the overlays without it.
    pub open spec fn matches_history(self, start: Seq<TextOverlay<F>>) -> bool {
        &&& replay(self.undo, start) == self.committed_overlays()
        &&& sound(timeline(self.undo, self.redo), start)
        &&& (self.fresh matches Some(base) ==> replay(self.undo.take(base as int), start)
            == self.committed_overlays().drop_last())
    }
}

proof fn lemma_replay_push<F: Copy>(u: Seq<Command<F>>, c: Command<F>, start: Seq<TextOverlay<F>>)
    ensures
        replay(u.push(c), start) == c.applied(replay(u, start)),
{
    assert(u.push(c).drop_last() =~= u);
}

proof fn lemma_sound_push<F: Copy>(u: Seq<Command<F>>, c: Command<F>, start: Seq<TextOverlay<F>>)
    requires
        sound(u, start),
        c.recorded_before(replay(u, start)),
    ensures
        sound(u.push(c), start),
{
    assert forall|k: int| 0 <= k < u.push(c).len() implies #[trigger] u.push(c)[k].recorded_before(
        replay(u.push(c).take(k), start),
    ) by {
        if k < u.len() {
            assert(u.push(c).take(k) =~= u.take(k));
            assert(u[k].recorded_before(replay(u.take(k), start)));
        } else {
            assert(u.push(c).take(k) =~= u);
        }
    }
}

proof fn lemma_sound_prefix<F: Copy>(u: Seq<Command<F>>, n: int, start: Seq<TextOverlay<F>>)
    requires
        sound(u, start),
        0 <= n <= u.len(),
    ensures
        sound(u.take(n), start),
{
    assert forall|k: int| 0 <= k < u.take(n).len() implies #[trigger] u.take(n)[k].recorded_before(
        replay(u.take(n).take(k), start),
    ) by {
        assert(u.take(n).take(k) =~= u.take(k));
        assert(u[k].recorded_before(replay(u.take(k), start)));
    }
}

proof fn lemma_sound_last<F: Copy>(u: Seq<Command<F>>, start: Seq<TextOverlay<F>>)
    requires
        sound(u, start),
        u.len() > 0,
    ensures
        u.last().recorded_before(replay(u.drop_last(), start)),
        sound(u.drop_last(), start),
{
    let k = u.len() - 1;
    assert(u.take(k) =~= u.drop_last());
    assert(u[k].recorded_before(replay(u.take(k), start)));
    lemma_sound_prefix(u, k, start);
}

/// What the timeline's soundness says of the undo history and of the next
/// command to redo.
proof fn lemma_timeline_parts<F: Copy>(
    u: Seq<Command<F>>,
    r: Seq<Command<F>>,
    start: Seq<TextOverlay<F>>,
)
    requires
        sound(timeline(u, r), start),
    ensures
        sound(u, start),
        r.len() > 0 ==> r.last().recorded_before(replay(u, start)),
{
    let t = timeline(u, r);
    assert(t.take(u.len() as int) =~= u);
    lemma_sound_prefix(t, u.len() as int, start);
    if r.len() > 0 {
        let k = u.len() as int;
        assert(t[k] == r.last());
        assert(t[k].recorded_before(replay(t.take(k), start)));
    }
}

proof fn lemma_timeline_undo<F>(u: Seq<Command<F>>, r: Seq<Command<F>>)
    requires
        u.len() > 0,
    ensures
        timeline(u.drop_last(), r.push(u.last())) == timeline(u, r),
{
    assert(timeline(u.drop_last(), r.push(u.last())) =~= timeline(u, r));
}

proof fn lemma_timeline_redo<F>(u: Seq<Command<F>>, r: Seq<Command<F>>)
    requires
        r.len() > 0,
    ensures
        timeline(u.push(r.last()), r.drop_last()) == timeline(u, r),
{
    assert(timeline(u.push(r.last()), r.drop_last()) =~= timeline(u, r));
}

proof fn lemma_timeline_empty<F>(u: Seq<Command<F>>)
    ensures
        timeline(u, Seq::<Command<F>>::empty()) == u,
{
    assert(timeline(u, Seq::<Command<F>>::empty()) =~= u);
}

/// Whether `cmd` changes overlay `i` in place and nothing else.
pub open spec fn in_place_on<F>(cmd: Command<F>, i: int) -> bool {
    match cmd {
        Command::MoveOverlay { index, .. } => index == i,
        Command::ChangeOverlayFont { index, .. } => index == i,
        Command::ChangeOverlayFontSize { index, .. } => index == i,
        Command::ResizeOverlay { index, .. } => index == i,
        _ => false,
    }
}

/// Whether `cmd` changes one overlay in place, leaving its text alone.
pub open spec fn in_place<F>(cmd: Command<F>) -> bool {
    cmd is MoveOverlay || cmd is ChangeOverlayFont || cmd is ChangeOverlayFontSize
        || cmd is ResizeOverlay
}

/// Recording a command keeps the document matching its history, given that
/// the command was built from the document as the history knows it; while an
/// edit session is open, only in-place commands are recorded, and while a
/// placement is fresh, only on the placed overlay.
proof fn lemma_history_executed<F: Copy>(
    v: EditorState<F>,
    cmd: Command<F>,
    start: Seq<TextOverlay<F>>,
)
    requires
        v.wf(),
        v.matches_history(start),
        cmd.can_apply(v.overlays.len()),
        cmd.recorded_before(v.committed_overlays()),
        v.editing ==> in_place(cmd),
        v.fresh is Some ==> in_place_on(cmd, v.overlays.len() - 1),
    ensures
        v.executed(cmd).committed_overlays() == cmd.applied(v.committed_overlays()),
        v.executed(cmd).matches_history(start),
        in_place(cmd) ==> v.executed(cmd).wf(),
{
    let w = v.executed(cmd);
    lemma_record(v.undo, v.overlays.len(), cmd);
    lemma_empty_ok::<F>(v.overlays.len());
    lemma_lengths(cmd, v.overlays);
    let c = v.committed_overlays();
    if v.editing {
        let i = v.active->0;
        assert(w.committed_overlays() =~= cmd.applied(c));
    }
    lemma_replay_push(v.undo, cmd, start);
    lemma_timeline_parts(v.undo, v.redo, start);
    lemma_sound_push(v.undo, cmd, start);
    lemma_timeline_empty(v.undo.push(cmd));
    if let Some(base) = v.fresh {
        lemma_take_push(v.undo, cmd, base as int);
        assert(cmd.applied(c).drop_last() =~= c.drop_last());
    }
}

/// Closing an edit session keeps the document matching its history.
proof fn lemma_history_committed<F: Copy>(v: EditorState<F>, start: Seq<TextOverlay<F>>)
    requires
        v.wf(),
        v.matches_history(start),
    ensures
        v.committed().matches_history(start),
        !v.committed().editing,
        v.committed().fresh is None,
        v.committed().edit_start is None,
        v.committed().wf(),
{
    let w = v.committed();
    let c = v.committed_overlays();
    lemma_timeline_parts(v.undo, v.redo, start);
    if v.editing {
        let i = v.active->0;
        let t = v.edit_start->0;
        let n = v.overlays[i as int].text;
        if blank(n@) {
            if let Some(base) = v.fresh {
                assert(v.overlays.remove(i as int) =~= v.overlays.drop_last());
                assert(c.drop_last() =~= v.overlays.drop_last());
                lemma_sound_prefix(v.undo, base as int, start);
                lemma_timeline_empty(v.undo.take(base as int));
            } else {
                let cmd = Command::DeleteOverlay {
                    overlay: TextOverlay { text: t, ..v.overlays[i as int] },
                    index: i,
                };
                assert(cmd.recorded_before(c));
                lemma_replay_push(v.undo, cmd, start);
                assert(cmd.applied(c) =~= v.overlays.remove(i as int));
                lemma_sound_push(v.undo, cmd, start);
                lemma_timeline_empty(v.undo.push(cmd));
                lemma_record(v.undo, v.overlays.len(), cmd);
            }
        } else if t@ != n@ {
            let cmd = Command::EditText { index: i, old_text: t, new_text: n };
            assert(cmd.recorded_before(c));
            lemma_replay_push(v.undo, cmd, start);
            assert(cmd.applied(c) =~= v.overlays);
            lemma_sound_push(v.undo, cmd, start);
            lemma_timeline_empty(v.undo.push(cmd));
            lemma_record(v.undo, v.overlays.len(), cmd);
        } else {
            assert(w.overlays =~= c);
        }
    }
}

/// Abandoning an edit session keeps the document matching its history.
proof fn lemma_history_cancelled<F: Copy>(v: EditorState<F>, start: Seq<TextOverlay<F>>)
    requires
        v.wf(),
        v.matches_history(start),
    ensures
        v.cancelled().0.matches_history(start),
        !v.cancelled().0.editing,
        v.cancelled().0.fresh is None,
        v.cancelled().0.edit_start is None,
        v.cancelled().0.wf(),
{
    let c = v.committed_overlays();
    lemma_timeline_parts(v.undo, v.redo, start);
    if v.editing {
        let i = v.active->0;
        if let Some(base) = v.fresh {
            assert(v.overlays.remove(i as int) =~= v.overlays.drop_last());
            assert(c.drop_last() =~= v.overlays.drop_last());
            lemma_sound_prefix(v.undo, base as int, start);
            lemma_timeline_empty(v.undo.take(base as int));
            lemma_empty_ok::<F>((v.overlays.len() - 1) as nat);
        } else {
            assert(v.cancelled().0.overlays =~= c);
        }
    }
}

/// Typing into the active overlay keeps the document matching its history:
/// the typed text is not the history's until the session is committed.
proof fn lemma_history_typed<F: Copy>(v: EditorState<F>, text: String, start: Seq<TextOverlay<F>>)
    requires
        v.wf(),
        v.matches_history(start),
    ensures
        v.typed(text).matches_history(start),
{
    let w = v.typed(text);
    if let Some(i) = v.active {
        if i < v.overlays.len() {
            assert(w.committed_overlays() =~= v.committed_overlays());
        }
    }
}

/// Undo keeps the document matching its history.
proof fn lemma_history_undone<F: Copy>(v: EditorState<F>, start: Seq<TextOverlay<F>>)
    requires
        v.wf(),
        v.matches_history(start),
    ensures
        v.undone().matches_history(start),
        v.undone().wf(),
{
    lemma_history_cancelled(v, start);
    let (w, changed) = v.cancelled();
    if !changed && w.undo.len() > 0 {
        let cmd = w.undo.last();
        lemma_unrecord(w.undo, w.overlays.len());
        lemma_defer(w.redo, w.overlays.len(), cmd);
        lemma_lengths(cmd, w.overlays);
        lemma_timeline_parts(w.undo, w.redo, start);
        lemma_sound_last(w.undo, start);
        crate::command::lemma_reverse_undoes_apply(cmd, replay(w.undo.drop_last(), start));
        assert(replay(w.undo, start) == cmd.applied(replay(w.undo.drop_last(), start)));
        lemma_timeline_undo(w.undo, w.redo);
    }
}

/// Redo keeps the document matching its history.
proof fn lemma_history_redone<F: Copy>(v: EditorState<F>, start: Seq<TextOverlay<F>>)
    requires
        v.wf(),
        v.matches_history(start),
    ensures
        v.redone().matches_history(start),
        v.redone().wf(),
{
    lemma_history_committed(v, start);
    let w = v.settled();
    if w.redo.len() > 0 {
        let cmd = w.redo.last();
        lemma_undefer(w.redo, w.overlays.len());
        lemma_record(w.undo, w.overlays.len(), cmd);
        lemma_lengths(cmd, w.overlays);
        lemma_replay_push(w.undo, cmd, start);
        lemma_timeline_redo(w.undo, w.redo);
    }
}

/// Placing an overlay keeps the document matching its history.
proof fn lemma_history_placed<F: Copy>(
    v: EditorState<F>,
    page: u32,
    position: PdfPosition<F>,
    width: Option<F>,
    empty: String,
    start: Seq<TextOverlay<F>>,
)
    requires
        v.wf(),
        v.matches_history(start),
        v.overlays.len() < usize::MAX,
        v.undo.len() < usize::MAX,
    ensures
        v.placed(page, position, width, empty).matches_history(start),
        v.placed(page, position, width, empty).wf(),
{
    lemma_history_committed(v, start);
    let w = v.settled();
    let overlay = TextOverlay {
        page,
        position,
        text: empty,
        font: w.font,
        font_size: w.font_size,
        width,
        min_height: None,
    };
    let cmd = Command::PlaceOverlay { overlay };
    lemma_history_executed(w, cmd, start);
    let e = w.executed(cmd);
    let p = v.placed(page, position, width, empty);
    assert(p.committed_overlays() =~= e.overlays);
    assert(e.undo.take(w.undo.len() as int) =~= w.undo);
    assert(e.overlays.drop_last() =~= w.overlays);
    lemma_record(w.undo, w.overlays.len(), cmd);
    lemma_empty_ok::<F>(w.overlays.len() + 1);
}

/// Deleting the selected overlay keeps the document matching its history.
proof fn lemma_history_deleted<F: Copy>(v: EditorState<F>, start: Seq<TextOverlay<F>>)
    requires
        v.wf(),
        v.matches_history(start),
    ensures
        v.deleted().matches_history(start),
        v.deleted().wf(),
{
    lemma_history_committed(v, start);
    let w = v.settled();
    if let Some(i) = w.active {
        if i < w.overlays.len() {
            let cmd = Command::DeleteOverlay { overlay: w.overlays[i as int], index: i };
            lemma_record(w.undo, w.overlays.len(), cmd);
            lemma_empty_ok::<F>((w.overlays.len() - 1) as nat);
            lemma_history_executed(
                w,
                Command::DeleteOverlay { overlay: w.overlays[i as int], index: i },
                start,
            );
        }
    }
}

/// Selecting, opening for edit and deselecting keep the document matching
/// its history.
proof fn lemma_history_selection<F: Copy>(v: EditorState<F>, index: usize, start: Seq<TextOverlay<F>>)
    requires
        v.wf(),
        v.matches_history(start),
    ensures
        v.selected(index).matches_history(start),
        v.opened_for_edit(index).matches_history(start),
        v.deselected().matches_history(start),
        v.selected(index).wf(),
        v.opened_for_edit(index).wf(),
        v.deselected().wf(),
{
    lemma_history_committed(v, start);
    let (w, i) = v.targeted(index);
    if i < w.overlays.len() {
        let o = v.opened_for_edit(index);
        assert(o.committed_overlays() =~= w.overlays);
    }
}

/// Restyling the active overlay keeps the document matching its history.
proof fn lemma_history_restyled<F: Copy>(
    v: EditorState<F>,
    font: FontId,
    size: F,
    start: Seq<TextOverlay<F>>,
)
    requires
        v.wf(),
        v.matches_history(start),
    ensures
        v.font_changed(font).matches_history(start),
        v.font_size_changed(size).matches_history(start),
        v.font_changed(font).wf(),
        v.font_size_changed(size).wf(),
{
    if let Some(i) = v.active {
        if i < v.overlays.len() {
            let c = v.committed_overlays();
            let a = Command::ChangeOverlayFont {
                index: i,
                old_font: v.overlays[i as int].font,
                new_font: font,
            };
            let b = Command::ChangeOverlayFontSize {
                index: i,
                old_size: v.overlays[i as int].font_size,
                new_size: size,
            };
            assert(a.recorded_before(c));
            assert(b.recorded_before(c));
            lemma_history_executed(v, a, start);
            lemma_history_executed(v, b, start);
        }
    }
}

/// Moving or resizing an overlay keeps the document matching its history,
/// unless it is another overlay than a fresh placement, or the resize starts
/// from a width the overlay does not have.
proof fn lemma_history_reshaped<F: Copy>(
    v: EditorState<F>,
    index: usize,
    position: PdfPosition<F>,
    old_width: F,
    new_width: F,
    start: Seq<TextOverlay<F>>,
)
    requires
        v.wf(),
        v.matches_history(start),
        v.fresh is Some ==> index + 1 == v.overlays.len(),
    ensures
        v.moved(index, position).matches_history(start),
        index < v.overlays.len() && v.overlays[index as int].width == Some(old_width) ==> v.resized(
            index,
            old_width,
            new_width,
        ).matches_history(start),
        v.moved(index, position).wf(),
        v.resized(index, old_width, new_width).wf(),
{
    if index < v.overlays.len() {
        let c = v.committed_overlays();
        let m = Command::MoveOverlay {
            index,
            from: v.overlays[index as int].position,
            to: position,
        };
        assert(m.recorded_before(c));
        lemma_history_executed(v, m, start);
        let r = Command::ResizeOverlay { index, old_width, new_width };
        lemma_record(v.undo, v.overlays.len(), r);
        lemma_empty_ok::<F>(v.overlays.len());
        lemma_lengths(r, v.overlays);
        if let Some(base) = v.fresh {
            lemma_take_push(v.undo, r, base as int);
        }
        if v.overlays[index as int].width == Some(old_width) {
            let r = Command::ResizeOverlay { index, old_width, new_width };
            assert(r.recorded_before(c));
            lemma_history_executed(v, r, start);
        }
    }
}

/// A user action on the editor, as the transitions of [`EditorState`] take
/// it.
pub enum EditorAction<F> {
    Place { page: u32, position: PdfPosition<F>, width: Option<F>, empty: String },
    Type(String),
    Commit,
    Move { index: usize, position: PdfPosition<F> },
    Resize { index: usize, old_width: F, new_width: F },
    ChangeFont(FontId),
    ChangeFontSize(F),
    Delete,
    Select(usize),
    Edit(usize),
    Deselect,
    Undo,
    Redo,
}

impl<F: Copy> EditorState<F> {
    /// The state after `action`.
    pub open spec fn after(self, action: EditorAction<F>) -> Self {
        match action {
            EditorAction::Place { page, position, width, empty } => self.placed(
                page,
                position,
                width,
                empty,
            ),
            EditorAction::Type(text) => self.typed(text),
            EditorAction::Commit => self.committed(),
            EditorAction::Move { index, position } => self.moved(index, position),
            EditorAction::Resize { index, old_width, new_width } => self.resized(
                index,
                old_width,
                new_width,
            ),
            EditorAction::ChangeFont(font) => self.font_changed(font),
            EditorAction::ChangeFontSize(size) => self.font_size_changed(size),
            EditorAction::Delete => self.deleted(),
            EditorAction::Select(index) => self.selected(index),
            EditorAction::Edit(index) => self.opened_for_edit(index),
            EditorAction::Deselect => self.deselected(),
            EditorAction::Undo => self.undone(),
            EditorAction::Redo => self.redone(),
        }
    }

    /// The actions the history law covers: all but moving or resizing an
    /// overlay other than a fresh placement while it is being placed, and
    /// resizing from a width the overlay does not have; placing needs room
    /// for one more overlay and one more command.
    pub open spec fn keeps_history(self, action: EditorAction<F>) -> bool {
        match action {
            EditorAction::Place { .. } => self.overlays.len() < usize::MAX && self.undo.len()
                < usize::MAX,
            EditorAction::Move { index, .. } => self.fresh is Some ==> index + 1
                == self.overlays.len(),
            EditorAction::Resize { index, old_width, .. } => (self.fresh is Some ==> index + 1
                == self.overlays.len()) && (index < self.overlays.len()
                ==> self.overlays[index as int].width == Some(old_width)),
            _ => true,
        }
    }
}

/// A freshly opened document matches its (empty) history.
pub proof fn lemma_opened_matches_history<F: Copy>(
    overlays: Seq<TextOverlay<F>>,
    font: FontId,
    font_size: F,
)
    ensures
        EditorState::opened(overlays, font, font_size).wf(),
        EditorState::opened(overlays, font, font_size).matches_history(overlays),
{
    lemma_empty_ok::<F>(overlays.len());
    lemma_timeline_empty(Seq::<Command<F>>::empty());
}

/// The document always matches its undo history: after any action, the undo
/// history replayed on the overlays the document was opened with gives the
/// overlays (the one being edited with its text from before the session),
/// every recorded command was recorded against the overlays it applies to, so
/// undo and redo move faithfully along the history, and a fresh placement's
/// history without it replays to the overlays without it.
pub proof fn lemma_actions_keep_history<F: Copy>(
    v: EditorState<F>,
    action: EditorAction<F>,
    start: Seq<TextOverlay<F>>,
)
    requires
        v.wf(),
        v.matches_history(start),
        v.keeps_history(action),
    ensures
        v.after(action).wf(),
        v.after(action).matches_history(start),
{
    match action {
        EditorAction::Place { page, position, width, empty } => {
            lemma_history_placed(v, page, position, width, empty, start);
        },
        EditorAction::Type(text) => {
            lemma_history_typed(v, text, start);
        },
        EditorAction::Commit => {
            lemma_history_committed(v, start);
        },
        EditorAction::Move { index, position } => {
            lemma_history_reshaped(v, index, position, v.font_size, v.font_size, start);
        },
        EditorAction::Resize { index, old_width, new_width } => {
            lemma_history_reshaped(v, index, PdfPosition { x: old_width, y: old_width }, old_width, new_width, start);
        },
        EditorAction::ChangeFont(font) => {
            lemma_history_restyled(v, font, v.font_size, start);
        },
        EditorAction::ChangeFontSize(size) => {
            lemma_history_restyled(v, v.font, size, start);
        },
        EditorAction::Delete => {
            lemma_history_deleted(v, start);
        },
        EditorAction::Select(index) => {
            lemma_history_selection(v, index, start);
        },
        EditorAction::Edit(index) => {
            lemma_history_selection(v, index, start);
        },
        EditorAction::Deselect => {
            lemma_history_selection(v, 0, start);
        },
        EditorAction::Undo => {
            lemma_history_undone(v, start);
        },
        EditorAction::Redo => {
            lemma_history_redone(v, start);
        },
    }
}

/// The state reached from `v` by the actions of `actions`, in order.
pub open spec fn after_all<F: Copy>(v: EditorState<F>, actions: Seq<EditorAction<F>>) -> EditorState<F>
    decreases actions.len(),
{
    if actions.len() == 0 {
        v
    } else {
        after_all(v, actions.drop_last()).after(actions.last())
    }
}

/// Whether every action of `actions`, taken in order from `v`, is one that
/// keeps the history from the state it meets (see
/// [`EditorState::keeps_history`]).
pub open spec fn all_keep_history<F: Copy>(v: EditorState<F>, actions: Seq<EditorAction<F>>) -> bool {
    forall|i: int| 0 <= i < actions.len() ==> #[trigger] after_all(v, actions.take(i)).keeps_history(actions[i])
}

/// The document matches its undo history after any sequence of actions from
/// a state that matches it: the law of [`lemma_actions_keep_history`] carried
/// along the whole sequence. From a freshly opened document
/// ([`lemma_opened_matches_history`]) this holds after every message the
/// editor receives.
pub proof fn lemma_action_sequences_keep_history<F: Copy>(
    v: EditorState<F>,
    actions: Seq<EditorAction<F>>,
    start: Seq<TextOverlay<F>>,
)
    requires
        v.wf(),
        v.matches_history(start),
        all_keep_history(v, actions),
    ensures
        after_all(v, actions).wf(),
        after_all(v, actions).matches_history(start),
    decreases actions.len(),
{
    if actions.len() > 0 {
        let n = actions.len() - 1;
        let prefix = actions.drop_last();
        assert forall|i: int| 0 <= i < prefix.len() implies #[trigger] after_all(v, prefix.take(i)).keeps_history(
            prefix[i],
        ) by {
            assert(prefix.take(i) =~= actions.take(i));
            assert(after_all(v, actions.take(i)).keeps_history(actions[i]));
        }
        lemma_action_sequences_keep_history(v, prefix, start);
        assert(actions.take(n) =~= prefix);
        assert(after_all(v, actions.take(n)).keeps_history(actions[n]));
        lemma_actions_keep_history(after_all(v, prefix), actions.last(), start);
    }
}

/// Moving overlay `index` to `position` puts that overlay at `position`,
/// keeps its other fields and every other overlay as they were, and records
/// the move so that undoing it (with no edit open) brings the overlay back.
/// An index past the end changes nothing.
pub proof fn lemma_move_sets_position<F: Copy>(
    v: EditorState<F>,
    index: usize,
    position: PdfPosition<F>,
)
    ensures
        index >= v.overlays.len() ==> v.moved(index, position) == v,
        index < v.overlays.len() ==> {
            let w = v.moved(index, position);
            &&& w.overlays.len() == v.overlays.len()
            &&& w.overlays[index as int] == TextOverlay { position, ..v.overlays[index as int] }
            &&& forall|j: int|
                0 <= j < v.overlays.len() && j != index ==> #[trigger] w.overlays[j] == v.overlays[j]
            &&& !v.editing ==> w.undone().overlays == v.overlays
        },
{
    if index < v.overlays.len() {
        let w = v.moved(index, position);
        if !v.editing {
            let back = w.undone().overlays;
            assert(back =~= v.overlays);
        }
    }
}

/// Choosing a font or a font size sets the toolbar's whatever is selected,
/// and gives it to the active overlay, if there is one; an overlay placed
/// afterwards takes the toolbar's font and size, with the position, page and
/// width it was placed with and empty text.
pub proof fn lemma_toolbar_choices<F: Copy>(
    v: EditorState<F>,
    font: FontId,
    size: F,
    page: u32,
    position: PdfPosition<F>,
    width: Option<F>,
    empty: String,
)
    ensures
        v.font_changed(font).font == font,
        v.font_size_changed(size).font_size == size,
        v.font_changed(font).font_size == v.font_size,
        v.font_size_changed(size).font == v.font,
        v.active matches Some(i) ==> (i < v.overlays.len() ==> v.font_changed(font).overlays[i as int].font
            == font && v.font_size_changed(size).overlays[i as int].font_size == size),
        v.placed(page, position, width, empty).overlays.last() == (TextOverlay {
            page,
            position,
            text: empty,
            font: v.font,
            font_size: v.font_size,
            width,
            min_height: None,
        }),
{
}

/// Undo then redo: when no edit is in progress, redoing what was just undone
/// gives back the overlays and both histories.
pub proof fn lemma_redo_restores_undo<F: Copy>(v: EditorState<F>, start: Seq<TextOverlay<F>>)
    requires
        v.wf(),
        v.matches_history(start),
        !v.editing,
        v.undo.len() > 0,
    ensures
        v.undone().redone().overlays == v.overlays,
        v.undone().redone().undo == v.undo,
        v.undone().redone().redo == v.redo,
{
    let cmd = v.undo.last();
    lemma_timeline_parts(v.undo, v.redo, start);
    lemma_sound_last(v.undo, start);
    crate::command::lemma_reverse_undoes_apply(cmd, replay(v.undo.drop_last(), start));
    crate::command::lemma_apply_redoes_reverse(cmd, v.overlays);
    assert(v.undone().redo.last() == cmd);
    assert(v.undone().undo.push(cmd) =~= v.undo);
    assert(v.redo.push(cmd).drop_last() =~= v.redo);
}

/// Redo then undo: when no edit is in progress, undoing what was just
/// redone gives back the overlays and both histories.
pub proof fn lemma_undo_restores_redo<F: Copy>(v: EditorState<F>, start: Seq<TextOverlay<F>>)
    requires
        v.wf(),
        v.matches_history(start),
        !v.editing,
        v.redo.len() > 0,
    ensures
        v.redone().undone().overlays == v.overlays,
        v.redone().undone().undo == v.undo,
        v.redone().undone().redo == v.redo,
{
    let cmd = v.redo.last();
    lemma_timeline_parts(v.undo, v.redo, start);
    crate::command::lemma_reverse_undoes_apply(cmd, v.overlays);
    assert(v.redone().undo.last() == cmd);
    assert(v.redone().redo.push(cmd) =~= v.redo);
    assert(v.undo.push(cmd).drop_last() =~= v.undo);
}

/// Abandoning a fresh placement: undoing an overlay that was placed and never
/// given text takes it back and leaves the undo history as it was before.
pub proof fn lemma_undo_takes_back_a_placement<F: Copy>(
    v: EditorState<F>,
    page: u32,
    position: PdfPosition<F>,
    width: Option<F>,
    empty: String,
)
    requires
        v.wf(),
        !v.editing,
        v.overlays.len() < usize::MAX,
        v.undo.len() <= usize::MAX,
    ensures
        v.placed(page, position, width, empty).undone().overlays == v.overlays,
        v.placed(page, position, width, empty).undone().undo == v.undo,
        v.placed(page, position, width, empty).undone().active is None,
        !v.placed(page, position, width, empty).undone().editing,
{
    let p = v.placed(page, position, width, empty);
    assert(p.overlays.remove(v.overlays.len() as int) =~= v.overlays);
    assert(p.undo.take(v.undo.len() as int) =~= v.undo);
}

/// Undoing a committed text edit restores the overlay's text from before
/// the edit: typing `text` into the selected overlay, committing and undoing
/// gives back the overlays.
pub proof fn lemma_undo_reverts_a_committed_edit<F: Copy>(
    v: EditorState<F>,
    i: usize,
    text: String,
)
    requires
        v.wf(),
        !v.editing,
        v.active == Some(i),
        !blank(text@),
        text@ != v.overlays[i as int].text@,
    ensures
        v.typed(text).committed().undone().overlays == v.overlays,
        v.typed(text).committed().undo == v.undo.push(
            Command::EditText { index: i, old_text: v.overlays[i as int].text, new_text: text },
        ),
{
    let t = v.typed(text);
    assert(t.overlays[i as int].text == text);
    let c = t.committed();
    assert(c.undo.last() == Command::EditText::<F> {
        index: i,
        old_text: v.overlays[i as int].text,
        new_text: text,
    });
    assert(c.undone().overlays =~= v.overlays);
}

/// A new action leaves nothing to redo: moving, resizing or restyling an
/// overlay, placing one, or deleting the selected one empties the redo
/// history.
pub proof fn lemma_new_actions_discard_redo<F: Copy>(
    v: EditorState<F>,
    index: usize,
    position: PdfPosition<F>,
    old_width: F,
    new_width: F,
    font: FontId,
    size: F,
    empty: String,
)
    requires
        v.wf(),
        index < v.overlays.len(),
    ensures
        v.moved(index, position).redo.len() == 0,
        v.resized(index, old_width, new_width).redo.len() == 0,
        v.active is Some ==> v.font_changed(font).redo.len() == 0,
        v.active is Some ==> v.font_size_changed(size).redo.len() == 0,
        v.placed(v.overlays[index as int].page, position, None, empty).redo.len() == 0,
        !v.editing && v.active is Some ==> v.deleted().redo.len() == 0,
{
}

/// Selecting an overlay shows its font and size in the toolbar.
pub proof fn lemma_selection_syncs_toolbar<F: Copy>(v: EditorState<F>, index: usize)
    requires
        v.wf(),
        !v.editing,
        index < v.overlays.len(),
    ensures
        v.selected(index).active == Some(index),
        v.selected(index).font == v.overlays[index as int].font,
        v.selected(index).font_size == v.overlays[index as int].font_size,
{
}

} // verus!
