//! Undo/redo command model: each variant captures enough state to apply and
//! reverse one editing operation on the overlay list.

use vstd::prelude::*;

use crate::fonts::FontId;
use crate::overlay::{PdfPosition, TextOverlay};

verus! {

/// A reversible editing operation on the overlay list.
#[derive(Debug, Clone)]
pub enum Command<F> {
    PlaceOverlay { overlay: TextOverlay<F> },
    DeleteOverlay { overlay: TextOverlay<F>, index: usize },
    MoveOverlay { index: usize, from: PdfPosition<F>, to: PdfPosition<F> },
    EditText { index: usize, old_text: String, new_text: String },
    ChangeOverlayFont { index: usize, old_font: FontId, new_font: FontId },
    ChangeOverlayFontSize { index: usize, old_size: F, new_size: F },
    ResizeOverlay { index: usize, old_width: F, new_width: F },
}

impl<F: Copy> Command<F> {
    /// Whether applying to a list of `len` overlays stays in bounds.
    pub open spec fn can_apply(self, len: nat) -> bool {
        match self {
            Command::PlaceOverlay { .. } => true,
            Command::DeleteOverlay { index, .. } => index < len,
            Command::MoveOverlay { index, .. } => index < len,
            Command::EditText { index, .. } => index < len,
            Command::ChangeOverlayFont { index, .. } => index < len,
            Command::ChangeOverlayFontSize { index, .. } => index < len,
            Command::ResizeOverlay { index, .. } => index < len,
        }
    }

    /// Whether reversing on a list of `len` overlays stays in bounds.
    pub open spec fn can_reverse(self, len: nat) -> bool {
        match self {
            Command::PlaceOverlay { .. } => true,
            Command::DeleteOverlay { index, .. } => index <= len,
            Command::MoveOverlay { index, .. } => index < len,
            Command::EditText { index, .. } => index < len,
            Command::ChangeOverlayFont { index, .. } => index < len,
            Command::ChangeOverlayFontSize { index, .. } => index < len,
            Command::ResizeOverlay { index, .. } => index < len,
        }
    }

    /// The overlay list after applying this command to `s`.
    pub open spec fn applied(self, s: Seq<TextOverlay<F>>) -> Seq<TextOverlay<F>> {
        match self {
            Command::PlaceOverlay { overlay } => s.push(overlay),
            Command::DeleteOverlay { index, .. } => s.remove(index as int),
            Command::MoveOverlay { index, to, .. } => s.update(
                index as int,
                TextOverlay { position: to, ..s[index as int] },
            ),
            Command::EditText { index, new_text, .. } => s.update(
                index as int,
                TextOverlay { text: new_text, ..s[index as int] },
            ),
            Command::ChangeOverlayFont { index, new_font, .. } => s.update(
                index as int,
                TextOverlay { font: new_font, ..s[index as int] },
            ),
            Command::ChangeOverlayFontSize { index, new_size, .. } => s.update(
                index as int,
                TextOverlay { font_size: new_size, ..s[index as int] },
            ),
            Command::ResizeOverlay { index, new_width, .. } => s.update(
                index as int,
                TextOverlay { width: Some(new_width), ..s[index as int] },
            ),
        }
    }

    /// The overlay list after reversing this command on `s`.
    pub open spec fn reversed(self, s: Seq<TextOverlay<F>>) -> Seq<TextOverlay<F>> {
        match self {
            Command::PlaceOverlay { .. } => if s.len() > 0 {
                s.drop_last()
            } else {
                s
            },
            Command::DeleteOverlay { overlay, index } => s.insert(index as int, overlay),
            Command::MoveOverlay { index, from, .. } => s.update(
                index as int,
                TextOverlay { position: from, ..s[index as int] },
            ),
            Command::EditText { index, old_text, .. } => s.update(
                index as int,
                TextOverlay { text: old_text, ..s[index as int] },
            ),
            Command::ChangeOverlayFont { index, old_font, .. } => s.update(
                index as int,
                TextOverlay { font: old_font, ..s[index as int] },
            ),
            Command::ChangeOverlayFontSize { index, old_size, .. } => s.update(
                index as int,
                TextOverlay { font_size: old_size, ..s[index as int] },
            ),
            Command::ResizeOverlay { index, old_width, .. } => s.update(
                index as int,
                TextOverlay { width: Some(old_width), ..s[index as int] },
            ),
        }
    }

    /// Whether `s` is a list this command can have been recorded against: the
    /// state it was built from, before it was applied.
    pub open spec fn recorded_before(self, s: Seq<TextOverlay<F>>) -> bool {
        match self {
            Command::PlaceOverlay { .. } => true,
            Command::DeleteOverlay { overlay, index } => index < s.len() && s[index as int]
                == overlay,
            Command::MoveOverlay { index, from, .. } => index < s.len() && s[index as int].position
                == from,
            Command::EditText { index, old_text, .. } => index < s.len() && s[index as int].text
                == old_text,
            Command::ChangeOverlayFont { index, old_font, .. } => index < s.len()
                && s[index as int].font == old_font,
            Command::ChangeOverlayFontSize { index, old_size, .. } => index < s.len()
                && s[index as int].font_size == old_size,
            Command::ResizeOverlay { index, old_width, .. } => index < s.len()
                && s[index as int].width == Some(old_width),
        }
    }

    /// Whether `s` is a list this command leaves behind once applied.
    pub open spec fn recorded_after(self, s: Seq<TextOverlay<F>>) -> bool {
        match self {
            Command::PlaceOverlay { overlay } => s.len() > 0 && s.last() == overlay,
            Command::DeleteOverlay { index, .. } => index <= s.len(),
            Command::MoveOverlay { index, to, .. } => index < s.len() && s[index as int].position
                == to,
            Command::EditText { index, new_text, .. } => index < s.len() && s[index as int].text
                == new_text,
            Command::ChangeOverlayFont { index, new_font, .. } => index < s.len()
                && s[index as int].font == new_font,
            Command::ChangeOverlayFontSize { index, new_size, .. } => index < s.len()
                && s[index as int].font_size == new_size,
            Command::ResizeOverlay { index, new_width, .. } => index < s.len()
                && s[index as int].width == Some(new_width),
        }
    }

    /// Whether this command adds or removes an overlay (rather than changing
    /// one in place), so that indices into the list may shift.
    pub fn changes_overlay_count(&self) -> (r: bool)
        ensures
            r == (self is PlaceOverlay || self is DeleteOverlay),
    {
        match self {
            Command::PlaceOverlay { .. } | Command::DeleteOverlay { .. } => true,
            _ => false,
        }
    }

    /// Applies this command to the overlay list.
    pub fn apply(&self, overlays: &mut Vec<TextOverlay<F>>)
        requires
            self.can_apply(old(overlays)@.len()),
        ensures
            final(overlays)@ == self.applied(old(overlays)@),
    {
        match self {
            Command::PlaceOverlay { overlay } => overlays.push(overlay.duplicate()),
            Command::DeleteOverlay { index, .. } => {
                overlays.remove(*index);
            },
            Command::MoveOverlay { index, to, .. } => overlays[*index].position = *to,
            Command::EditText { index, new_text, .. } => overlays[*index].text = new_text.clone(),
            Command::ChangeOverlayFont { index, new_font, .. } => overlays[*index].font = *new_font,
            Command::ChangeOverlayFontSize { index, new_size, .. } => {
                overlays[*index].font_size = *new_size;
            },
            Command::ResizeOverlay { index, new_width, .. } => {
                overlays[*index].width = Some(*new_width);
            },
        }
    }

    /// Reverses this command, restoring the overlay list to its prior state.
    pub fn reverse(&self, overlays: &mut Vec<TextOverlay<F>>)
        requires
            self.can_reverse(old(overlays)@.len()),
        ensures
            final(overlays)@ == self.reversed(old(overlays)@),
    {
        match self {
            Command::PlaceOverlay { .. } => {
                overlays.pop();
            },
            Command::DeleteOverlay { overlay, index } => overlays.insert(*index, overlay.duplicate()),
            Command::MoveOverlay { index, from, .. } => overlays[*index].position = *from,
            Command::EditText { index, old_text, .. } => overlays[*index].text = old_text.clone(),
            Command::ChangeOverlayFont { index, old_font, .. } => overlays[*index].font = *old_font,
            Command::ChangeOverlayFontSize { index, old_size, .. } => {
                overlays[*index].font_size = *old_size;
            },
            Command::ResizeOverlay { index, old_width, .. } => {
                overlays[*index].width = Some(*old_width);
            },
        }
    }
}

/// Undo law: reversing a command on the list it produced restores the list it
/// was recorded against, and leaves a list it can be applied to again.
pub proof fn lemma_reverse_undoes_apply<F: Copy>(cmd: Command<F>, s: Seq<TextOverlay<F>>)
    requires
        cmd.recorded_before(s),
    ensures
        cmd.can_apply(s.len()),
        cmd.recorded_after(cmd.applied(s)),
        cmd.can_reverse(cmd.applied(s).len()),
        cmd.reversed(cmd.applied(s)) == s,
{
    match cmd {
        Command::PlaceOverlay { overlay } => {
            assert(s.push(overlay).drop_last() =~= s);
        },
        Command::DeleteOverlay { overlay, index } => {
            assert(s.remove(index as int).insert(index as int, overlay) =~= s);
        },
        _ => {
            assert(cmd.reversed(cmd.applied(s)) =~= s);
        },
    }
}

/// Redo law: applying a command to the list its reversal produced restores
/// the list it was reversed from, and leaves a list it can be reversed on again.
pub proof fn lemma_apply_redoes_reverse<F: Copy>(cmd: Command<F>, s: Seq<TextOverlay<F>>)
    requires
        cmd.recorded_after(s),
    ensures
        cmd.can_reverse(s.len()),
        cmd.recorded_before(cmd.reversed(s)),
        cmd.can_apply(cmd.reversed(s).len()),
        cmd.applied(cmd.reversed(s)) == s,
{
    match cmd {
        Command::PlaceOverlay { overlay } => {
            assert(s.drop_last().push(overlay) =~= s);
        },
        Command::DeleteOverlay { overlay, index } => {
            assert(s.insert(index as int, overlay).remove(index as int) =~= s);
        },
        _ => {
            assert(cmd.applied(cmd.reversed(s)) =~= s);
        },
    }
}

} // verus!
