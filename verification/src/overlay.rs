//! Text overlay data model: position, text content, font, font size and
//! optional wrapping box. Coordinates and sizes are in PDF points, held in the
//! scalar type `F` that the caller uses for measurements.

use vstd::prelude::*;

use crate::fonts::FontId;

verus! {

/// A position on a PDF page in PDF coordinate space (points, origin bottom-left).
#[derive(Debug, Clone, Copy, PartialEq)]
pub struct PdfPosition<F> {
    pub x: F,
    pub y: F,
}

/// A text overlay to be placed on a PDF page.
#[derive(Debug, Clone, PartialEq)]
pub struct TextOverlay<F> {
    pub page: u32,
    pub position: PdfPosition<F>,
    pub text: String,
    pub font: FontId,
    pub font_size: F,
    /// Wrap width in PDF points. `None` = single-line, `Some(w)` = multi-line with wrapping.
    pub width: Option<F>,
    /// Minimum box height in PDF points: the height of the box the user
    /// dragged out or resized to, only meaningful alongside `width`. The box
    /// always grows to hold its text, so this only adds room below the last
    /// line; the saved PDF is the same whatever it holds.
    pub min_height: Option<F>,
}

impl<F: Copy> TextOverlay<F> {
    /// A copy of this overlay equal to it in every field.
    pub fn duplicate(&self) -> (r: Self)
        ensures
            r == *self,
    {
        TextOverlay {
            page: self.page,
            position: self.position,
            text: self.text.clone(),
            font: self.font,
            font_size: self.font_size,
            width: self.width,
            min_height: self.min_height,
        }
    }
}

/// The dimensions of a wrapping overlay's box, in PDF points.
///
/// `min_height` is stored flat rather than as an `Option`: a resize always
/// produces a definite height, and `F`'s default (zero for the float types)
/// reads as "no more room than the text needs", as an absent minimum does.
#[derive(Debug, Clone, Copy, PartialEq)]
pub struct OverlayBox<F> {
    pub width: F,
    pub min_height: F,
}

impl<F: Copy> OverlayBox<F> {
    /// The box of `overlay` when an absent minimum height reads as `absent`:
    /// `None` for a single-line overlay, which has no box.
    pub open spec fn boxed(overlay: TextOverlay<F>, absent: F) -> Option<Self> {
        match overlay.width {
            Some(w) => Some(
                OverlayBox {
                    width: w,
                    min_height: match overlay.min_height {
                        Some(h) => h,
                        None => absent,
                    },
                },
            ),
            None => None,
        }
    }

    /// `overlay` with its box set to this one, every other field kept.
    pub open spec fn resized(self, overlay: TextOverlay<F>) -> TextOverlay<F> {
        TextOverlay { width: Some(self.width), min_height: Some(self.min_height), ..overlay }
    }

    /// Resize `overlay` to these dimensions.
    pub fn apply_to(&self, overlay: &mut TextOverlay<F>)
        ensures
            *final(overlay) == self.resized(*old(overlay)),
    {
        overlay.width = Some(self.width);
        overlay.min_height = Some(self.min_height);
    }
}

impl<F: Copy + Default> OverlayBox<F> {
    /// The box `overlay` currently occupies, or `None` for a single-line
    /// overlay, which has no box to resize. An absent minimum height reads as
    /// `F::default()`.
    pub fn of(overlay: &TextOverlay<F>) -> (r: Option<Self>)
        ensures
            exists|absent: F| r == Self::boxed(*overlay, absent),
            overlay.min_height matches Some(h) ==> r == Self::boxed(*overlay, h),
    {
        match overlay.width {
            Some(w) => {
                let min_height = match overlay.min_height {
                    Some(h) => h,
                    None => F::default(),
                };
                let r = Some(OverlayBox { width: w, min_height });
                assert(r == Self::boxed(*overlay, min_height));
                r
            },
            None => {
                assert(Self::boxed(*overlay, overlay.font_size) is None);
                None
            },
        }
    }
}

/// Resizing an overlay to a box and reading its box back gives that box,
/// whatever an absent minimum height would read as.
pub proof fn lemma_box_round_trip<F: Copy>(b: OverlayBox<F>, overlay: TextOverlay<F>, absent: F)
    ensures
        OverlayBox::boxed(b.resized(overlay), absent) == Some(b),
{
}

} // verus!
