//! IPC protocol: the commands a remote client sends, their translation into
//! application messages with every precondition checked first, and the
//! response a command is answered with.
//!
//! Coordinates and sizes are held in the scalar type `F` of the overlays. The
//! geometry a command needs (the overlay under a click, whether a click lies
//! on its page, the width of a drag) is resolved by the caller's canvas and
//! arrives in the command itself.

use vstd::prelude::*;

use crate::fonts::{first_named, FontEntry, FontId, FontRegistry};
use crate::overlay::{PdfPosition, TextOverlay};

verus! {

/// Errors that can occur when translating an [`IpcCommand`] to a [`Message`].
#[derive(Debug, PartialEq, Eq)]
pub enum IpcError {
    /// The command requires a loaded document but none is present.
    NoDocument,
    /// The overlay index is out of range for the current document.
    IndexOutOfRange,
    /// The page number is out of range for the current document.
    PageOutOfRange,
    /// The command edits the overlay being worked on, but none is active.
    NoActiveOverlay,
    /// The targeted overlay has no width and cannot be resized.
    NotResizable,
    /// The font name could not be resolved in the registry.
    UnknownFont(String),
    /// There is no recorded command left to undo.
    NothingToUndo,
    /// There is no undone command left to redo.
    NothingToRedo,
    /// A redo was asked for while an overlay's text is being edited: redo
    /// commits the edit first, and a commit that records a change empties the
    /// commands there are to redo.
    EditSessionOpen,
}

/// The sentence for each IPC error.
pub open spec fn ipc_error_message(e: IpcError) -> Seq<char> {
    match e {
        IpcError::NoDocument => "no document is loaded"@,
        IpcError::IndexOutOfRange => "overlay index is out of range"@,
        IpcError::PageOutOfRange => "page number is out of range"@,
        IpcError::NoActiveOverlay => "no overlay is active"@,
        IpcError::NotResizable => "overlay is not resizable (no width set)"@,
        IpcError::UnknownFont(name) => "unknown font: "@ + name@,
        IpcError::NothingToUndo => "nothing to undo"@,
        IpcError::NothingToRedo => "nothing to redo"@,
        IpcError::EditSessionOpen => "an edit session is open; commit it before redoing"@,
    }
}

impl IpcError {
    /// A sentence describing the error, as a client is told it.
    pub fn message(&self) -> (r: String)
        ensures
            r@ == ipc_error_message(*self),
    {
        let mut s = String::new();
        match self {
            IpcError::NoDocument => s.append("no document is loaded"),
            IpcError::IndexOutOfRange => s.append("overlay index is out of range"),
            IpcError::PageOutOfRange => s.append("page number is out of range"),
            IpcError::NoActiveOverlay => s.append("no overlay is active"),
            IpcError::NotResizable => s.append("overlay is not resizable (no width set)"),
            IpcError::UnknownFont(name) => {
                s.append("unknown font: ");
                s.append(name.as_str());
            },
            IpcError::NothingToUndo => s.append("nothing to undo"),
            IpcError::NothingToRedo => s.append("nothing to redo"),
            IpcError::EditSessionOpen => s.append(
                "an edit session is open; commit it before redoing",
            ),
        }
        s
    }
}

/// What command translation reads of the loaded document.
pub struct DocumentFacts<'a, F> {
    /// Number of pages in the document.
    pub page_count: u32,
    /// The document's overlays, in order.
    pub overlays: &'a [TextOverlay<F>],
}

/// Read-only view of the application state that command translation consults
/// to check a command's preconditions before any message is dispatched.
pub struct CommandContext<'a, F> {
    /// The loaded document, if any.
    pub document: Option<DocumentFacts<'a, F>>,
    /// Index of the overlay currently selected or being edited.
    pub active_overlay: Option<usize>,
    /// Whether an overlay's text is currently being edited.
    pub editing: bool,
    /// Number of commands available to undo.
    pub undo_depth: usize,
    /// Number of commands available to redo.
    pub redo_depth: usize,
}

impl<'a, F> CommandContext<'a, F> {
    /// A context with no document, nothing selected and empty histories.
    pub fn empty() -> (r: Self)
        ensures
            r.document is None,
            r.active_overlay is None,
            !r.editing,
            r.undo_depth == 0,
            r.redo_depth == 0,
    {
        CommandContext {
            document: None,
            active_overlay: None,
            editing: false,
            undo_depth: 0,
            redo_depth: 0,
        }
    }

    /// A context with `document` loaded, nothing selected and empty histories.
    pub fn with_document(document: DocumentFacts<'a, F>) -> (r: Self)
        ensures
            r.document == Some(document),
            r.active_overlay is None,
            !r.editing,
            r.undo_depth == 0,
            r.redo_depth == 0,
    {
        CommandContext {
            document: Some(document),
            active_overlay: None,
            editing: false,
            undo_depth: 0,
            redo_depth: 0,
        }
    }

    /// Why a command that needs a document cannot run, if it cannot.
    pub open spec fn document_error(self) -> Option<IpcError> {
        if self.document is None {
            Some(IpcError::NoDocument)
        } else {
            None
        }
    }

    /// Why a command on `page` cannot run, if it cannot.
    pub open spec fn page_error(self, page: u32) -> Option<IpcError> {
        match self.document {
            None => Some(IpcError::NoDocument),
            Some(doc) => if page < 1 || page > doc.page_count {
                Some(IpcError::PageOutOfRange)
            } else {
                None
            },
        }
    }

    /// Why a command on overlay `index` cannot run, if it cannot.
    pub open spec fn overlay_error(self, index: usize) -> Option<IpcError> {
        match self.document {
            None => Some(IpcError::NoDocument),
            Some(doc) => if index >= doc.overlays@.len() {
                Some(IpcError::IndexOutOfRange)
            } else {
                None
            },
        }
    }

    /// Why a command on the active overlay cannot run, if it cannot.
    pub open spec fn active_error(self) -> Option<IpcError> {
        match self.document {
            None => Some(IpcError::NoDocument),
            Some(doc) => match self.active_overlay {
                Some(index) => if index < doc.overlays@.len() {
                    None
                } else {
                    Some(IpcError::NoActiveOverlay)
                },
                None => Some(IpcError::NoActiveOverlay),
            },
        }
    }

    fn require_document(&self) -> (r: Result<(), IpcError>)
        ensures
            r is Err <==> self.document_error() is Some,
            r matches Err(e) ==> self.document_error() == Some(e),
    {
        match &self.document {
            Some(_) => Ok(()),
            None => Err(IpcError::NoDocument),
        }
    }

    fn require_page(&self, page: u32) -> (r: Result<(), IpcError>)
        ensures
            r is Err <==> self.page_error(page) is Some,
            r matches Err(e) ==> self.page_error(page) == Some(e),
    {
        match &self.document {
            None => Err(IpcError::NoDocument),
            Some(doc) => if page < 1 || page > doc.page_count {
                Err(IpcError::PageOutOfRange)
            } else {
                Ok(())
            },
        }
    }

    fn require_overlay(&self, index: usize) -> (r: Result<(), IpcError>)
        ensures
            r is Err <==> self.overlay_error(index) is Some,
            r matches Err(e) ==> self.overlay_error(index) == Some(e),
    {
        match &self.document {
            None => Err(IpcError::NoDocument),
            Some(doc) => if index >= doc.overlays.len() {
                Err(IpcError::IndexOutOfRange)
            } else {
                Ok(())
            },
        }
    }

    fn require_active_overlay(&self) -> (r: Result<(), IpcError>)
        ensures
            r is Err <==> self.active_error() is Some,
            r matches Err(e) ==> self.active_error() == Some(e),
    {
        match &self.document {
            None => Err(IpcError::NoDocument),
            Some(doc) => match self.active_overlay {
                Some(index) => if index < doc.overlays.len() {
                    Ok(())
                } else {
                    Err(IpcError::NoActiveOverlay)
                },
                None => Err(IpcError::NoActiveOverlay),
            },
        }
    }
}

/// A command received over the IPC socket, its geometry resolved.
#[derive(Debug, Clone)]
pub enum IpcCommand<F> {
    Open { path: String },
    /// Write the document with its overlays to `path`, as Save As does
    /// without its dialog.
    Save { path: String },
    /// Place an overlay at a PDF position, unconditionally, never selecting an
    /// existing overlay.
    Click { page: u32, x: F, y: F },
    /// Click at a PDF position the way the mouse does. `hit` is the overlay
    /// under the point and `on_page` whether the point lies on the page (a
    /// page of unknown size counts as containing it), as the canvas reports.
    ClickAt { page: u32, x: F, y: F, hit: Option<usize>, on_page: bool },
    Type { text: String },
    Select { index: usize },
    Edit { index: usize },
    Deselect,
    ZoomIn,
    ZoomOut,
    ZoomReset,
    ZoomFitWidth,
    Font { family: String },
    FontSize { size: F },
    /// A drag from `(x, y)` whose horizontal extent is `width`.
    Drag { page: u32, x: F, y: F, width: F },
    Resize { index: usize, width: F },
    Move { index: usize, x: F, y: F },
    Undo,
    Redo,
    WaitReady,
}

/// The application messages an IPC command translates into.
#[derive(Debug, Clone)]
pub enum Message<F> {
    FileOpened(String),
    SaveDestinationChosen(String),
    PlaceOverlay { page: u32, position: PdfPosition<F>, width: Option<F> },
    CommitText,
    UpdateOverlayText(String),
    SelectOverlay(usize),
    EditOverlay(usize),
    DeselectOverlay,
    ZoomIn,
    ZoomOut,
    ZoomReset,
    ZoomFitWidth,
    ChangeFont(FontId),
    ChangeFontSize(F),
    ResizeOverlay { index: usize, old_width: F, new_width: F },
    MoveOverlay(usize, PdfPosition<F>),
    Undo,
    Redo,
    Noop,
}

/// What a left click at a PDF position does: a click while editing commits
/// first, a click on an overlay selects it, a click on blank page area places
/// a new overlay, and a click off the page deselects.
pub open spec fn click_outcome<F>(
    editing: bool,
    page: u32,
    x: F,
    y: F,
    hit: Option<usize>,
    on_page: bool,
) -> Message<F> {
    if editing {
        Message::CommitText
    } else if hit is Some {
        Message::SelectOverlay(hit->0)
    } else if on_page {
        Message::PlaceOverlay { page, position: PdfPosition { x, y }, width: None }
    } else {
        Message::DeselectOverlay
    }
}

/// `Err(e)` when a precondition check failed with `e`, else `Ok(m)`.
pub open spec fn checked<F>(error: Option<IpcError>, m: Message<F>) -> Result<Message<F>, IpcError> {
    match error {
        Some(e) => Err(e),
        None => Ok(m),
    }
}

/// Decide what a left click does; see [`click_outcome`].
pub fn click_at_message<F: Copy>(
    editing: bool,
    page: u32,
    x: F,
    y: F,
    hit: Option<usize>,
    on_page: bool,
) -> (r: Message<F>)
    ensures
        r == click_outcome(editing, page, x, y, hit, on_page),
{
    if editing {
        return Message::CommitText;
    }
    if let Some(index) = hit {
        return Message::SelectOverlay(index);
    }
    if on_page {
        Message::PlaceOverlay { page, position: PdfPosition { x, y }, width: None }
    } else {
        Message::DeselectOverlay
    }
}

impl<F: Copy> IpcCommand<F> {
    /// The result of translating this command under `ctx`, with the fonts of
    /// the registry `fonts`: the first failed precondition, or the message.
    pub open spec fn translated(self, ctx: CommandContext<F>, fonts: Seq<FontEntry>) -> Result<
        Message<F>,
        IpcError,
    > {
        match self {
            IpcCommand::Open { path } => Ok(Message::FileOpened(path)),
            IpcCommand::Save { path } => checked(
                ctx.document_error(),
                Message::SaveDestinationChosen(path),
            ),
            IpcCommand::Click { page, x, y } => checked(
                ctx.page_error(page),
                Message::PlaceOverlay { page, position: PdfPosition { x, y }, width: None },
            ),
            IpcCommand::ClickAt { page, x, y, hit, on_page } => checked(
                ctx.page_error(page),
                click_outcome(ctx.editing, page, x, y, hit, on_page),
            ),
            IpcCommand::Type { text } => checked(ctx.active_error(), Message::UpdateOverlayText(text)),
            IpcCommand::Select { index } => checked(
                ctx.overlay_error(index),
                Message::SelectOverlay(index),
            ),
            IpcCommand::Edit { index } => checked(ctx.overlay_error(index), Message::EditOverlay(index)),
            IpcCommand::Deselect => Ok(Message::DeselectOverlay),
            IpcCommand::ZoomIn => Ok(Message::ZoomIn),
            IpcCommand::ZoomOut => Ok(Message::ZoomOut),
            IpcCommand::ZoomReset => Ok(Message::ZoomReset),
            IpcCommand::ZoomFitWidth => checked(ctx.document_error(), Message::ZoomFitWidth),
            IpcCommand::Font { family } => if ctx.document is None {
                Err(IpcError::NoDocument)
            } else {
                match first_named(fonts, family@) {
                    Some(i) => Ok(Message::ChangeFont(fonts[i].id)),
                    None => Err(IpcError::UnknownFont(family)),
                }
            },
            IpcCommand::FontSize { size } => checked(ctx.document_error(), Message::ChangeFontSize(size)),
            IpcCommand::Drag { page, x, y, width } => checked(
                ctx.page_error(page),
                Message::PlaceOverlay { page, position: PdfPosition { x, y }, width: Some(width) },
            ),
            IpcCommand::Resize { index, width } => if ctx.overlay_error(index) is Some {
                Err(ctx.overlay_error(index)->0)
            } else {
                match ctx.document->0.overlays@[index as int].width {
                    Some(old_width) => Ok(
                        Message::ResizeOverlay { index, old_width, new_width: width },
                    ),
                    None => Err(IpcError::NotResizable),
                }
            },
            IpcCommand::Move { index, x, y } => checked(
                ctx.overlay_error(index),
                Message::MoveOverlay(index, PdfPosition { x, y }),
            ),
            IpcCommand::Undo => if ctx.document is None {
                Err(IpcError::NoDocument)
            } else if ctx.undo_depth == 0 && !ctx.editing {
                Err(IpcError::NothingToUndo)
            } else {
                Ok(Message::Undo)
            },
            IpcCommand::Redo => if ctx.document is None {
                Err(IpcError::NoDocument)
            } else if ctx.redo_depth == 0 {
                Err(IpcError::NothingToRedo)
            } else if ctx.editing {
                Err(IpcError::EditSessionOpen)
            } else {
                Ok(Message::Redo)
            },
            IpcCommand::WaitReady => Ok(Message::Noop),
        }
    }

    /// Translate this command into the corresponding application [`Message`].
    ///
    /// Every command whose handler would silently do nothing under the current
    /// state fails here instead, so the reply reports whether the action
    /// actually happened rather than merely that a message could be built.
    pub fn to_message(self, ctx: &CommandContext<F>, registry: &FontRegistry) -> (r: Result<
        Message<F>,
        IpcError,
    >)
        ensures
            r == self.translated(*ctx, registry@),
    {
        match self {
            IpcCommand::Open { path } => Ok(Message::FileOpened(path)),
            IpcCommand::Save { path } => {
                ctx.require_document()?;
                Ok(Message::SaveDestinationChosen(path))
            },
            IpcCommand::Click { page, x, y } => {
                ctx.require_page(page)?;
                Ok(Message::PlaceOverlay { page, position: PdfPosition { x, y }, width: None })
            },
            IpcCommand::ClickAt { page, x, y, hit, on_page } => {
                ctx.require_page(page)?;
                Ok(click_at_message(ctx.editing, page, x, y, hit, on_page))
            },
            IpcCommand::Type { text } => {
                ctx.require_active_overlay()?;
                Ok(Message::UpdateOverlayText(text))
            },
            IpcCommand::Select { index } => {
                ctx.require_overlay(index)?;
                Ok(Message::SelectOverlay(index))
            },
            IpcCommand::Edit { index } => {
                ctx.require_overlay(index)?;
                Ok(Message::EditOverlay(index))
            },
            IpcCommand::Deselect => Ok(Message::DeselectOverlay),
            IpcCommand::ZoomIn => Ok(Message::ZoomIn),
            IpcCommand::ZoomOut => Ok(Message::ZoomOut),
            IpcCommand::ZoomReset => Ok(Message::ZoomReset),
            IpcCommand::ZoomFitWidth => {
                ctx.require_document()?;
                Ok(Message::ZoomFitWidth)
            },
            IpcCommand::Font { family } => {
                ctx.require_document()?;
                match registry.find_by_name(family.as_str()) {
                    Some(id) => Ok(Message::ChangeFont(id)),
                    None => Err(IpcError::UnknownFont(family)),
                }
            },
            IpcCommand::FontSize { size } => {
                ctx.require_document()?;
                Ok(Message::ChangeFontSize(size))
            },
            IpcCommand::Drag { page, x, y, width } => {
                ctx.require_page(page)?;
                Ok(Message::PlaceOverlay { page, position: PdfPosition { x, y }, width: Some(width) })
            },
            IpcCommand::Resize { index, width } => {
                ctx.require_overlay(index)?;
                let doc = ctx.document.as_ref().unwrap();
                match doc.overlays[index].width {
                    Some(old_width) => Ok(Message::ResizeOverlay { index, old_width, new_width: width }),
                    None => Err(IpcError::NotResizable),
                }
            },
            IpcCommand::Move { index, x, y } => {
                ctx.require_overlay(index)?;
                Ok(Message::MoveOverlay(index, PdfPosition { x, y }))
            },
            IpcCommand::Undo => {
                ctx.require_document()?;
                // An in-progress edit is itself undoable: undo cancels the
                // session before it reaches the command history.
                if ctx.undo_depth == 0 && !ctx.editing {
                    return Err(IpcError::NothingToUndo);
                }
                Ok(Message::Undo)
            },
            IpcCommand::Redo => {
                ctx.require_document()?;
                if ctx.redo_depth == 0 {
                    return Err(IpcError::NothingToRedo);
                }
                // Redo commits an open edit first, which may leave nothing to
                // redo; refuse before anything changes.
                if ctx.editing {
                    return Err(IpcError::EditSessionOpen);
                }
                Ok(Message::Redo)
            },
            IpcCommand::WaitReady => Ok(Message::Noop),
        }
    }
}

/// Response sent from the app back to the IPC client.
#[derive(Debug, Clone)]
pub struct IpcResponse {
    pub ok: bool,
    pub error: Option<String>,
    /// Something the client should know although the command succeeded.
    pub warning: Option<String>,
}

impl IpcResponse {
    /// The response to a command that was carried out.
    pub fn success() -> (r: Self)
        ensures
            r.ok,
            r.error is None,
            r.warning is None,
    {
        IpcResponse { ok: true, error: None, warning: None }
    }

    /// The response to a command that failed with `error`.
    pub fn failure(error: String) -> (r: Self)
        ensures
            !r.ok,
            r.error == Some(error),
            r.warning is None,
    {
        IpcResponse { ok: false, error: Some(error), warning: None }
    }

    /// The response to a command whose translation was refused with `e`.
    pub fn refused(e: &IpcError) -> (r: Self)
        ensures
            !r.ok,
            r.error matches Some(s) && s@ == ipc_error_message(*e),
            r.warning is None,
    {
        IpcResponse::failure(e.message())
    }

    /// Fold what the command's handler recorded into the response it would
    /// otherwise get: a recorded error turns it into that failure; otherwise a
    /// recorded warning is attached.
    pub fn with_outcome(self, error: Option<String>, warning: Option<String>) -> (r: Self)
        ensures
            error is Some ==> r == (IpcResponse { ok: false, error, warning: None }),
            error is None && warning is Some ==> r == (IpcResponse { warning, ..self }),
            error is None && warning is None ==> r == self,
    {
        match error {
            Some(e) => IpcResponse::failure(e),
            None => match warning {
                Some(w) => IpcResponse { ok: self.ok, error: self.error, warning: Some(w) },
                None => self,
            },
        }
    }
}

} // verus!
