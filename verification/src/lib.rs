//! Verified core of a PDF text-overlay editor: the WinAnsi text encoding,
//! overlay and undo models, the editing state machine and its history, font
//! registry and glyph widths, re-editing metadata, the planning logic behind
//! writing and reopening overlaid PDFs, the IPC protocol, keyboard
//! shortcuts, the messages shown after a save, and the order in which pages
//! and thumbnails are rendered.

pub mod text;
pub mod pdf;
pub mod fonts;
pub mod metrics;
pub mod overlay;
pub mod command;
pub mod editor;
pub mod ipc;
pub mod status;
pub mod shortcuts;
pub mod navigation;
pub mod surface;
pub mod render_queue;
