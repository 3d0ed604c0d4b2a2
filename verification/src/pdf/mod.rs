//! PDF-side logic: the text encoding, re-editing metadata, writing and
//! reopening plans, and page rendering requests.

pub mod win_ansi;
pub mod metadata;
pub mod reedit;
pub mod writer;
pub mod renderer;
