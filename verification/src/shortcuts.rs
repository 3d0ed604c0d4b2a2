//! Keyboard shortcuts: which key presses, with which modifiers, trigger which
//! editor action.

use vstd::prelude::*;

use crate::text::str_eq;

verus! {

/// The named (non-character) keys the editor reacts to.
#[derive(Debug, Clone, Copy, PartialEq, Eq, Structural)]
pub enum NamedKey {
    Delete,
    Escape,
    Enter,
    PageUp,
    PageDown,
    F9,
    ArrowUp,
    ArrowDown,
    /// Any other named key.
    Other,
}

/// A key press, as the windowing toolkit reports it.
#[derive(Debug, Clone)]
pub enum Key {
    Named(NamedKey),
    /// A key producing this text.
    Character(String),
    Unidentified,
}

/// The modifier keys held during a key press.
#[derive(Debug, Clone, Copy, PartialEq, Eq, Structural)]
pub struct Modifiers {
    pub shift: bool,
    /// The command modifier: Control.
    pub control: bool,
    pub alt: bool,
    pub logo: bool,
}

impl Modifiers {
    /// No modifier held.
    pub fn empty() -> (r: Self)
        ensures
            r.is_empty_spec(),
    {
        Modifiers { shift: false, control: false, alt: false, logo: false }
    }

    /// Whether no modifier is held.
    pub open spec fn is_empty_spec(self) -> bool {
        !self.shift && !self.control && !self.alt && !self.logo
    }

    /// Whether no modifier is held.
    pub fn is_empty(&self) -> (r: bool)
        ensures
            r == self.is_empty_spec(),
    {
        !self.shift && !self.control && !self.alt && !self.logo
    }
}

/// The editor actions a key press can trigger.
#[derive(Debug, Clone, Copy, PartialEq, Eq, Structural)]
pub enum Shortcut {
    DeleteOverlay,
    DeselectOverlay,
    PreviousPage,
    NextPage,
    ToggleSidebar,
    /// An arrow key that steps the font size when its input has the focus:
    /// up (`true`) or down.
    FontSizeArrowPressed(bool),
    OpenFile,
    Save,
    SaveAs,
    Undo,
    Redo,
    ZoomIn,
    ZoomOut,
    ZoomFitWidth,
}

/// The shortcut of a named key.
pub open spec fn named_shortcut(key: NamedKey, m: Modifiers) -> Option<Shortcut> {
    let command = m.control;
    let shift = m.shift;
    if !command && !shift {
        match key {
            NamedKey::Delete => Some(Shortcut::DeleteOverlay),
            NamedKey::Escape => Some(Shortcut::DeselectOverlay),
            NamedKey::PageUp => Some(Shortcut::PreviousPage),
            NamedKey::PageDown => Some(Shortcut::NextPage),
            NamedKey::F9 => Some(Shortcut::ToggleSidebar),
            NamedKey::ArrowUp => if m.is_empty_spec() {
                Some(Shortcut::FontSizeArrowPressed(true))
            } else {
                None
            },
            NamedKey::ArrowDown => if m.is_empty_spec() {
                Some(Shortcut::FontSizeArrowPressed(false))
            } else {
                None
            },
            _ => None,
        }
    } else if command && !shift && key == NamedKey::Enter {
        // Ctrl+Enter commits a multi-line edit as Escape does.
        Some(Shortcut::DeselectOverlay)
    } else {
        None
    }
}

/// The shortcut of a character key.
pub open spec fn character_shortcut(c: Seq<char>, m: Modifiers) -> Option<Shortcut> {
    let command = m.control;
    let shift = m.shift;
    if !command {
        None
    } else if c == "o"@ && !shift {
        Some(Shortcut::OpenFile)
    } else if c == "s"@ && !shift {
        Some(Shortcut::Save)
    } else if (c == "s"@ && shift) || c == "S"@ {
        Some(Shortcut::SaveAs)
    } else if c == "z"@ && !shift {
        Some(Shortcut::Undo)
    } else if (c == "z"@ && shift) || c == "Z"@ {
        Some(Shortcut::Redo)
    } else if c == "+"@ || c == "="@ {
        Some(Shortcut::ZoomIn)
    } else if c == "-"@ && !shift {
        Some(Shortcut::ZoomOut)
    } else if c == "0"@ && !shift {
        Some(Shortcut::ZoomFitWidth)
    } else {
        None
    }
}

/// The shortcut a key press triggers, if any.
pub open spec fn key_shortcut(key: Key, m: Modifiers) -> Option<Shortcut> {
    match key {
        Key::Named(n) => named_shortcut(n, m),
        Key::Character(c) => character_shortcut(c@, m),
        Key::Unidentified => None,
    }
}

/// Map a key press to the editor action it triggers.
pub fn key_to_message(key: &Key, modifiers: Modifiers) -> (r: Option<Shortcut>)
    ensures
        r == key_shortcut(*key, modifiers),
{
    let command = modifiers.control;
    let shift = modifiers.shift;
    match key {
        Key::Named(named) => {
            if !command && !shift {
                match named {
                    NamedKey::Delete => Some(Shortcut::DeleteOverlay),
                    NamedKey::Escape => Some(Shortcut::DeselectOverlay),
                    NamedKey::PageUp => Some(Shortcut::PreviousPage),
                    NamedKey::PageDown => Some(Shortcut::NextPage),
                    NamedKey::F9 => Some(Shortcut::ToggleSidebar),
                    NamedKey::ArrowUp => if modifiers.is_empty() {
                        Some(Shortcut::FontSizeArrowPressed(true))
                    } else {
                        None
                    },
                    NamedKey::ArrowDown => if modifiers.is_empty() {
                        Some(Shortcut::FontSizeArrowPressed(false))
                    } else {
                        None
                    },
                    _ => None,
                }
            } else if command && !shift && *named == NamedKey::Enter {
                Some(Shortcut::DeselectOverlay)
            } else {
                None
            }
        },
        Key::Character(c) => {
            let s = c.as_str();
            if !command {
                None
            } else if str_eq(s, "o") && !shift {
                Some(Shortcut::OpenFile)
            } else if str_eq(s, "s") && !shift {
                Some(Shortcut::Save)
            } else if (str_eq(s, "s") && shift) || str_eq(s, "S") {
                Some(Shortcut::SaveAs)
            } else if str_eq(s, "z") && !shift {
                Some(Shortcut::Undo)
            } else if (str_eq(s, "z") && shift) || str_eq(s, "Z") {
                Some(Shortcut::Redo)
            } else if str_eq(s, "+") || str_eq(s, "=") {
                Some(Shortcut::ZoomIn)
            } else if str_eq(s, "-") && !shift {
                Some(Shortcut::ZoomOut)
            } else if str_eq(s, "0") && !shift {
                Some(Shortcut::ZoomFitWidth)
            } else {
                None
            }
        },
        Key::Unidentified => None,
    }
}

/// What an arrow key press resolves to once the toolkit has said whether the
/// font-size input has the focus: a step up (`true`) or down when it has,
/// nothing otherwise.
pub fn arrow_key_result(focused: bool, increment: bool) -> (r: Option<bool>)
    ensures
        r == (if focused {
            Some(increment)
        } else {
            None
        }),
{
    if focused {
        Some(increment)
    } else {
        None
    }
}

/// The shortcut table the editor documents. With neither Control nor Shift
/// held, Delete deletes the selected overlay, Escape deselects it, Page Up
/// and Page Down go to the previous and the next page, and F9 shows or hides
/// the thumbnail sidebar. With Control, O opens a file, S saves, Z undoes,
/// Plus zooms in and Minus zooms out; with Control and Shift, S saves under
/// a new name and Z redoes. Keys pressed without Control type text rather
/// than trigger a command.
pub proof fn lemma_documented_shortcuts(m: Modifiers, c: String)
    ensures
        !m.control && !m.shift ==> {
            &&& key_shortcut(Key::Named(NamedKey::Delete), m) == Some(Shortcut::DeleteOverlay)
            &&& key_shortcut(Key::Named(NamedKey::Escape), m) == Some(Shortcut::DeselectOverlay)
            &&& key_shortcut(Key::Named(NamedKey::PageUp), m) == Some(Shortcut::PreviousPage)
            &&& key_shortcut(Key::Named(NamedKey::PageDown), m) == Some(Shortcut::NextPage)
            &&& key_shortcut(Key::Named(NamedKey::F9), m) == Some(Shortcut::ToggleSidebar)
        },
        m.control && !m.shift ==> {
            &&& (c@ == "o"@ ==> key_shortcut(Key::Character(c), m) == Some(Shortcut::OpenFile))
            &&& (c@ == "s"@ ==> key_shortcut(Key::Character(c), m) == Some(Shortcut::Save))
            &&& (c@ == "z"@ ==> key_shortcut(Key::Character(c), m) == Some(Shortcut::Undo))
            &&& (c@ == "-"@ ==> key_shortcut(Key::Character(c), m) == Some(Shortcut::ZoomOut))
        },
        m.control ==> (c@ == "+"@ ==> key_shortcut(Key::Character(c), m) == Some(Shortcut::ZoomIn)),
        m.control && m.shift ==> {
            &&& (c@ == "s"@ || c@ == "S"@ ==> key_shortcut(Key::Character(c), m) == Some(
                Shortcut::SaveAs,
            ))
            &&& (c@ == "z"@ || c@ == "Z"@ ==> key_shortcut(Key::Character(c), m) == Some(
                Shortcut::Redo,
            ))
        },
        !m.control ==> key_shortcut(Key::Character(c), m) is None,
{
    reveal_strlit("o");
    reveal_strlit("s");
    reveal_strlit("S");
    reveal_strlit("z");
    reveal_strlit("Z");
    reveal_strlit("+");
    reveal_strlit("=");
    reveal_strlit("-");
    reveal_strlit("0");
    assert("o"@.len() == 1 && "o"@[0] == 'o');
    assert("s"@.len() == 1 && "s"@[0] == 's');
    assert("S"@.len() == 1 && "S"@[0] == 'S');
    assert("z"@.len() == 1 && "z"@[0] == 'z');
    assert("Z"@.len() == 1 && "Z"@[0] == 'Z');
    assert("+"@.len() == 1 && "+"@[0] == '+');
    assert("="@.len() == 1 && "="@[0] == '=');
    assert("-"@.len() == 1 && "-"@[0] == '-');
    assert("0"@.len() == 1 && "0"@[0] == '0');
}

} // verus!
