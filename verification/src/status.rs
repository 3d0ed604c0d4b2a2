//! What the editor tells the user, and an IPC client, after a save: where it
//! went, and which characters the PDF text encoding could not represent and
//! wrote as `?`. Each such character is named with its code point; a control
//! character, which would show nothing or break the line, by its code point
//! alone.

use vstd::prelude::*;

use crate::pdf::writer::SaveReport;
use crate::text::{decimal, hex4, hex_digits, push_char, push_decimal, push_hex4, push_hex_digits};

verus! {

/// How many substituted characters a message names before summarising the
/// rest as a count.
pub const LISTED_SUBSTITUTIONS: usize = 5;

/// Whether `c` is a control character (C0, DEL or C1), which a message must
/// never carry raw.
pub open spec fn is_control_char(c: char) -> bool {
    (c as u32) < 0x20 || (0x7f <= (c as u32) && (c as u32) <= 0x9f)
}

/// `U+` and the code point of `c` in upper-case hexadecimal, at least four
/// digits wide.
pub open spec fn code_point(c: char) -> Seq<char> {
    "U+"@ + if (c as u32) < 0x10000 {
        hex4(c as int)
    } else {
        hex_digits(c as nat)
    }
}

/// How a message names one substituted character: quoted and with its code
/// point, or by its code point alone when it is a control character.
pub open spec fn char_description(c: char) -> Seq<char> {
    if is_control_char(c) {
        "("@ + code_point(c) + ")"@
    } else {
        "'"@ + seq![c] + "' ("@ + code_point(c) + ")"@
    }
}

/// The descriptions of `cs`, separated by commas.
pub open spec fn joined_descriptions(cs: Seq<char>) -> Seq<char>
    decreases cs.len(),
{
    if cs.len() == 0 {
        Seq::empty()
    } else if cs.len() == 1 {
        char_description(cs[0])
    } else {
        joined_descriptions(cs.drop_last()) + ", "@ + char_description(cs.last())
    }
}

/// The first few of `cs` described, and how many more there were.
pub open spec fn substitution_list(cs: Seq<char>) -> Seq<char> {
    if cs.len() <= LISTED_SUBSTITUTIONS {
        joined_descriptions(cs)
    } else {
        joined_descriptions(cs.take(LISTED_SUBSTITUTIONS as int)) + " and "@ + decimal(
            (cs.len() - LISTED_SUBSTITUTIONS) as nat,
        ) + " more"@
    }
}

/// The warning for a save that wrote the characters `cs` as `?`.
pub open spec fn substitution_warning_text(cs: Seq<char>) -> Seq<char> {
    "replaced with '?': "@ + substitution_list(cs)
}

/// The status line for a save to the file named `file` that wrote the
/// characters `cs` as `?`.
pub open spec fn saved_status(file: Seq<char>, cs: Seq<char>) -> Seq<char> {
    if cs.len() == 0 {
        "Saved to "@ + file
    } else {
        "Saved to "@ + file + " \u{2014} "@ + substitution_warning_text(cs)
    }
}

/// Appends the code point of `c`; see [`code_point`].
pub fn push_code_point(s: &mut String, c: char)
    ensures
        final(s)@ == old(s)@ + code_point(c),
{
    s.append("U+");
    let v: u32 = c as u32;
    if v < 0x10000 {
        push_hex4(s, v as u16);
    } else {
        push_hex_digits(s, v);
    }
    assert(final(s)@ =~= old(s)@ + code_point(c));
}

/// Appends the description of `c`; see [`char_description`].
pub fn push_char_description(s: &mut String, c: char)
    ensures
        final(s)@ == old(s)@ + char_description(c),
{
    let v: u32 = c as u32;
    if v < 0x20 || (0x7f <= v && v <= 0x9f) {
        s.append("(");
        push_code_point(s, c);
        s.append(")");
    } else {
        s.append("'");
        push_char(s, c);
        s.append("' (");
        push_code_point(s, c);
        s.append(")");
    }
    assert(final(s)@ =~= old(s)@ + char_description(c));
}

/// Appends the descriptions of the first `n` characters of `cs`.
fn push_descriptions(s: &mut String, cs: &[char], n: usize)
    requires
        n <= cs@.len(),
    ensures
        final(s)@ == old(s)@ + joined_descriptions(cs@.take(n as int)),
{
    let mut i: usize = 0;
    assert(cs@.take(0) =~= Seq::<char>::empty());
    assert(s@ =~= old(s)@ + joined_descriptions(cs@.take(0)));
    while i < n
        invariant
            i <= n,
            n <= cs@.len(),
            s@ == old(s)@ + joined_descriptions(cs@.take(i as int)),
        decreases n - i,
    {
        let ghost before = s@;
        if i > 0 {
            s.append(", ");
        }
        push_char_description(s, cs[i]);
        assert(cs@.take(i + 1).drop_last() =~= cs@.take(i as int));
        assert(cs@.take(i + 1).last() == cs@[i as int]);
        if i == 0 {
            assert(s@ =~= old(s)@ + joined_descriptions(cs@.take(1)));
        } else {
            assert(s@ =~= old(s)@ + joined_descriptions(cs@.take(i + 1)));
        }
        i = i + 1;
    }
}

/// Appends the substitution list of `cs`; see [`substitution_list`].
fn push_substitution_list(s: &mut String, cs: &[char])
    ensures
        final(s)@ == old(s)@ + substitution_list(cs@),
{
    if cs.len() <= LISTED_SUBSTITUTIONS {
        push_descriptions(s, cs, cs.len());
        assert(cs@.take(cs@.len() as int) =~= cs@);
    } else {
        push_descriptions(s, cs, LISTED_SUBSTITUTIONS);
        s.append(" and ");
        push_decimal(s, (cs.len() - LISTED_SUBSTITUTIONS) as u64);
        s.append(" more");
    }
    assert(final(s)@ =~= old(s)@ + substitution_list(cs@));
}

/// The warning for a save that wrote `unencodable` as `?`, or `None` when
/// every character was encoded.
pub fn substitution_warning(unencodable: &[char]) -> (r: Option<String>)
    ensures
        unencodable@.len() == 0 ==> r is None,
        unencodable@.len() > 0 ==> (r matches Some(w) && w@ == substitution_warning_text(
            unencodable@,
        )),
{
    if unencodable.len() == 0 {
        return None;
    }
    let mut w = String::new();
    w.append("replaced with '?': ");
    push_substitution_list(&mut w, unencodable);
    Some(w)
}

/// The status line for a save to the file named `file_name` that wrote
/// `unencodable` as `?`.
pub fn save_status(file_name: &str, unencodable: &[char]) -> (r: String)
    ensures
        r@ == saved_status(file_name@, unencodable@),
{
    let mut s = String::new();
    s.append("Saved to ");
    s.append(file_name);
    if unencodable.len() > 0 {
        s.append(" \u{2014} ");
        s.append("replaced with '?': ");
        push_substitution_list(&mut s, unencodable);
    }
    assert(s@ =~= saved_status(file_name@, unencodable@));
    s
}

/// What a save leaves behind for the user and for an IPC client.
pub struct SaveFeedback {
    /// The status line shown to the user.
    pub status: String,
    /// The failure reported to an IPC client, if the save failed.
    pub error: Option<String>,
    /// The warning reported to an IPC client, if characters were replaced.
    pub warning: Option<String>,
}

/// The feedback for a save to `dest` (whose file name is `file_name`) that
/// ended in `result`, a report or the reason it failed.
pub fn save_feedback(dest: &str, file_name: &str, result: &Result<SaveReport, String>) -> (r:
    SaveFeedback)
    ensures
        result matches Ok(report) ==> {
            &&& r.status@ == saved_status(file_name@, report.unencodable_chars@)
            &&& r.error is None
            &&& (report.unencodable_chars@.len() == 0 ==> r.warning is None)
            &&& (report.unencodable_chars@.len() > 0 ==> (r.warning matches Some(w) && w@
                == substitution_warning_text(report.unencodable_chars@)))
        },
        result matches Err(reason) ==> {
            &&& r.status@ == "Save failed: "@ + reason@
            &&& r.error matches Some(e) && e@ == "failed to save "@ + dest@ + ": "@ + reason@
            &&& r.warning is None
        },
{
    match result {
        Ok(report) => SaveFeedback {
            status: save_status(file_name, report.unencodable_chars.as_slice()),
            error: None,
            warning: substitution_warning(report.unencodable_chars.as_slice()),
        },
        Err(reason) => {
            let mut status = String::new();
            status.append("Save failed: ");
            status.append(reason.as_str());
            let mut error = String::new();
            error.append("failed to save ");
            error.append(dest);
            error.append(": ");
            error.append(reason.as_str());
            SaveFeedback { status, error: Some(error), warning: None }
        },
    }
}

} // verus!
