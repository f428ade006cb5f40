//! The number of downloads the account has left, as a torrent page shows it.
use vstd::prelude::*;
use crate::html::{document_matches, first_in_page, first_of, parse_page, selector_parses};
use crate::numbers::{int_error_message, int_error_text, parse_u16, parse_unsigned_spec, unsigned_parse_error, unsigned_parse_error_of};
use crate::parser::{first_texts_under, texts_under, texts_view};
use crate::text::{
    chars_to_string, contains_seq, join_strings, join_with, split_chars, split_on, str_contains,
    str_to_chars, trim, trim_chars,
};

verus! {

/// The remaining downloads of a counter `<remaining>/<total>`: there must be
/// exactly one `/`, and what precedes it, trimmed, must be a `u16`.
pub open spec fn remaining_from_counter_spec(text: Seq<char>) -> Result<u16, Seq<char>> {
    let parts = split_on(text, '/');
    if parts.len() != 2 {
        Err("Invalid remaining downloads format"@)
    } else {
        match parse_unsigned_spec(trim(parts[0]), u16::MAX as nat) {
            Some(n) => Ok(n as u16),
            None => Err(match unsigned_parse_error(trim(parts[0]), u16::MAX as nat) {
                Some(k) => int_error_message(k),
                None => Seq::empty(),
            }),
        }
    }
}

/// Reads the remaining downloads from a counter `<remaining>/<total>`.
pub fn remaining_from_counter(text: &str) -> (r: Result<u16, String>)
    ensures
        match remaining_from_counter_spec(text@) {
            Ok(n) => r == Ok::<u16, String>(n),
            Err(m) => r is Err && r->Err_0@ == m,
        },
{
    let v = str_to_chars(text);
    let parts = split_chars(&v, '/');
    if parts.len() != 2 {
        return Err(String::from_str("Invalid remaining downloads format"));
    }
    let t = trim_chars(&parts[0]);
    let ts = chars_to_string(&t);
    match parse_u16(ts.as_str()) {
        Some(n) => Ok(n),
        None => match unsigned_parse_error_of(&t, u16::MAX as u64) {
            Some(k) => Err(int_error_text(k)),
            None => Err(String::new()),
        },
    }
}

/// The remaining downloads given by the grey note of a torrent page: `u16::MAX`
/// (no limit shown) without a note; an error when the note has no `strong`;
/// otherwise the counter made of the `strong`'s text nodes.
pub open spec fn remaining_from_note_spec(note: Option<Option<Seq<Seq<char>>>>) -> Result<u16, Seq<char>> {
    match note {
        None => Ok(u16::MAX),
        Some(None) => Err("Strong tag not found in remaining downloads info"@),
        Some(Some(texts)) => remaining_from_counter_spec(join_with(texts, Seq::empty())),
    }
}

/// Reads the remaining downloads from the grey note of a torrent page: `None`
/// when the page has no note, `Some(None)` when the note has no `strong`, else
/// the text nodes of its first `strong`.
pub fn remaining_from_note(note: Option<Option<Vec<String>>>) -> (r: Result<u16, String>)
    ensures
        match remaining_from_note_spec(match note {
            None => None,
            Some(None) => Some(None),
            Some(Some(t)) => Some(Some(texts_view(t@))),
        }) {
            Ok(n) => r == Ok::<u16, String>(n),
            Err(m) => r is Err && r->Err_0@ == m,
        },
{
    match note {
        None => Ok(u16::MAX),
        Some(None) => Err(String::from_str("Strong tag not found in remaining downloads info")),
        Some(Some(texts)) => {
            let text = join_strings(&texts, "");
            proof {
                reveal_strlit("");
                assert(""@ =~= Seq::<char>::empty());
            }
            remaining_from_counter(text.as_str())
        },
    }
}

/// The selector of the grey note of a torrent page.
pub open spec fn note_selector() -> Seq<char> {
    "small[style=\"color: #888;\"]"@
}

/// The grey note of the page parsed from `b`: none without a note; otherwise
/// the text nodes of the first `strong` of the first note, if it has one.
pub open spec fn note_on_page(b: Seq<char>) -> Option<Option<Seq<Seq<char>>>> {
    match first_of(document_matches(b, note_selector())) {
        None => None,
        Some(small) => Some(first_texts_under(b, small, "strong"@)),
    }
}

/// The remaining downloads shown on a torrent page: none when it says
/// `Limite atteinte`; otherwise what its grey note says (see
/// `remaining_from_note_spec`): `u16::MAX` without a note, the counter of its
/// `strong`, or an error.  A selector that does not compile is an error: the
/// note's, and `strong` when there is a note.
pub fn remaining_downloads_from_page(body: &str) -> (r: Result<u16, String>)
    ensures
        contains_seq(body@, "Limite atteinte"@) ==> r == Ok::<u16, String>(0),
        !contains_seq(body@, "Limite atteinte"@) ==> ({
            if !selector_parses(note_selector()) {
                r is Err
            } else if first_of(document_matches(body@, note_selector())) is Some && !selector_parses(
                "strong"@,
            ) {
                r is Err
            } else {
                match remaining_from_note_spec(note_on_page(body@)) {
                    Ok(n) => r == Ok::<u16, String>(n),
                    Err(m) => r is Err && r->Err_0@ == m,
                }
            }
        }),
{
    if str_contains(body, "Limite atteinte") {
        return Ok(0);
    }
    let page = parse_page(body);
    let note = match first_in_page(&page, "small[style=\"color: #888;\"]")? {
        None => None,
        Some(small) => Some(texts_under(&page, small, "strong")?),
    };
    remaining_from_note(note)
}

} // verus!
