//! Helpers for presenting listings: right-to-left text shaping, keeping a
//! highlighted row inside its list, and the untagged directory listing.
use vstd::prelude::*;

use crate::local::utils::{listing, scan_children, DirChild};
use crate::local::{entries_sorted, LocalEntries};

verus! {

/// Whether the Unicode bidirectional algorithm finds any right-to-left
/// level in the text.
pub uninterp spec fn bidi_has_rtl(s: Seq<char>) -> bool;

/// How many paragraphs the Unicode bidirectional algorithm splits the text into.
pub uninterp spec fn bidi_paragraph_count(s: Seq<char>) -> nat;

/// The whole text as one line, reordered for display by the Unicode
/// bidirectional algorithm under the level of its first paragraph.
pub uninterp spec fn bidi_reordered(s: Seq<char>) -> Seq<char>;

/// Relies on `unicode_bidi::BidiInfo::has_rtl` of the text's `BidiInfo`.
#[verifier::external_body]
fn text_has_rtl(s: &str) -> (r: bool)
    ensures
        r == bidi_has_rtl(s@),
{
    unicode_bidi::BidiInfo::new(s, None).has_rtl()
}

/// Relies on the `paragraphs` that `unicode_bidi::BidiInfo::new` finds.
#[verifier::external_body]
fn paragraph_count(s: &str) -> (r: usize)
    ensures
        r as nat == bidi_paragraph_count(s@),
{
    unicode_bidi::BidiInfo::new(s, None).paragraphs.len()
}

/// Relies on `unicode_bidi::BidiInfo::reorder_line` over the whole text,
/// with the first paragraph (which must exist).
#[verifier::external_body]
fn reorder_whole_line(s: &str) -> (r: String)
    requires
        bidi_paragraph_count(s@) > 0,
    ensures
        r@ == bidi_reordered(s@),
{
    let info = unicode_bidi::BidiInfo::new(s, None);
    info.reorder_line(&info.paragraphs[0], 0..s.len()).into_owned()
}

/// The text in display order: reordered when it holds right-to-left text,
/// otherwise unchanged.
pub open spec fn bidi_display(s: Seq<char>) -> Seq<char> {
    if bidi_has_rtl(s) && bidi_paragraph_count(s) > 0 {
        bidi_reordered(s)
    } else {
        s
    }
}

/// Converts a text to the order in which it is displayed, so that
/// right-to-left scripts read correctly.
pub fn to_bidi_string(s: &str) -> (r: String)
    ensures
        r@ == bidi_display(s@),
{
    if text_has_rtl(s) && paragraph_count(s) > 0 {
        reorder_whole_line(s)
    } else {
        s.to_owned()
    }
}

/// The highlighted row once it is brought back into a list of `len` rows:
/// a row past the end moves to the last row (row 0 for an empty list), and
/// a list without a highlighted row gets its first one when it has rows.
pub open spec fn adjusted_selection(selected: Option<usize>, len: usize) -> Option<usize> {
    match selected {
        Some(p) => if p >= len {
            Some(if len > 0 { (len - 1) as usize } else { 0 })
        } else {
            Some(p)
        },
        None => if len > 0 {
            Some(0)
        } else {
            None
        },
    }
}

/// Keeps the highlighted row of a list within its `len` rows.
pub fn adjust_list_state(selected: &mut Option<usize>, len: usize)
    ensures
        *final(selected) == adjusted_selection(*old(selected), len),
{
    match *selected {
        Some(p) => {
            if p >= len {
                *selected = Some(if len > 0 { len - 1 } else { 0 });
            }
        },
        None => {
            if len > 0 {
                *selected = Some(0);
            }
        },
    }
}

/// Keeps the highlighted row of a table within its `len` rows.
pub fn adjust_table_state(selected: &mut Option<usize>, len: usize)
    ensures
        *final(selected) == adjusted_selection(*old(selected), len),
{
    adjust_list_state(selected, len)
}

/// Builds the listing of a directory without reading tags: empty when the
/// path is not a directory; otherwise `..`, the child directories and the
/// playable files, sorted, with no metadata.
pub fn get_local_entries(is_dir: bool, children: Vec<DirChild>) -> (r: LocalEntries)
    ensures
        !is_dir ==> r@.len() == 0,
        is_dir ==> r@.to_multiset() == listing(children@, false),
        is_dir ==> entries_sorted(r@),
{
    scan_children(is_dir, children, false)
}

} // verus!
