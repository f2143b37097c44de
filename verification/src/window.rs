//! What the main window shows: whether it is open, and how a path is written
//! in a row of the list.

use vstd::prelude::*;
use vstd::string::*;

verus! {

/// The most characters of a path that a row shows.
pub const DISPLAY_WIDTH: usize = 50;

/// The characters that stay of a path that is too long for a row.
pub const DISPLAY_TAIL: usize = 47;

/// A path as a row shows it: the path itself where it has at most
/// `DISPLAY_WIDTH` characters, and otherwise three dots and its last
/// `DISPLAY_TAIL` characters.
pub open spec fn display_text(path: Seq<char>) -> Seq<char> {
    if path.len() > DISPLAY_WIDTH {
        "..."@ + path.subrange(path.len() - DISPLAY_TAIL, path.len() as int)
    } else {
        path
    }
}

/// Toggles the main window: returns the visibility that follows `is_open`.
pub fn toggle_window(is_open: bool) -> (r: bool)
    ensures
        r == !is_open,
{
    !is_open
}

/// Writes `path` as a row of the list shows it.
pub fn display_path(path: &str) -> (r: String)
    ensures
        r@ == display_text(path@),
{
    let len = path.unicode_len();
    if len > DISPLAY_WIDTH {
        String::from_str("...").concat(path.substring_char(len - DISPLAY_TAIL, len))
    } else {
        String::from_str(path)
    }
}

} // verus!
