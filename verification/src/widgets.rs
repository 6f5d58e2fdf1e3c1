//! The pager under the release list.

use vstd::prelude::*;

use crate::oci::concat;
use crate::text;

verus! {

/// There is a page before `current_page`.
pub fn prev_in_bounds(current_page: usize) -> (res: bool)
    ensures
        res == (current_page > 0),
{
    current_page > 0
}

/// There is a page after `current_page`.
pub fn next_in_bounds(current_page: usize, total_pages: usize) -> (res: bool)
    requires
        current_page < usize::MAX,
    ensures
        res == (current_page + 1 < total_pages),
{
    current_page + 1 < total_pages
}

/// The pager's label `<page> / <pages>`, counting from one and showing at
/// least one page.
pub fn pager_label(current_page: usize, total_pages: usize) -> (res: String)
    requires
        current_page < usize::MAX,
    ensures
        res@ == text::decimal((current_page + 1) as nat) + " / "@ + text::decimal(
            (if total_pages > 1 {
                total_pages
            } else {
                1
            }) as nat,
        ),
{
    let shown = if total_pages > 1 {
        total_pages
    } else {
        1
    };
    let mut out = text::u64_decimal((current_page + 1) as u64);
    out.append(" / ");
    out.append(text::u64_decimal(shown as u64).as_str());
    out
}

} // verus!
