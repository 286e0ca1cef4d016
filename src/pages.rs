//! Page ranges, compacted by the style's page-range format.

use vstd::prelude::*;
use crate::context::PageRangeFormat;

verus! {

/// What `citationberg::PageRangeFormat::format` writes for a range from
/// `start` to `end` with separator `sep`.
pub uninterp spec fn page_range_text(
    format: PageRangeFormat,
    start: Seq<char>,
    end: Seq<char>,
    sep: Seq<char>,
) -> Seq<char>;

/// Relies on `citationberg::PageRangeFormat::format`, which writes the
/// range's start, the separator and the end with digits elided by the
/// format; its output depends on its arguments alone. Writing into a
/// `String` does not fail.
#[verifier::external_body]
pub fn format_page_range(
    format: PageRangeFormat,
    start: &Vec<char>,
    end: &Vec<char>,
    sep: &Vec<char>,
) -> (r: Vec<char>)
    ensures
        r@ == page_range_text(format, start@, end@, sep@),
{
    let f = match format {
        PageRangeFormat::Chicago15 => citationberg::PageRangeFormat::Chicago15,
        PageRangeFormat::Chicago16 => citationberg::PageRangeFormat::Chicago16,
        PageRangeFormat::Expanded => citationberg::PageRangeFormat::Expanded,
        PageRangeFormat::Minimal => citationberg::PageRangeFormat::Minimal,
        PageRangeFormat::MinimalTwo => citationberg::PageRangeFormat::MinimalTwo,
    };
    let (a, b, c): (String, String, String) =
        (start.iter().collect(), end.iter().collect(), sep.iter().collect());
    let mut buf = String::new();
    let _ = f.format(&mut buf, &a, &b, Some(&c));
    buf.chars().collect()
}

} // verus!
