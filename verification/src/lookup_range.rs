//! Ranges of source spans.
use vstd::prelude::*;
use crate::range::{Location, Range};

verus! {

/// The range of a span, from where the source map locates its two ends as
/// `(line, column)`; an end that cannot be located (a span the compiler made up
/// rather than read from the source) is `None`, and then the range is the default
/// one.
pub fn get_range_from_span(lo: Option<(usize, usize)>, hi: Option<(usize, usize)>) -> (r: Range)
    ensures
        match (lo, hi) {
            (Some(l), Some(h)) => r == (Range {
                start: (Location { line: l.0 as u32, column: l.1 as u32 }),
                end: (Location { line: h.0 as u32, column: h.1 as u32 }),
            }),
            _ => r == (Range {
                start: (Location { line: 0, column: 0 }),
                end: (Location { line: 0, column: 0 }),
            }),
        },
{
    match (lo, hi) {
        (Some(l), Some(h)) => Range::new(l.0 as u32, l.1 as u32, h.0 as u32, h.1 as u32),
        _ => Range::default(),
    }
}

} // verus!
