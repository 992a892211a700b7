//! The performance readout's counters that are not timings: resident memory
//! and the grid's page cache. Nothing measured reads as a dash, never zero.

use vstd::prelude::*;
use crate::chrome::{bytes_text, human_bytes};
use crate::text::{decimal, decimal_string};

verus! {

/// What the readout shows where nothing was measured.
pub const DASH: &'static str = "\u{2014}";

/// The resident-memory line: the size, or a dash when it is not known.
pub fn rss_line(rss: Option<u64>) -> (r: String)
    ensures
        r@ == "rss "@ + (match rss {
            Some(n) => bytes_text(n as nat),
            None => "\u{2014}"@,
        }),
{
    let mut s = "rss ".to_string();
    match rss {
        Some(n) => s.append(human_bytes(n).as_str()),
        None => s.append(DASH),
    }
    s
}

/// The page-cache line: pages resident over the cache's capacity, or a dash
/// when no grid is shown.
pub fn pages_line(pages: Option<(usize, usize)>) -> (r: String)
    ensures
        r@ == "pages "@ + (match pages {
            Some(p) => decimal(p.0 as nat) + " / "@ + decimal(p.1 as nat),
            None => "\u{2014}"@,
        }),
{
    let mut s = "pages ".to_string();
    match pages {
        Some((resident, cap)) => {
            s.append(decimal_string(resident as u64).as_str());
            s.append(" / ");
            s.append(decimal_string(cap as u64).as_str());
        },
        None => s.append(DASH),
    }
    s
}

} // verus!
