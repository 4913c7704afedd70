//! Titles that the crawler knows by name.

use vstd::prelude::*;

verus! {

/// The article at which every crawl aims.
pub const KEVIN_BACON: &'static str = "Kevin Bacon";

} // verus!
