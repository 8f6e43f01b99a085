//! The assembled output record.
//!
//! An [`AuthorInfo`] exists only fully populated: every scalar field and the
//! yearly mapping parsed successfully before it was constructed.  The yearly
//! mapping keeps one entry per year, sorted ascending.

use vstd::prelude::*;

verus! {

/// One entry per year, keys strictly ascending.
pub open spec fn sorted_by_year(m: Seq<(usize, usize)>) -> bool {
    forall|i: int, j: int| 0 <= i < j < m.len() ==> (#[trigger] m[i]).0 < (#[trigger] m[j]).0
}

/// The scraped author information.
#[derive(Debug, PartialEq, Eq)]
pub struct AuthorInfo {
    /// Author name, taken verbatim from the name element.
    pub name: String,
    /// Total number of citations.
    pub total: usize,
    /// h-index of the author.
    pub h_index: usize,
    /// i10-index of the author.
    pub i10_index: usize,
    /// Yearly citation counts: one entry per year, sorted ascending by year.
    pub yearly_citations: Vec<(usize, usize)>,
}

impl AuthorInfo {
    /// Well-formedness: the yearly mapping has unique keys, sorted ascending.
    pub open spec fn wf(&self) -> bool {
        sorted_by_year(self.yearly_citations@)
    }
}

} // verus!
