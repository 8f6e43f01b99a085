//! The library's model of a profile page: the three located regions, held
//! as plain text values.
//!
//! The structural locator fills this model from the markup; everything that
//! follows — field parsing, assembly, serialization — reads only this model,
//! so extraction is defined (and verified) for every possible page shape,
//! including synthetic ones built directly in tests.

use vstd::prelude::*;

verus! {

/// The yearly-citation chart region: the year labels and the citation-count
/// labels, each in page order (left to right).  The two sequences may differ
/// in length; pairing truncates to the shorter one.
#[derive(Debug, PartialEq, Eq)]
pub struct Histogram {
    /// Inner text of each year label, in page order.
    pub years: Vec<String>,
    /// Inner text of each citation-count label, in page order.
    pub counts: Vec<String>,
}

/// The located regions of one profile page.  `None` in a field means the
/// region is absent from the page.
#[derive(Debug, PartialEq, Eq)]
pub struct Document {
    /// Inner text of every value cell of the summary table, in document
    /// order; `None` when the summary table is absent.
    pub summary_cells: Option<Vec<String>>,
    /// Inner text of the name element; `None` when it is absent.
    pub name_text: Option<String>,
    /// The histogram region; `None` when its container is absent.
    pub histogram: Option<Histogram>,
}

impl Document {
    /// The summary value cells as text sequences.
    pub open spec fn cells_view(&self) -> Option<Seq<Seq<char>>> {
        self.summary_cells.deep_view()
    }

    /// The name element's text.
    pub open spec fn name_view(&self) -> Option<Seq<char>> {
        self.name_text.deep_view()
    }

    /// The histogram region as (year labels, count labels).
    pub open spec fn hist_view(&self) -> Option<(Seq<Seq<char>>, Seq<Seq<char>>)> {
        match self.histogram {
            Some(h) => Some((h.years.deep_view(), h.counts.deep_view())),
            None => None,
        }
    }
}

} // verus!
