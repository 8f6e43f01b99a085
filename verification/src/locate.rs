//! The structural locator: finding the fixed markup regions of a profile
//! page.
//!
//! The markup itself is read through the `scraper` crate; everything the
//! extraction logic needs from it comes out as plain text values in a
//! [`Document`].  The page-shape contract — which regions must exist and
//! the fixed structural marker naming each one — lives here as a small set
//! of named lookup rules, handed to one generic selection routine.  Each
//! lookup takes the first match in document order; there is no fallback and
//! no fuzzy matching.

use vstd::prelude::*;
use crate::document::Document;
use crate::document::Histogram;

verus! {

/// Whether the document written as `html` holds an element matching the
/// selector `outer`: what `scraper` finds, a pure function of the two
/// strings.  Applied only at this library's fixed, well-formed lookup
/// rules (see the `requires` of `select_inner_texts`).
pub uninterp spec fn region_found(html: Seq<char>, outer: Seq<char>) -> bool;

/// The inner HTML of every descendant matching `inner` under the first
/// element matching `outer` in the document written as `html`, in document
/// order: what `scraper` finds, a pure function of the three strings.
pub uninterp spec fn region_inner_texts(
    html: Seq<char>,
    outer: Seq<char>,
    inner: Seq<char>,
) -> Seq<Seq<char>>;

/// The inner HTML of the first element matching `sel` in the document
/// written as `html`, if any: what `scraper` finds, a pure function of the
/// two strings.
pub uninterp spec fn first_inner_text(html: Seq<char>, sel: Seq<char>) -> Option<Seq<char>>;

/// The fixed structural marker of the summary table.
pub open spec fn summary_table_sel() -> Seq<char> {
    "table#gsc_rsb_st"@
}

/// The fixed structural marker of a value cell: the second column of each
/// summary-table row.
pub open spec fn summary_cells_sel() -> Seq<char> {
    "tr > td:nth-child(2)"@
}

/// The fixed structural marker of the profile's display name.
pub open spec fn name_sel() -> Seq<char> {
    "div#gsc_prf_in"@
}

/// The fixed structural marker of the histogram container.
pub open spec fn hist_container_sel() -> Seq<char> {
    "div.gsc_md_hist_w > div.gsc_md_hist_b"@
}

/// The fixed structural marker of a year label in the histogram.
pub open spec fn hist_year_sel() -> Seq<char> {
    "span.gsc_g_t"@
}

/// The fixed structural marker of a citation-count label in the histogram.
pub open spec fn hist_count_sel() -> Seq<char> {
    "a.gsc_g_a > span.gsc_g_al"@
}

/// Relies on `scraper`: `Html::parse_document` parses the markup
/// tolerantly into a best-effort tree (it does not fail), and
/// `Selector::parse`, `Html::select`, `ElementRef::select` and
/// `ElementRef::inner_html` walk that tree deterministically, in document
/// order.  The result is therefore a function of the three strings alone,
/// named by `region_found` and `region_inner_texts`.
///
/// The body also returns `None` when `Selector::parse` rejects either
/// selector, which would falsify the first clause — presence as a function
/// of `outer` alone — for an ill-formed `inner`.  The `requires` therefore
/// admits only this library's fixed lookup rules, all of them well-formed
/// selectors that `Selector::parse` accepts, so within the contract `None`
/// means exactly that no element matches `outer`, and `Some` holds the
/// inner HTML of the matching descendants of the first such element.
#[verifier::external_body]
fn select_inner_texts(html: &str, outer: &str, inner: &str) -> (r: Option<Vec<String>>)
    requires
        (outer@ == summary_table_sel() && inner@ == summary_cells_sel()) || (outer@
            == hist_container_sel() && (inner@ == hist_year_sel() || inner@ == hist_count_sel())),
    ensures
        r is Some == region_found(html@, outer@),
        r matches Some(v) ==> v.deep_view() == region_inner_texts(html@, outer@, inner@),
{
    let doc = scraper::Html::parse_document(html);
    let outer_sel = match scraper::Selector::parse(outer) {
        Ok(s) => s,
        Err(_) => return None,
    };
    let inner_sel = match scraper::Selector::parse(inner) {
        Ok(s) => s,
        Err(_) => return None,
    };
    let root = doc.select(&outer_sel).next()?;
    Some(root.select(&inner_sel).map(|e| e.inner_html()).collect())
}

/// Relies on `scraper`, exactly as `select_inner_texts` does: the inner
/// HTML of the first element matching `sel`, a pure function of the two
/// strings, named by `first_inner_text` (`None` when nothing matches or
/// the selector is ill-formed).
#[verifier::external_body]
fn select_first_inner_text(html: &str, sel: &str) -> (r: Option<String>)
    ensures
        r.deep_view() == first_inner_text(html@, sel@),
{
    let doc = scraper::Html::parse_document(html);
    let sel = match scraper::Selector::parse(sel) {
        Ok(s) => s,
        Err(_) => return None,
    };
    doc.select(&sel).next().map(|e| e.inner_html())
}

/// The summary value cells located in the page written as `html`.
pub open spec fn located_cells(html: Seq<char>) -> Option<Seq<Seq<char>>> {
    if region_found(html, summary_table_sel()) {
        Some(region_inner_texts(html, summary_table_sel(), summary_cells_sel()))
    } else {
        None
    }
}

/// The name element's text located in the page written as `html`.
pub open spec fn located_name(html: Seq<char>) -> Option<Seq<char>> {
    first_inner_text(html, name_sel())
}

/// The histogram labels located in the page written as `html`.
pub open spec fn located_hist(html: Seq<char>) -> Option<(Seq<Seq<char>>, Seq<Seq<char>>)> {
    if region_found(html, hist_container_sel()) {
        Some(
            (
                region_inner_texts(html, hist_container_sel(), hist_year_sel()),
                region_inner_texts(html, hist_container_sel(), hist_count_sel()),
            ),
        )
    } else {
        None
    }
}

/// Locates the three regions of the page written as `html` and brings
/// their text out as a [`Document`]: each lookup independent, each taking
/// the first match in document order, absence recorded as `None`.
pub fn locate(html: &str) -> (d: Document)
    ensures
        d.cells_view() == located_cells(html@),
        d.name_view() == located_name(html@),
        d.hist_view() == located_hist(html@),
{
    let summary_cells = select_inner_texts(html, "table#gsc_rsb_st", "tr > td:nth-child(2)");
    let name_text = select_first_inner_text(html, "div#gsc_prf_in");
    let years_opt = select_inner_texts(
        html,
        "div.gsc_md_hist_w > div.gsc_md_hist_b",
        "span.gsc_g_t",
    );
    let counts_opt = select_inner_texts(
        html,
        "div.gsc_md_hist_w > div.gsc_md_hist_b",
        "a.gsc_g_a > span.gsc_g_al",
    );
    let histogram = match (years_opt, counts_opt) {
        (Some(years), Some(counts)) => Some(Histogram { years, counts }),
        _ => None,
    };
    Document { summary_cells, name_text, histogram }
}

} // verus!
