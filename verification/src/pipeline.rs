//! The whole extraction pipeline on one page: locate, parse, assemble,
//! serialize.
//!
//! This is the computational heart of a fetch: the caller retrieves the
//! page body over the network (one GET, a non-success status reported as
//! `InvalidIdentifier` before this code runs) and hands the body here as
//! plain text.

use vstd::prelude::*;
use crate::error::ScrapeError;
use crate::error::ScrapeErrorSpec;
use crate::extract::assemble;
use crate::extract::record_model;
use crate::locate::locate;
use crate::locate::located_cells;
use crate::locate::located_hist;
use crate::locate::located_name;
use crate::record::AuthorInfo;
use crate::serialize::render_parts;
use crate::serialize::serialize;

verus! {

/// What the pipeline returns for the page written as `html`: the rendered
/// record assembled from the located regions, or the first error.
pub open spec fn scrape_model(html: Seq<char>) -> Result<Seq<char>, ScrapeErrorSpec> {
    match record_model(located_cells(html), located_name(html), located_hist(html)) {
        Ok(f) => Ok(render_parts(f.0, f.1, f.2, f.3, f.4)),
        Err(e) => Err(e),
    }
}

/// Extracts the record from a fetched page body and renders it: the
/// pipeline minus the network.  Returns the serialized record, or the
/// first error encountered while locating and parsing.
pub fn scrape_document(html: &str) -> (r: Result<String, ScrapeError>)
    ensures
        match scrape_model(html@) {
            Ok(text) => r matches Ok(s) && s@ == text,
            Err(e) => r matches Err(err) && err@ == e,
        },
{
    let doc = locate(html);
    let info: AuthorInfo = match assemble(&doc) {
        Ok(info) => info,
        Err(e) => {
            return Err(e);
        },
    };
    Ok(serialize(&info))
}

} // verus!
