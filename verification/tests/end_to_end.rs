//! The whole pipeline on page text: the real markup parser and selectors
//! run under the verified extraction.

use scholar_scraper::error::ScrapeError;
use scholar_scraper::pipeline::scrape_document;

fn page(summary_cells: &[&str], name: Option<&str>, hist: Option<(&[&str], &[&str])>) -> String {
    let mut html = String::from("<html><body>");
    if let Some(n) = name {
        html.push_str(&format!("<div id=\"gsc_prf_in\">{n}</div>"));
    }
    html.push_str("<table id=\"gsc_rsb_st\">");
    for cell in summary_cells {
        html.push_str(&format!("<tr><td>label</td><td>{cell}</td></tr>"));
    }
    html.push_str("</table>");
    if let Some((years, counts)) = hist {
        html.push_str("<div class=\"gsc_md_hist_w\"><div class=\"gsc_md_hist_b\">");
        for y in years {
            html.push_str(&format!("<span class=\"gsc_g_t\">{y}</span>"));
        }
        for c in counts {
            html.push_str(&format!("<a class=\"gsc_g_a\"><span class=\"gsc_g_al\">{c}</span></a>"));
        }
        html.push_str("</div></div>");
    }
    html.push_str("</body></html>");
    html
}

#[test]
fn scrape_well_formed_page() {
    let html = page(
        &["120", "8", "5"],
        Some("Jane Doe"),
        Some((&["2020", "2021"], &["30", "40"])),
    );
    let text = scrape_document(&html).unwrap();
    assert_eq!(
        text,
        "name: Jane Doe\ntotal: 120\nh_index: 8\ni10_index: 5\nyears:\n  2020: 30\n  2021: 40\n"
    );
}

#[test]
fn scrape_bad_summary_cell() {
    // The same page with one malformed summary cell fails with exactly
    // that cell's text.
    let html = page(
        &["abc", "8", "5"],
        Some("Jane Doe"),
        Some((&["2020", "2021"], &["30", "40"])),
    );
    assert_eq!(
        scrape_document(&html).unwrap_err(),
        ScrapeError::ParseError("abc".to_string())
    );
}

#[test]
fn scrape_page_without_table() {
    let html = "<html><body><div id=\"gsc_prf_in\">Jane Doe</div></body></html>";
    assert_eq!(
        scrape_document(html).unwrap_err(),
        ScrapeError::TableNotFound
    );
}

#[test]
fn scrape_page_without_name() {
    let html = page(&["120", "8", "5"], None, Some((&["2020"], &["30"])));
    assert_eq!(
        scrape_document(&html).unwrap_err(),
        ScrapeError::NameNotFound
    );
}

#[test]
fn scrape_page_without_histogram() {
    let html = page(&["120", "8", "5"], Some("Jane Doe"), None);
    assert_eq!(
        scrape_document(&html).unwrap_err(),
        ScrapeError::TableNotFound
    );
}

#[test]
fn scrape_histogram_mismatched_lengths() {
    let html = page(
        &["120", "8", "5"],
        Some("Jane Doe"),
        Some((&["2019", "2020", "2021"], &["10", "20"])),
    );
    let text = scrape_document(&html).unwrap();
    assert_eq!(
        text,
        "name: Jane Doe\ntotal: 120\nh_index: 8\ni10_index: 5\nyears:\n  2019: 10\n  2020: 20\n"
    );
}

#[test]
fn scrape_takes_first_matching_table() {
    // Selection is first match in document order: a second table with
    // different numbers must not be read.
    let mut html = page(&["120", "8", "5"], Some("Jane Doe"), Some((&["2020"], &["30"])));
    html.push_str("<table id=\"gsc_rsb_st\"><tr><td>x</td><td>999</td></tr></table>");
    let text = scrape_document(&html).unwrap();
    assert!(text.contains("total: 120"));
}

#[test]
fn scrape_insufficient_cells() {
    let html = page(&["120", "8"], Some("Jane Doe"), None);
    assert_eq!(
        scrape_document(&html).unwrap_err(),
        ScrapeError::InsufficientData(2)
    );
}
