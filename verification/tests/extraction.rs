//! Extraction over synthetic documents: summary, histogram and assembly.

use scholar_scraper::document::Document;
use scholar_scraper::document::Histogram;
use scholar_scraper::error::ScrapeError;
use scholar_scraper::extract::assemble;
use scholar_scraper::extract::extract_histogram;
use scholar_scraper::extract::extract_summary;
use scholar_scraper::numbers::parse_numeric;

fn strings(texts: &[&str]) -> Vec<String> {
    texts.iter().map(|t| t.to_string()).collect()
}

fn doc(cells: Option<&[&str]>, name: Option<&str>, hist: Option<(&[&str], &[&str])>) -> Document {
    Document {
        summary_cells: cells.map(strings),
        name_text: name.map(|n| n.to_string()),
        histogram: hist.map(|(years, counts)| Histogram {
            years: strings(years),
            counts: strings(counts),
        }),
    }
}

#[test]
fn summary_well_formed() {
    let d = doc(Some(&["120", "8", "5"]), Some("Jane Doe"), None);
    let (name, total, h_index, i10_index) = extract_summary(&d).unwrap();
    assert_eq!(name, "Jane Doe");
    assert_eq!(total, 120);
    assert_eq!(h_index, 8);
    assert_eq!(i10_index, 5);
}

#[test]
fn summary_takes_first_three_positionally() {
    let d = doc(Some(&["7", "6", "5", "4", "3"]), Some("A B"), None);
    let (_, total, h_index, i10_index) = extract_summary(&d).unwrap();
    assert_eq!((total, h_index, i10_index), (7, 6, 5));
}

#[test]
fn summary_name_verbatim() {
    let d = doc(Some(&["1", "2", "3"]), Some("  Jane  Doe "), None);
    let (name, _, _, _) = extract_summary(&d).unwrap();
    assert_eq!(name, "  Jane  Doe ");
}

#[test]
fn summary_table_missing() {
    let d = doc(None, Some("Jane Doe"), None);
    assert_eq!(extract_summary(&d).unwrap_err(), ScrapeError::TableNotFound);
}

#[test]
fn summary_name_missing() {
    let d = doc(Some(&["120", "8", "5"]), None, None);
    assert_eq!(extract_summary(&d).unwrap_err(), ScrapeError::NameNotFound);
}

#[test]
fn summary_insufficient_zero() {
    let d = doc(Some(&[]), Some("Jane Doe"), None);
    assert_eq!(
        extract_summary(&d).unwrap_err(),
        ScrapeError::InsufficientData(0)
    );
}

#[test]
fn summary_insufficient_one() {
    let d = doc(Some(&["120"]), Some("Jane Doe"), None);
    assert_eq!(
        extract_summary(&d).unwrap_err(),
        ScrapeError::InsufficientData(1)
    );
}

#[test]
fn summary_insufficient_two() {
    let d = doc(Some(&["120", "8"]), Some("Jane Doe"), None);
    assert_eq!(
        extract_summary(&d).unwrap_err(),
        ScrapeError::InsufficientData(2)
    );
}

#[test]
fn summary_parse_error_carries_text() {
    let d = doc(Some(&["abc", "8", "5"]), Some("Jane Doe"), None);
    assert_eq!(
        extract_summary(&d).unwrap_err(),
        ScrapeError::ParseError("abc".to_string())
    );
}

#[test]
fn summary_parse_error_reports_first_bad_cell() {
    let d = doc(Some(&["12", "x", "y"]), Some("Jane Doe"), None);
    assert_eq!(
        extract_summary(&d).unwrap_err(),
        ScrapeError::ParseError("x".to_string())
    );
}

#[test]
fn summary_parse_error_before_count_and_name_checks() {
    let d = doc(Some(&["abc"]), None, None);
    assert_eq!(
        extract_summary(&d).unwrap_err(),
        ScrapeError::ParseError("abc".to_string())
    );
}

#[test]
fn summary_count_check_before_name_check() {
    let d = doc(Some(&["1"]), None, None);
    assert_eq!(
        extract_summary(&d).unwrap_err(),
        ScrapeError::InsufficientData(1)
    );
}

#[test]
fn histogram_equal_lengths() {
    let d = doc(None, None, Some((&["2020", "2021"], &["30", "40"])));
    let m = extract_histogram(&d).unwrap();
    assert_eq!(m, vec![(2020, 30), (2021, 40)]);
}

#[test]
fn histogram_sorts_by_year() {
    let d = doc(None, None, Some((&["2021", "2019", "2020"], &["40", "10", "30"])));
    let m = extract_histogram(&d).unwrap();
    assert_eq!(m, vec![(2019, 10), (2020, 30), (2021, 40)]);
}

#[test]
fn histogram_truncates_to_shorter_years() {
    let d = doc(None, None, Some((&["2020", "2021"], &["30", "40", "50", "60"])));
    let m = extract_histogram(&d).unwrap();
    assert_eq!(m.len(), 2);
    assert_eq!(m, vec![(2020, 30), (2021, 40)]);
}

#[test]
fn histogram_truncates_to_shorter_counts() {
    let d = doc(None, None, Some((&["2018", "2019", "2020", "2021"], &["1", "2"])));
    let m = extract_histogram(&d).unwrap();
    assert_eq!(m.len(), 2);
    assert_eq!(m, vec![(2018, 1), (2019, 2)]);
}

#[test]
fn histogram_truncation_ignores_bad_tail() {
    // The unpaired tail is never parsed, so a malformed label there is not
    // an error.
    let d = doc(None, None, Some((&["2020", "oops"], &["30"])));
    let m = extract_histogram(&d).unwrap();
    assert_eq!(m, vec![(2020, 30)]);
}

#[test]
fn histogram_container_missing() {
    let d = doc(None, None, None);
    assert_eq!(extract_histogram(&d).unwrap_err(), ScrapeError::TableNotFound);
}

#[test]
fn histogram_year_parse_error() {
    let d = doc(None, None, Some((&["2020", "20x1"], &["30", "40"])));
    assert_eq!(
        extract_histogram(&d).unwrap_err(),
        ScrapeError::YearParseError("20x1".to_string())
    );
}

#[test]
fn histogram_count_parse_error() {
    let d = doc(None, None, Some((&["2020", "2021"], &["30", "4o"])));
    assert_eq!(
        extract_histogram(&d).unwrap_err(),
        ScrapeError::CitationParseError("4o".to_string())
    );
}

#[test]
fn histogram_year_checked_before_count() {
    let d = doc(None, None, Some((&["bad"], &["worse"])));
    assert_eq!(
        extract_histogram(&d).unwrap_err(),
        ScrapeError::YearParseError("bad".to_string())
    );
}

#[test]
fn histogram_repeated_year_keeps_last_count() {
    let d = doc(None, None, Some((&["2020", "2020"], &["1", "2"])));
    let m = extract_histogram(&d).unwrap();
    assert_eq!(m, vec![(2020, 2)]);
}

#[test]
fn histogram_empty_is_ok() {
    let d = doc(None, None, Some((&[], &[])));
    let m = extract_histogram(&d).unwrap();
    assert!(m.is_empty());
}

#[test]
fn assemble_full_record() {
    let d = doc(
        Some(&["120", "8", "5"]),
        Some("Jane Doe"),
        Some((&["2020", "2021"], &["30", "40"])),
    );
    let info = assemble(&d).unwrap();
    assert_eq!(info.name, "Jane Doe");
    assert_eq!(info.total, 120);
    assert_eq!(info.h_index, 8);
    assert_eq!(info.i10_index, 5);
    assert_eq!(info.yearly_citations, vec![(2020, 30), (2021, 40)]);
}

#[test]
fn assemble_summary_error_comes_first() {
    let d = doc(Some(&["abc", "8", "5"]), Some("Jane Doe"), None);
    assert_eq!(
        assemble(&d).unwrap_err(),
        ScrapeError::ParseError("abc".to_string())
    );
}

#[test]
fn assemble_histogram_error_after_summary() {
    let d = doc(Some(&["120", "8", "5"]), Some("Jane Doe"), None);
    assert_eq!(assemble(&d).unwrap_err(), ScrapeError::TableNotFound);
}

#[test]
fn parse_numeric_plain_values() {
    assert_eq!(parse_numeric("0"), Some(0));
    assert_eq!(parse_numeric("120"), Some(120));
    assert_eq!(parse_numeric("007"), Some(7));
}

#[test]
fn parse_numeric_rejects_non_digits() {
    assert_eq!(parse_numeric(""), None);
    assert_eq!(parse_numeric("abc"), None);
    assert_eq!(parse_numeric("12a"), None);
    assert_eq!(parse_numeric("+5"), None);
    assert_eq!(parse_numeric("-5"), None);
    assert_eq!(parse_numeric(" 5"), None);
    assert_eq!(parse_numeric("1 2"), None);
    assert_eq!(parse_numeric("1,200"), None);
}

#[test]
fn parse_numeric_bounds() {
    let max = usize::MAX.to_string();
    assert_eq!(parse_numeric(&max), Some(usize::MAX));
    let over = max + "0";
    assert_eq!(parse_numeric(&over), None);
}
