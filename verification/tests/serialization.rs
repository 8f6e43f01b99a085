//! Serialization of assembled records, and error descriptions.

use scholar_scraper::error::ScrapeError;
use scholar_scraper::record::AuthorInfo;
use scholar_scraper::serialize::serialize;

fn record() -> AuthorInfo {
    AuthorInfo {
        name: "Jane Doe".to_string(),
        total: 120,
        h_index: 8,
        i10_index: 5,
        yearly_citations: vec![(2020, 30), (2021, 40)],
    }
}

#[test]
fn serialize_example_record() {
    let text = serialize(&record());
    assert_eq!(
        text,
        "name: Jane Doe\ntotal: 120\nh_index: 8\ni10_index: 5\nyears:\n  2020: 30\n  2021: 40\n"
    );
}

#[test]
fn serialize_empty_years() {
    let info = AuthorInfo {
        name: "A".to_string(),
        total: 0,
        h_index: 0,
        i10_index: 0,
        yearly_citations: vec![],
    };
    assert_eq!(
        serialize(&info),
        "name: A\ntotal: 0\nh_index: 0\ni10_index: 0\nyears: {}\n"
    );
}

#[test]
fn serialize_name_verbatim() {
    let mut info = record();
    info.name = "  spaced  out ".to_string();
    assert!(serialize(&info).starts_with("name:   spaced  out \n"));
}

#[test]
fn serialize_is_deterministic() {
    // Two records constructed independently with identical field values.
    let first = serialize(&record());
    let second = serialize(&record());
    assert_eq!(first, second);
    // And once more on the very same value.
    let again = serialize(&record());
    assert_eq!(first, again);
}

#[test]
fn describe_fixed_messages() {
    assert_eq!(
        ScrapeError::InvalidIdentifier.describe(),
        "Website not found. Check the ID."
    );
    assert_eq!(
        ScrapeError::TableNotFound.describe(),
        "Failed to find the citation table on the website"
    );
    assert_eq!(
        ScrapeError::NameNotFound.describe(),
        "Failed to find the name on the website"
    );
}

#[test]
fn describe_carries_context() {
    assert_eq!(
        ScrapeError::ParseError("abc".to_string()).describe(),
        "Failed to parse value: abc"
    );
    assert_eq!(
        ScrapeError::InsufficientData(2).describe(),
        "Insufficient data: expected 3 values, found 2"
    );
    assert_eq!(
        ScrapeError::YearParseError("20x1".to_string()).describe(),
        "Failed to parse year: 20x1"
    );
    assert_eq!(
        ScrapeError::CitationParseError("4o".to_string()).describe(),
        "Failed to parse citation count: 4o"
    );
}
