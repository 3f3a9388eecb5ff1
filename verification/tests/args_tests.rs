use scholar_scrape::args::{parse_pages, PagesError};

#[test]
fn plain_numbers() {
    assert_eq!(parse_pages("1"), Ok(1));
    assert_eq!(parse_pages("2"), Ok(2));
    assert_eq!(parse_pages("10"), Ok(10));
    assert_eq!(parse_pages("0"), Ok(0));
    assert_eq!(parse_pages("007"), Ok(7));
}

#[test]
fn leading_plus_is_accepted() {
    assert_eq!(parse_pages("+12"), Ok(12));
}

#[test]
fn largest_value() {
    assert_eq!(parse_pages("4294967295"), Ok(u32::MAX));
}

#[test]
fn too_large() {
    assert_eq!(parse_pages("4294967296"), Err(PagesError::TooLarge));
    assert_eq!(parse_pages("99999999999999999999"), Err(PagesError::TooLarge));
}

#[test]
fn empty_input() {
    assert_eq!(parse_pages(""), Err(PagesError::Empty));
    assert_eq!(parse_pages("+"), Err(PagesError::Empty));
}

#[test]
fn non_digits() {
    assert_eq!(parse_pages("abc"), Err(PagesError::NonDigit));
    assert_eq!(parse_pages("1a"), Err(PagesError::NonDigit));
    assert_eq!(parse_pages("-1"), Err(PagesError::NonDigit));
    assert_eq!(parse_pages("1.5"), Err(PagesError::NonDigit));
    assert_eq!(parse_pages(" 1"), Err(PagesError::NonDigit));
}
