use scholar_scrape::collect::collect_bodies;
use scholar_scrape::export::{build_worksheet, ExportError};
use scholar_scrape::record::Record;

fn record(title: &str, authors: &str, link: &str) -> Record {
    Record { title: title.to_string(), authors: authors.to_string(), link: link.to_string() }
}

fn saved_bytes(ws: rust_xlsxwriter::Worksheet) -> Vec<u8> {
    let mut workbook = rust_xlsxwriter::Workbook::new();
    workbook.push_worksheet(ws);
    workbook.save_to_buffer().unwrap()
}

#[test]
fn header_only_for_zero_records() {
    let ws = build_worksheet(&Vec::new()).unwrap();
    let bytes = saved_bytes(ws);
    // a well-formed xlsx container comes out even with no records
    assert!(bytes.len() > 2);
    assert_eq!(&bytes[0..2], b"PK");
}

#[test]
fn few_records_build() {
    let records = vec![
        record("Paper One", "A Author", "http://example.org/one"),
        record("Paper Two", "B Author", "http://example.org/two"),
    ];
    let ws = build_worksheet(&records).unwrap();
    let bytes = saved_bytes(ws);
    assert_eq!(&bytes[0..2], b"PK");
}

#[test]
fn empty_fields_are_allowed() {
    let records = vec![record("", "", "")];
    assert!(build_worksheet(&records).is_ok());
}

#[test]
fn longest_writable_text() {
    let records = vec![record(&"a".repeat(32767), "ok", "ok")];
    assert!(build_worksheet(&records).is_ok());
}

#[test]
fn overlong_text_is_refused() {
    let records = vec![record("fine", &"a".repeat(32768), "fine")];
    match build_worksheet(&records) {
        Err(e) => assert_eq!(e, ExportError::TextTooLong),
        Ok(_) => panic!("an overlong text must be refused"),
    }
}

#[test]
fn row_limit_is_refused() {
    // rows 1 ..= 1048575 hold records; the next non-empty record cannot land
    let mut records: Vec<Record> = Vec::new();
    for _ in 0..1048575 {
        records.push(record("", "", ""));
    }
    records.push(record("one too far", "", ""));
    match build_worksheet(&records) {
        Err(e) => assert_eq!(e, ExportError::TooManyRows),
        Ok(_) => panic!("a record past the row limit must be refused"),
    }
}

#[test]
fn scenario_two_pages_six_records() {
    let container = |n: &str| {
        format!(
            "<div class=\"gs_ri\"><h3 class=\"gs_rt\"><a href=\"http://example.org/{n}\">Paper {n}</a></h3><div class=\"gs_a\">{n} Author</div></div>"
        )
    };
    let page1 = format!(
        "<html><body>{}{}{}</body></html>",
        container("a"),
        container("b"),
        container("c")
    );
    let page2 = format!(
        "<html><body>{}{}{}</body></html>",
        container("d"),
        container("e"),
        container("f")
    );
    let bodies = vec![Some(page1), Some(page2)];
    let records = collect_bodies(&bodies);
    assert_eq!(records.len(), 6);
    let titles: Vec<&str> = records.iter().map(|r| r.title.as_str()).collect();
    assert_eq!(
        titles,
        vec!["Paper a", "Paper b", "Paper c", "Paper d", "Paper e", "Paper f"]
    );
    let ws = build_worksheet(&records).unwrap();
    let bytes = saved_bytes(ws);
    assert_eq!(&bytes[0..2], b"PK");
}
