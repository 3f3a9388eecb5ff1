use scholar_scrape::collect::page_urls;
use scholar_scrape::percent::percent_decode;
use scholar_scrape::urls::{default_output_path, default_page_count, page_url, push_decimal};

#[test]
fn push_decimal_digits() {
    for (n, s) in [
        (0u64, "0"),
        (7, "7"),
        (10, "10"),
        (120, "120"),
        (1048576, "1048576"),
        (42949672950, "42949672950"),
    ] {
        let mut out: Vec<u8> = Vec::new();
        push_decimal(&mut out, n);
        assert_eq!(out, s.as_bytes().to_vec());
    }
}

#[test]
fn url_of_first_page() {
    let url = page_url(&b"graph neural networks".to_vec(), 0);
    assert_eq!(
        String::from_utf8(url).unwrap(),
        "https://scholar.google.com/scholar?start=0&q=graph%20neural%20networks&hl=en&as_sdt=0,5"
    );
}

#[test]
fn url_start_is_ten_per_page() {
    let url = page_url(&b"x".to_vec(), 3);
    assert_eq!(
        String::from_utf8(url).unwrap(),
        "https://scholar.google.com/scholar?start=30&q=x&hl=en&as_sdt=0,5"
    );
}

#[test]
fn one_url_per_page_in_order() {
    let urls = page_urls(&b"ai".to_vec(), 4);
    assert_eq!(urls.len(), 4);
    for (i, url) in urls.iter().enumerate() {
        let s = String::from_utf8(url.clone()).unwrap();
        assert_eq!(
            s,
            format!("https://scholar.google.com/scholar?start={}&q=ai&hl=en&as_sdt=0,5", 10 * i)
        );
    }
}

#[test]
fn query_parameter_decodes_back() {
    let query = b"100% legit \xc3\xa9tude".to_vec();
    let url = page_url(&query, 2);
    let s = String::from_utf8(url).unwrap();
    let after_q = s.split("&q=").nth(1).unwrap();
    let encoded = after_q.split("&hl=").next().unwrap();
    assert_eq!(percent_decode(&encoded.as_bytes().to_vec()), query);
}

#[test]
fn default_path_appends_extension() {
    assert_eq!(default_output_path("graph neural networks"), "graph neural networks.xlsx");
    assert_eq!(default_output_path(""), ".xlsx");
}

#[test]
fn default_pages_is_one() {
    assert_eq!(default_page_count(), 1);
}
