use scholar_scrape::percent::{percent_decode, percent_encode};

fn enc(s: &[u8]) -> Vec<u8> {
    percent_encode(&s.to_vec())
}

fn dec(s: &[u8]) -> Vec<u8> {
    percent_decode(&s.to_vec())
}

#[test]
fn encode_spaces() {
    assert_eq!(enc(b"graph neural networks"), b"graph%20neural%20networks".to_vec());
}

#[test]
fn encode_unreserved_passthrough() {
    assert_eq!(enc(b"AZaz09-_.~"), b"AZaz09-_.~".to_vec());
}

#[test]
fn encode_reserved_and_high_bytes() {
    assert_eq!(enc(b"a/b?c=d&e"), b"a%2Fb%3Fc%3Dd%26e".to_vec());
    assert_eq!(enc(&[0x00, 0x0F, 0xFF]), b"%00%0F%FF".to_vec());
    assert_eq!(enc(b"%"), b"%25".to_vec());
}

#[test]
fn encode_empty() {
    assert_eq!(enc(b""), b"".to_vec());
}

#[test]
fn encode_matches_urlencoding_crate() {
    for s in ["graph neural networks", "a/b?c=d&e+f", "caf\u{e9} au lait", "100% \u{2764}"] {
        let expected = urlencoding::encode(s).into_owned().into_bytes();
        assert_eq!(enc(s.as_bytes()), expected);
    }
}

#[test]
fn decode_groups_and_leftovers() {
    assert_eq!(dec(b"%41"), b"A".to_vec());
    assert_eq!(dec(b"%41%62"), b"Ab".to_vec());
    // lowercase hex digits are accepted
    assert_eq!(dec(b"%4f"), b"O".to_vec());
    // malformed groups are carried through unchanged
    assert_eq!(dec(b"%GG"), b"%GG".to_vec());
    assert_eq!(dec(b"%4"), b"%4".to_vec());
    assert_eq!(dec(b"abc"), b"abc".to_vec());
}

#[test]
fn round_trip_all_bytes() {
    let every: Vec<u8> = (0u8..=255).collect();
    assert_eq!(percent_decode(&percent_encode(&every)), every);
}

#[test]
fn round_trip_query() {
    let q = b"graph neural networks".to_vec();
    assert_eq!(percent_decode(&percent_encode(&q)), q);
}
