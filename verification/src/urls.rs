//! Request URLs for the search engine's result pages, and the default
//! output path. A page's URL carries the result offset (`start`, ten results
//! per page), the percent-encoded query (`q`), and fixed locale/filter
//! parameters.

use vstd::prelude::*;
use crate::percent::{percent_encode, percent_encoded};
use vstd::string::StrSliceExecFns;
use vstd::string::StringSliceAdditionalSpecFns;
use vstd::string::StringExecFns;

verus! {

/// Decimal digit bytes of a number, most significant first, no sign and no
/// leading zeros (a lone `0` for zero).
pub open spec fn decimal_digits(n: nat) -> Seq<u8>
    decreases n,
{
    if n < 10 {
        seq![(48 + n) as u8]
    } else {
        decimal_digits(n / 10) + seq![(48 + n % 10) as u8]
    }
}

/// Append the decimal digits of `n` to `out`.
pub fn push_decimal(out: &mut Vec<u8>, n: u64)
    ensures
        final(out)@ == old(out)@ + decimal_digits(n as nat),
    decreases n,
{
    if n < 10 {
        out.push(48 + (n as u8));
        proof {
            assert(out@ =~= old(out)@ + decimal_digits(n as nat));
        }
    } else {
        push_decimal(out, n / 10);
        out.push(48 + ((n % 10) as u8));
        proof {
            assert(out@ =~= old(out)@ + decimal_digits(n as nat));
        }
    }
}

/// The URL of one result page: the fixed endpoint, the `start` offset of
/// `10 * page`, the percent-encoded query, and the fixed trailing
/// parameters.
pub open spec fn request_url(query: Seq<u8>, page: nat) -> Seq<u8> {
    "https://scholar.google.com/scholar?start=".spec_bytes() + decimal_digits(10 * page)
        + "&q=".spec_bytes() + percent_encoded(query) + "&hl=en&as_sdt=0,5".spec_bytes()
}

/// Build the request URL for one result page of a query.
pub fn page_url(query: &Vec<u8>, page: u32) -> (r: Vec<u8>)
    ensures
        r@ == request_url(query@, page as nat),
{
    let mut out = "https://scholar.google.com/scholar?start=".as_bytes_vec();
    push_decimal(&mut out, 10 * (page as u64));
    let mut part = "&q=".as_bytes_vec();
    out.append(&mut part);
    let mut encoded = percent_encode(query);
    out.append(&mut encoded);
    let mut tail = "&hl=en&as_sdt=0,5".as_bytes_vec();
    out.append(&mut tail);
    out
}

/// The output path used when none is given: the query with an `.xlsx`
/// extension.
pub fn default_output_path(query: &str) -> (r: String)
    ensures
        r@ == query@ + ".xlsx"@,
{
    let mut path = query.to_owned();
    path.append(".xlsx");
    path
}

/// The page count used when none is given.
pub fn default_page_count() -> (r: u32)
    ensures
        r == 1,
{
    1
}

} // verus!
