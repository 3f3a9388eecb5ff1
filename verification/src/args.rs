//! The page-count argument: a decimal numeral, with an optional leading
//! `+`, whose value fits the page counter. Anything else is a fatal input
//! error reported before any page is fetched.

use vstd::prelude::*;
use vstd::string::StrSliceExecFns;
use vstd::string::StringSliceAdditionalSpecFns;

verus! {

/// Whether a byte is an ASCII decimal digit.
pub open spec fn is_digit(b: u8) -> bool {
    48 <= b <= 57
}

/// The digit part of the argument: the whole text, or what follows a single
/// leading `+`.
pub open spec fn digits_part(s: Seq<u8>) -> Seq<u8> {
    if s.len() > 0 && s[0] == 43 {
        s.skip(1)
    } else {
        s
    }
}

/// Whether every byte is a decimal digit.
pub open spec fn all_digits(s: Seq<u8>) -> bool {
    forall|i: int| 0 <= i < s.len() ==> is_digit(#[trigger] s[i])
}

/// The value of a digit string, most significant digit first.
pub open spec fn digits_value(s: Seq<u8>) -> nat
    recommends
        all_digits(s),
    decreases s.len(),
{
    if s.len() == 0 {
        0
    } else {
        (digits_value(s.drop_last()) * 10 + (s.last() - 48)) as nat
    }
}

/// A longer digit string never has a smaller value.
proof fn lemma_digits_value_prefix(s: Seq<u8>, k: int)
    requires
        0 <= k <= s.len(),
        all_digits(s),
    ensures
        digits_value(s.take(k)) <= digits_value(s),
    decreases s.len() - k,
{
    if k == s.len() {
        assert(s.take(k) =~= s);
    } else {
        assert(s.take(k + 1).drop_last() =~= s.take(k));
        assert(s.take(k + 1).last() == s[k]);
        assert(is_digit(s[k]));
        assert(digits_value(s.take(k + 1)) >= digits_value(s.take(k)));
        lemma_digits_value_prefix(s, k + 1);
    }
}

/// Whether a digit part names a page count: non-empty, all digits, and in
/// range of the page counter.
pub open spec fn valid_pages(d: Seq<u8>) -> bool {
    d.len() > 0 && all_digits(d) && digits_value(d) <= u32::MAX
}

/// Why a page-count argument was rejected.
#[derive(Debug, PartialEq, Eq, Structural)]
pub enum PagesError {
    /// No digits: the text is empty, or a lone `+`.
    Empty,
    /// A byte of the digit part is no decimal digit.
    NonDigit,
    /// The value does not fit the page counter.
    TooLarge,
}

/// Parse the page-count argument: the value of its digit part, when that
/// part is non-empty, all digits, and in range; the exact reason otherwise.
pub fn parse_pages(s: &str) -> (r: Result<u32, PagesError>)
    ensures
        r matches Ok(n) ==> n == digits_value(digits_part(s.spec_bytes())),
        r is Ok <==> valid_pages(digits_part(s.spec_bytes())),
        r == Result::<u32, PagesError>::Err(PagesError::Empty) <==> digits_part(
            s.spec_bytes(),
        ).len() == 0,
        r == Result::<u32, PagesError>::Err(PagesError::NonDigit) <==> digits_part(
            s.spec_bytes(),
        ).len() > 0 && !all_digits(digits_part(s.spec_bytes())),
        r == Result::<u32, PagesError>::Err(PagesError::TooLarge) <==> digits_part(
            s.spec_bytes(),
        ).len() > 0 && all_digits(digits_part(s.spec_bytes())) && digits_value(
            digits_part(s.spec_bytes()),
        ) > u32::MAX,
{
    let v = s.as_bytes_vec();
    let ghost d = digits_part(s.spec_bytes());
    let start: usize = if v.len() > 0 && v[0] == 43 {
        1
    } else {
        0
    };
    proof {
        if start == 0 {
            assert(d =~= v@.skip(0));
        }
        assert(d =~= v@.skip(start as int));
    }
    if v.len() == start {
        return Err(PagesError::Empty);
    }
    let mut i: usize = start;
    while i < v.len()
        invariant
            start <= i <= v.len(),
            v@ == s.spec_bytes(),
            d == v@.skip(start as int),
            d == digits_part(s.spec_bytes()),
            forall|j: int| start <= j < i ==> is_digit(#[trigger] v@[j]),
        decreases v.len() - i,
    {
        let b = v[i];
        if !(48 <= b && b <= 57) {
            proof {
                assert(d.len() == v@.len() - start);
                assert(d.len() > 0);
                assert(d[i - start] == v@[i as int]);
                assert(!all_digits(d));
            }
            return Err(PagesError::NonDigit);
        }
        i = i + 1;
    }
    proof {
        assert(forall|k: int| 0 <= k < d.len() ==> #[trigger] d[k] == v@[k + start]);
        assert(all_digits(d));
    }
    let mut acc: u64 = 0;
    let mut i: usize = start;
    while i < v.len()
        invariant
            start <= i <= v.len(),
            v@ == s.spec_bytes(),
            d == v@.skip(start as int),
            d == digits_part(s.spec_bytes()),
            all_digits(d),
            d.len() == v@.len() - start,
            acc == digits_value(d.take(i - start)),
            acc <= u32::MAX,
        decreases v.len() - i,
    {
        let ghost k = i - start;
        proof {
            assert(d.take(k + 1).drop_last() =~= d.take(k));
            assert(d.take(k + 1).last() == d[k]);
            assert(d[k] == v@[i as int]);
        }
        let b = v[i];
        let next: u64 = acc * 10 + ((b - 48) as u64);
        if next > 0xFFFF_FFFF {
            proof {
                assert(d.len() > 0);
                lemma_digits_value_prefix(d, k + 1);
                assert(digits_value(d) > u32::MAX);
            }
            return Err(PagesError::TooLarge);
        }
        acc = next;
        i = i + 1;
    }
    proof {
        assert(d.take(v@.len() - start) =~= d);
    }
    Ok(acc as u32)
}

} // verus!
