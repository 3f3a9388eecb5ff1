//! Percent-encoding of query bytes, as it appears in the `q` parameter of a
//! request URL: every byte except ASCII alphanumerics and `-`, `_`, `.`, `~`
//! becomes `%` followed by two uppercase hex digits.

use vstd::prelude::*;

verus! {

/// Bytes that are carried through unchanged by percent-encoding.
pub open spec fn is_unreserved(b: u8) -> bool {
    (48 <= b <= 57)  // '0'..='9'
    || (65 <= b <= 90)  // 'A'..='Z'
    || (97 <= b <= 122)  // 'a'..='z'
    || b == 45  // '-'
    || b == 46  // '.'
    || b == 95  // '_'
    || b == 126  // '~'
}

/// The uppercase hex digit for a nibble.
pub open spec fn hex_upper(n: u8) -> u8
    recommends
        n < 16,
{
    if n < 10 {
        (48 + n) as u8
    } else {
        (55 + n) as u8  // 10 -> 'A' (65)
    }
}

/// How one byte is encoded: itself if unreserved, else `%XX`.
pub open spec fn encoded_byte(b: u8) -> Seq<u8> {
    if is_unreserved(b) {
        seq![b]
    } else {
        seq![37u8, hex_upper(b / 16), hex_upper(b % 16)]
    }
}

/// Percent-encoding of a whole byte string.
pub open spec fn percent_encoded(s: Seq<u8>) -> Seq<u8>
    decreases s.len(),
{
    if s.len() == 0 {
        Seq::empty()
    } else {
        encoded_byte(s[0]) + percent_encoded(s.skip(1))
    }
}

/// Numeric value of a hex digit byte, either case.
pub open spec fn hex_value(b: u8) -> u8 {
    if 48 <= b <= 57 {
        (b - 48) as u8
    } else if 65 <= b <= 70 {
        (b - 55) as u8
    } else {
        (b - 87) as u8
    }
}

/// Whether a byte is a hex digit, either case.
pub open spec fn is_hex_digit(b: u8) -> bool {
    (48 <= b <= 57) || (65 <= b <= 70) || (97 <= b <= 102)
}

/// Percent-decoding: each well-formed `%XX` group becomes one byte; any
/// other byte is carried through unchanged.
pub open spec fn percent_decoded(s: Seq<u8>) -> Seq<u8>
    decreases s.len(),
{
    if s.len() == 0 {
        Seq::empty()
    } else if s[0] == 37 && s.len() >= 3 && is_hex_digit(s[1]) && is_hex_digit(s[2]) {
        seq![(16 * hex_value(s[1]) + hex_value(s[2])) as u8] + percent_decoded(s.skip(3))
    } else {
        seq![s[0]] + percent_decoded(s.skip(1))
    }
}

/// Encoding distributes over concatenation.
pub proof fn lemma_percent_encoded_append(a: Seq<u8>, b: Seq<u8>)
    ensures
        percent_encoded(a + b) == percent_encoded(a) + percent_encoded(b),
    decreases a.len(),
{
    if a.len() == 0 {
        assert(a + b =~= b);
        assert(percent_encoded(a) + percent_encoded(b) =~= percent_encoded(b));
    } else {
        assert((a + b).skip(1) =~= a.skip(1) + b);
        lemma_percent_encoded_append(a.skip(1), b);
        assert(percent_encoded(a + b) =~= percent_encoded(a) + percent_encoded(b));
    }
}

/// Decoding recovers every encoded byte string: the round trip is the
/// identity, for any sequence of query bytes.
pub proof fn lemma_percent_round_trip(s: Seq<u8>)
    ensures
        percent_decoded(percent_encoded(s)) == s,
    decreases s.len(),
{
    if s.len() == 0 {
        assert(percent_decoded(percent_encoded(s)) =~= s);
    } else {
        let b = s[0];
        let rest = percent_encoded(s.skip(1));
        lemma_percent_round_trip(s.skip(1));
        if is_unreserved(b) {
            let e = seq![b] + rest;
            assert(percent_encoded(s) =~= e);
            assert(b != 37);
            if e[0] == 37 && e.len() >= 3 && is_hex_digit(e[1]) && is_hex_digit(e[2]) {
                assert(false);
            }
            assert(e.skip(1) =~= rest);
            assert(percent_decoded(e) =~= seq![b] + percent_decoded(rest));
            assert(seq![b] + s.skip(1) =~= s);
        } else {
            let hi = hex_upper(b / 16);
            let lo = hex_upper(b % 16);
            let e = seq![37u8, hi, lo] + rest;
            assert(percent_encoded(s) =~= e);
            assert(e[0] == 37 && e.len() >= 3);
            assert(is_hex_digit(hi) && is_hex_digit(lo));
            assert(hex_value(hi) == b / 16 && hex_value(lo) == b % 16);
            assert(16 * (b / 16) + b % 16 == b) by (nonlinear_arith);
            assert(e.skip(3) =~= rest);
            assert(percent_decoded(e) =~= seq![b] + percent_decoded(rest));
            assert(seq![b] + s.skip(1) =~= s);
        }
    }
}

/// A single byte's encoding, as `percent_encoded` sees it.
proof fn lemma_percent_encoded_singleton(b: u8)
    ensures
        percent_encoded(seq![b]) == encoded_byte(b),
{
    assert(seq![b].len() == 1);
    assert(seq![b][0] == b);
    assert(percent_encoded(seq![b]) == encoded_byte(seq![b][0]) + percent_encoded(
        seq![b].skip(1),
    ));
    assert(seq![b].skip(1) =~= Seq::<u8>::empty());
    assert(encoded_byte(b) + Seq::<u8>::empty() =~= encoded_byte(b));
    assert(percent_encoded(seq![b]) =~= encoded_byte(b));
}

/// Percent-encode a byte string.
pub fn percent_encode(s: &Vec<u8>) -> (r: Vec<u8>)
    ensures
        r@ == percent_encoded(s@),
{
    let mut out: Vec<u8> = Vec::new();
    let mut i: usize = 0;
    while i < s.len()
        invariant
            i <= s.len(),
            out@ == percent_encoded(s@.take(i as int)),
        decreases s.len() - i,
    {
        let b = s[i];
        proof {
            assert(s@.take(i as int).push(b) =~= s@.take(i + 1));
            assert(s@.take(i as int).push(b) =~= s@.take(i as int) + seq![b]);
            lemma_percent_encoded_append(s@.take(i as int), seq![b]);
            lemma_percent_encoded_singleton(b);
        }
        if (48 <= b && b <= 57) || (65 <= b && b <= 90) || (97 <= b && b <= 122) || b == 45
            || b == 46 || b == 95 || b == 126 {
            out.push(b);
        } else {
            out.push(37);
            let hi = b / 16;
            let lo = b % 16;
            out.push(if hi < 10 { 48 + hi } else { 55 + hi });
            out.push(if lo < 10 { 48 + lo } else { 55 + lo });
        }
        i = i + 1;
    }
    proof {
        assert(s@.take(s@.len() as int) =~= s@);
    }
    out
}

/// Whether a byte is a hex digit, either case.
fn hex_digit_check(b: u8) -> (r: bool)
    ensures
        r == is_hex_digit(b),
{
    (48 <= b && b <= 57) || (65 <= b && b <= 70) || (97 <= b && b <= 102)
}

/// Numeric value of a hex digit byte.
fn hex_digit_value(b: u8) -> (r: u8)
    requires
        is_hex_digit(b),
    ensures
        r == hex_value(b),
{
    if 48 <= b && b <= 57 {
        b - 48
    } else if 65 <= b && b <= 70 {
        b - 55
    } else {
        b - 87
    }
}

/// Percent-decode a byte string.
pub fn percent_decode(s: &Vec<u8>) -> (r: Vec<u8>)
    ensures
        r@ == percent_decoded(s@),
{
    let mut out: Vec<u8> = Vec::new();
    let mut i: usize = 0;
    proof {
        assert(s@.skip(0) =~= s@);
        assert(Seq::<u8>::empty() + percent_decoded(s@) =~= percent_decoded(s@));
    }
    while i < s.len()
        invariant
            i <= s.len(),
            percent_decoded(s@) == out@ + percent_decoded(s@.skip(i as int)),
        decreases s.len() - i,
    {
        let ghost tail = s@.skip(i as int);
        let b = s[i];
        proof {
            assert(tail[0] == b);
        }
        if b == 37 && s.len() - i >= 3 && hex_digit_check(s[i + 1]) && hex_digit_check(
            s[i + 2],
        ) {
            proof {
                assert(tail[1] == s@[i + 1] && tail[2] == s@[i + 2]);
                assert(tail.skip(3) =~= s@.skip(i + 3));
            }
            let v = 16 * hex_digit_value(s[i + 1]) + hex_digit_value(s[i + 2]);
            out.push(v);
            proof {
                assert(out@ + percent_decoded(s@.skip(i + 3)) =~= (out@.drop_last() + (seq![v]
                    + percent_decoded(tail.skip(3)))));
            }
            i = i + 3;
        } else {
            proof {
                assert(tail.skip(1) =~= s@.skip(i + 1));
                assert(!(tail[0] == 37 && tail.len() >= 3 && is_hex_digit(tail[1])
                    && is_hex_digit(tail[2])));
            }
            out.push(b);
            proof {
                assert(out@ + percent_decoded(s@.skip(i + 1)) =~= (out@.drop_last() + (seq![b]
                    + percent_decoded(tail.skip(1)))));
            }
            i = i + 1;
        }
    }
    proof {
        assert(s@.skip(s@.len() as int) =~= Seq::<u8>::empty());
        assert(out@ + Seq::<u8>::empty() =~= out@);
    }
    out
}

} // verus!
