//! The seller identifier in a storefront URL: the digits after the first
//! `/seller/` that is followed by at least one digit, or a fixed
//! placeholder when the URL has none. Used for naming the output file.

use vstd::prelude::*;
use crate::text::{is_digit_char, digit_char_test, push_char};

verus! {

/// The literal path piece that precedes a seller identifier.
pub open spec fn spec_seller_pat() -> Seq<char> {
    seq!['/', 's', 'e', 'l', 'l', 'e', 'r', '/']
}

/// Whether position `i` starts `/seller/` followed by a digit.
pub open spec fn spec_seller_match_at(s: Seq<char>, i: int) -> bool {
    &&& 0 <= i
    &&& i + 8 < s.len()
    &&& s.subrange(i, i + 8) == spec_seller_pat()
    &&& is_digit_char(s[i + 8])
}

/// The first position from `i` on where a seller identifier starts.
pub open spec fn spec_first_seller_match(s: Seq<char>, i: int) -> Option<int>
    decreases s.len() - i,
{
    if i + 8 >= s.len() {
        None
    } else if spec_seller_match_at(s, i) {
        Some(i)
    } else {
        spec_first_seller_match(s, i + 1)
    }
}

/// The maximal run of digits starting at `j`.
pub open spec fn spec_digit_run(s: Seq<char>, j: int) -> Seq<char>
    decreases s.len() - j,
{
    if 0 <= j < s.len() && is_digit_char(s[j]) {
        seq![s[j]] + spec_digit_run(s, j + 1)
    } else {
        Seq::empty()
    }
}

/// The seller identifier of a URL: the digits after the leftmost
/// `/seller/` that at least one digit follows, or `unknown_seller`.
pub open spec fn spec_seller_id(s: Seq<char>) -> Seq<char> {
    match spec_first_seller_match(s, 0) {
        None => "unknown_seller"@,
        Some(i) => spec_digit_run(s, i + 8),
    }
}

/// Whether position `i` starts `/seller/` followed by a digit.
#[verifier::loop_isolation(false)]
fn seller_match_at(s: &str, n: usize, i: usize) -> (r: bool)
    requires
        n == s@.len(),
        i + 8 < n,
    ensures
        r == spec_seller_match_at(s@, i as int),
{
    let r = s.get_char(i) == '/' && s.get_char(i + 1) == 's' && s.get_char(i + 2) == 'e'
        && s.get_char(i + 3) == 'l' && s.get_char(i + 4) == 'l' && s.get_char(i + 5) == 'e'
        && s.get_char(i + 6) == 'r' && s.get_char(i + 7) == '/' && digit_char_test(
        s.get_char(i + 8),
    );
    proof {
        if r {
            assert(s@.subrange(i as int, i + 8) =~= spec_seller_pat());
        } else {
            if s@.subrange(i as int, i + 8) == spec_seller_pat() {
                assert(forall|k: int|
                    0 <= k < 8 ==> s@.subrange(i as int, i + 8)[k] == spec_seller_pat()[k]);
            }
        }
    }
    r
}

/// Extracts the seller identifier from a storefront URL.
#[verifier::loop_isolation(false)]
pub fn extract_seller_id(url: &str) -> (r: String)
    ensures
        r@ == spec_seller_id(url@),
{
    let n = url.unicode_len();
    if n >= 9 {
        let mut i: usize = 0;
        while i + 8 < n
            invariant
                i + 8 <= n,
                spec_first_seller_match(url@, 0) == spec_first_seller_match(url@, i as int),
            decreases n - i,
        {
            if seller_match_at(url, n, i) {
                let mut digits = String::new();
                let mut j: usize = i + 8;
                while j < n && digit_char_test(url.get_char(j))
                    invariant
                        i + 8 <= j <= n,
                        digits@ + spec_digit_run(url@, j as int) == spec_digit_run(
                            url@,
                            i + 8,
                        ),
                    decreases n - j,
                {
                    let ghost pre = digits@;
                    push_char(&mut digits, url.get_char(j));
                    proof {
                        assert(pre + spec_digit_run(url@, j as int) =~= pre + (seq![url@[j as int]]
                            + spec_digit_run(url@, j as int + 1)));
                        assert(digits@ + spec_digit_run(url@, j as int + 1) =~= pre + (seq![url@[j as int]]
                            + spec_digit_run(url@, j as int + 1)));
                    }
                    j = j + 1;
                }
                proof {
                    assert(spec_digit_run(url@, j as int) =~= Seq::<char>::empty());
                    assert(digits@ =~= spec_digit_run(url@, i + 8));
                }
                return digits;
            }
            i = i + 1;
        }
    }
    String::from_str("unknown_seller")
}

} // verus!
