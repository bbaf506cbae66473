//! Character and string groundwork: equality of string slices, decimal
//! rendering of integers, whitespace tokenization and integer-token parsing.

use vstd::prelude::*;

verus! {

/// The whitespace characters recognized when badge text is split into
/// tokens: the Unicode `White_Space` set, as Rust's whitespace splitting
/// uses it — the ASCII whitespace characters, next line, no-break space,
/// Ogham space mark, the typographic spaces, the line and paragraph
/// separators, narrow no-break space, medium mathematical space and
/// ideographic space.
pub open spec fn is_space_char(c: char) -> bool {
    c == '\u{09}' || c == '\u{0a}' || c == '\u{0b}' || c == '\u{0c}' || c == '\u{0d}' || c == ' '
        || c == '\u{85}' || c == '\u{a0}' || c == '\u{1680}' || ('\u{2000}' <= c && c
        <= '\u{200a}') || c == '\u{2028}' || c == '\u{2029}' || c == '\u{202f}' || c == '\u{205f}'
        || c == '\u{3000}'
}

pub fn space_char(c: char) -> (r: bool)
    ensures
        r == is_space_char(c),
{
    c == '\u{09}' || c == '\u{0a}' || c == '\u{0b}' || c == '\u{0c}' || c == '\u{0d}' || c == ' '
        || c == '\u{85}' || c == '\u{a0}' || c == '\u{1680}' || ('\u{2000}' <= c && c
        <= '\u{200a}') || c == '\u{2028}' || c == '\u{2029}' || c == '\u{202f}' || c == '\u{205f}'
        || c == '\u{3000}'
}

/// A decimal digit.
pub open spec fn is_digit_char(c: char) -> bool {
    '0' <= c && c <= '9'
}

pub fn digit_char_test(c: char) -> (r: bool)
    ensures
        r == is_digit_char(c),
{
    '0' <= c && c <= '9'
}

/// The numeric value of a decimal digit.
pub open spec fn digit_val(c: char) -> int {
    c as int - '0' as int
}

/// The digit character for a value below ten.
pub open spec fn spec_digit_char(d: int) -> char {
    (('0' as int + d) as char)
}

/// Relies on std's `String::push`: appends the given character to the end
/// of the string.
#[verifier::external_body]
pub(crate) fn push_char(s: &mut String, c: char)
    ensures
        final(s)@ == old(s)@.push(c),
{
    s.push(c);
}

/// The decimal digits of a number, most significant first, without sign
/// and without leading zeros (a lone zero for zero itself).
pub open spec fn spec_u64_digits(n: nat) -> Seq<char>
    decreases n,
{
    if n < 10 {
        seq![spec_digit_char(n as int)]
    } else {
        spec_u64_digits(n / 10).push(spec_digit_char((n % 10) as int))
    }
}

/// The decimal rendering of a possibly negative number: a minus sign
/// followed by the digits of its magnitude.
pub open spec fn spec_int_string(v: int) -> Seq<char> {
    if v < 0 {
        seq!['-'] + spec_u64_digits((-v) as nat)
    } else {
        spec_u64_digits(v as nat)
    }
}

fn digit_char(d: u64) -> (c: char)
    requires
        d < 10,
    ensures
        c == spec_digit_char(d as int),
{
    (48 + d as u8) as char
}

pub fn u64_to_string(n: u64) -> (s: String)
    ensures
        s@ == spec_u64_digits(n as nat),
    decreases n,
{
    if n < 10 {
        let mut s = String::new();
        push_char(&mut s, digit_char(n));
        s
    } else {
        let mut s = u64_to_string(n / 10);
        push_char(&mut s, digit_char(n % 10));
        s
    }
}

pub fn i32_to_string(v: i32) -> (s: String)
    ensures
        s@ == spec_int_string(v as int),
{
    if v >= 0 {
        u64_to_string(v as u64)
    } else {
        let mag: u64 = (-(v as i64)) as u64;
        let mut s = String::new();
        push_char(&mut s, '-');
        let digits = u64_to_string(mag);
        s.append(digits.as_str());
        proof {
            assert(s@ =~= spec_int_string(v as int));
        }
        s
    }
}

/// Equality of two string slices, decided character by character.
pub fn str_eq(a: &str, b: &str) -> (r: bool)
    ensures
        r == (a@ == b@),
{
    let alen = a.unicode_len();
    let blen = b.unicode_len();
    if alen != blen {
        return false;
    }
    let mut i: usize = 0;
    while i < alen
        invariant
            alen == a@.len(),
            blen == b@.len(),
            alen == blen,
            i <= alen,
            forall|j: int| 0 <= j < i ==> a@[j] == b@[j],
        decreases alen - i,
    {
        if a.get_char(i) != b.get_char(i) {
            return false;
        }
        i = i + 1;
    }
    proof {
        assert(a@ =~= b@);
    }
    true
}

/// One pass of whitespace splitting: `cur` is the token being read,
/// `acc` the tokens already complete. Every maximal run of non-space
/// characters becomes one token.
pub open spec fn spec_tokens_acc(s: Seq<char>, cur: Seq<char>, acc: Seq<Seq<char>>) -> Seq<
    Seq<char>,
>
    decreases s.len(),
{
    if s.len() == 0 {
        if cur.len() == 0 {
            acc
        } else {
            acc.push(cur)
        }
    } else if is_space_char(s[0]) {
        if cur.len() == 0 {
            spec_tokens_acc(s.drop_first(), cur, acc)
        } else {
            spec_tokens_acc(s.drop_first(), Seq::empty(), acc.push(cur))
        }
    } else {
        spec_tokens_acc(s.drop_first(), cur.push(s[0]), acc)
    }
}

/// The whitespace-delimited tokens of a string.
pub open spec fn spec_tokens(s: Seq<char>) -> Seq<Seq<char>> {
    spec_tokens_acc(s, Seq::empty(), Seq::empty())
}

/// Splits a string on whitespace.
pub fn split_tokens(s: &str) -> (toks: Vec<String>)
    ensures
        toks.deep_view() == spec_tokens(s@),
{
    let n = s.unicode_len();
    let mut acc: Vec<String> = Vec::new();
    let mut cur = String::new();
    let mut i: usize = 0;
    proof {
        assert(s@.skip(0) =~= s@);
        assert(acc.deep_view() =~= Seq::<Seq<char>>::empty());
    }
    while i < n
        invariant
            i <= n,
            n == s@.len(),
            spec_tokens(s@) == spec_tokens_acc(s@.skip(i as int), cur@, acc.deep_view()),
        decreases n - i,
    {
        let ghost pre_acc = acc.deep_view();
        let ghost pre_cur = cur@;
        let c = s.get_char(i);
        proof {
            assert(s@.skip(i as int).len() > 0);
            assert(s@.skip(i as int)[0] == c);
            assert(s@.skip(i as int).drop_first() =~= s@.skip(i as int + 1));
        }
        if space_char(c) {
            if !cur.as_str().is_empty() {
                acc.push(cur);
                cur = String::new();
                proof {
                    assert(acc.deep_view() =~= pre_acc.push(pre_cur));
                }
            }
        } else {
            push_char(&mut cur, c);
        }
        i = i + 1;
    }
    proof {
        assert(s@.skip(n as int) =~= Seq::<char>::empty());
    }
    if !cur.as_str().is_empty() {
        let ghost pre_acc = acc.deep_view();
        let ghost pre_cur = cur@;
        acc.push(cur);
        proof {
            assert(acc.deep_view() =~= pre_acc.push(pre_cur));
        }
    }
    acc
}

/// The value of a digit string, most significant digit first.
pub open spec fn spec_dec_value(s: Seq<char>) -> int
    decreases s.len(),
{
    if s.len() == 0 {
        0
    } else {
        spec_dec_value(s.drop_last()) * 10 + digit_val(s.last())
    }
}

pub open spec fn all_digits(s: Seq<char>) -> bool {
    forall|i: int| 0 <= i < s.len() ==> is_digit_char(s[i])
}

/// The token with a leading sign removed.
pub open spec fn spec_unsigned_part(t: Seq<char>) -> Seq<char> {
    if t.len() > 0 && (t[0] == '+' || t[0] == '-') {
        t.drop_first()
    } else {
        t
    }
}

pub open spec fn spec_token_negative(t: Seq<char>) -> bool {
    t.len() > 0 && t[0] == '-'
}

/// What parsing a token as a 32-bit signed integer yields: an optional
/// sign followed by one or more decimal digits, rejected when the value
/// lies outside the 32-bit signed range.
pub open spec fn spec_int_token_value(t: Seq<char>) -> Option<int> {
    let mag = spec_unsigned_part(t);
    if mag.len() == 0 || !all_digits(mag) {
        None
    } else {
        let v = if spec_token_negative(t) {
            -spec_dec_value(mag)
        } else {
            spec_dec_value(mag)
        };
        if -0x8000_0000 <= v <= 0x7fff_ffff {
            Some(v)
        } else {
            None
        }
    }
}

proof fn lemma_dec_value_nonneg(s: Seq<char>)
    requires
        all_digits(s),
    ensures
        spec_dec_value(s) >= 0,
    decreases s.len(),
{
    if s.len() > 0 {
        lemma_dec_value_nonneg(s.drop_last());
    }
}

/// Extending a digit string can only grow its value.
proof fn lemma_dec_value_prefix_le(s: Seq<char>, i: int)
    requires
        all_digits(s),
        0 <= i <= s.len(),
    ensures
        spec_dec_value(s.take(i)) <= spec_dec_value(s),
    decreases s.len() - i,
{
    if i < s.len() {
        lemma_dec_value_prefix_le(s, i + 1);
        assert(s.take(i + 1).drop_last() =~= s.take(i));
        lemma_dec_value_nonneg(s.take(i));
        assert(spec_dec_value(s.take(i + 1)) == spec_dec_value(s.take(i)) * 10 + digit_val(
            s.take(i + 1).last(),
        ));
        assert(spec_dec_value(s.take(i)) * 10 >= spec_dec_value(s.take(i))) by (nonlinear_arith)
            requires
                spec_dec_value(s.take(i)) >= 0,
        ;
    } else {
        assert(s.take(i) =~= s);
    }
}

/// Parses a token exactly as a 32-bit signed integer parse does.
#[verifier::loop_isolation(false)]
pub fn parse_i32_token(t: &str) -> (r: Option<i32>)
    ensures
        r is Some <==> spec_int_token_value(t@) is Some,
        r matches Some(x) ==> spec_int_token_value(t@) == Some(x as int),
{
    let n = t.unicode_len();
    if n == 0 {
        return None;
    }
    let c0 = t.get_char(0);
    let neg = c0 == '-';
    let start: usize = if c0 == '-' || c0 == '+' {
        1
    } else {
        0
    };
    let ghost mag = spec_unsigned_part(t@);
    proof {
        assert(mag =~= t@.skip(start as int));
    }
    if start == n {
        return None;
    }
    let mut i: usize = start;
    let mut acc: u64 = 0;
    while i < n
        invariant
            start <= i <= n,
            n == t@.len(),
            mag =~= t@.skip(start as int),
            all_digits(mag.take(i - start)),
            acc == spec_dec_value(mag.take(i - start)),
            acc <= 0x8000_0000,
        decreases n - i,
    {
        let c = t.get_char(i);
        proof {
            assert(t@.skip(start as int)[i - start] == t@[i as int]);
            assert(mag[i - start] == c);
        }
        if !digit_char_test(c) {
            assert(!all_digits(mag));
            return None;
        }
        let d: u64 = (c as u32 - 48) as u64;
        let next: u64 = acc * 10 + d;
        proof {
            assert(mag.take(i - start + 1).drop_last() =~= mag.take(i - start));
            assert(mag.take(i - start + 1).last() == c);
            assert(spec_dec_value(mag.take(i - start + 1)) == next);
        }
        if next > 0x8000_0000 {
            // Any further digits could only grow the magnitude, so the
            // value is out of range whatever the sign.
            proof {
                if all_digits(mag) {
                    lemma_dec_value_prefix_le(mag, i - start + 1);
                    assert(spec_dec_value(mag) >= next);
                    assert(spec_int_token_value(t@) is None);
                } else {
                    assert(spec_int_token_value(t@) is None);
                }
            }
            return None;
        }
        acc = next;
        i = i + 1;
    }
    proof {
        assert(mag.take(n - start) =~= mag);
    }
    if neg {
        let v: i64 = -(acc as i64);
        Some(v as i32)
    } else {
        if acc > 0x7fff_ffff {
            return None;
        }
        Some(acc as i32)
    }
}

/// The value of the first token that parses as a 32-bit signed integer.
pub open spec fn spec_first_int_token(toks: Seq<Seq<char>>) -> Option<int>
    decreases toks.len(),
{
    if toks.len() == 0 {
        None
    } else if spec_int_token_value(toks[0]) is Some {
        spec_int_token_value(toks[0])
    } else {
        spec_first_int_token(toks.drop_first())
    }
}

/// Finds the first token that parses as a 32-bit signed integer.
pub fn first_int_token(toks: &Vec<String>) -> (r: Option<i32>)
    ensures
        r is Some <==> spec_first_int_token(toks.deep_view()) is Some,
        r matches Some(x) ==> spec_first_int_token(toks.deep_view()) == Some(x as int),
{
    let ghost dv = toks.deep_view();
    let mut i: usize = 0;
    proof {
        assert(dv.skip(0) =~= dv);
    }
    while i < toks.len()
        invariant
            i <= toks.len(),
            dv == toks.deep_view(),
            dv.len() == toks.len(),
            spec_first_int_token(dv) == spec_first_int_token(dv.skip(i as int)),
        decreases toks.len() - i,
    {
        proof {
            assert(dv.skip(i as int)[0] == dv[i as int]);
            assert(dv.skip(i as int).drop_first() =~= dv.skip(i as int + 1));
        }
        match parse_i32_token(toks[i].as_str()) {
            Some(x) => {
                return Some(x);
            },
            None => {},
        }
        i = i + 1;
    }
    proof {
        assert(dv.skip(toks.len() as int) =~= Seq::<Seq<char>>::empty());
    }
    None
}

} // verus!
