//! Rating components as whole hundredths of a point: reading them from the
//! portal's cell texts and rendering them and their differences.
use vstd::prelude::*;
use crate::text::{push_decimal, digit_of, string_of, chars_of, trim_bounds, trimmed, is_digit, digit_value, digit_char, decimal};

verus! {

/// Largest number of digits before the decimal point that a portal value may have.
pub const MAX_INT_DIGITS: usize = 6;

/// The largest score a valid portal value can denote, in hundredths.
pub const MAX_SCORE: i64 = 99_999_999;

pub open spec fn pow10(n: nat) -> nat
    decreases n,
{
    if n == 0 { 1 } else { 10 * pow10((n - 1) as nat) }
}

pub open spec fn all_digits(s: Seq<char>) -> bool {
    forall|i: int| 0 <= i < s.len() ==> is_digit(#[trigger] s[i])
}

/// The number written by the decimal digits `s`.
pub open spec fn digits_val(s: Seq<char>) -> nat
    decreases s.len(),
{
    if s.len() == 0 {
        0
    } else {
        digits_val(s.drop_last()) * 10 + digit_value(s.last()) as nat
    }
}

/// An integer part as the portal writes it: one to six digits.
pub open spec fn is_int_part(s: Seq<char>) -> bool {
    1 <= s.len() <= MAX_INT_DIGITS && all_digits(s)
}

/// The value in hundredths of an unpadded portal number: digits, optionally
/// followed by a point and one or two digits.
pub open spec fn plain_score(t: Seq<char>) -> Option<int> {
    let ni = t.len() as int;
    if is_int_part(t) {
        Some((digits_val(t) * 100) as int)
    } else if ni >= 3 && t[ni - 2] == '.' && is_int_part(t.subrange(0, ni - 2)) && is_digit(t[ni - 1]) {
        Some(digits_val(t.subrange(0, ni - 2)) * 100 + digit_value(t[ni - 1]) * 10)
    } else if ni >= 4 && t[ni - 3] == '.' && is_int_part(t.subrange(0, ni - 3))
        && all_digits(t.subrange(ni - 2, ni)) {
        Some((digits_val(t.subrange(0, ni - 3)) * 100 + digits_val(t.subrange(ni - 2, ni))) as int)
    } else {
        None
    }
}

/// The value in hundredths that a cell text denotes, whitespace around it ignored.
pub open spec fn score_of(s: Seq<char>) -> Option<int> {
    plain_score(trimmed(s))
}

/// The digits after the point of a value's rendering, trailing zeros dropped.
pub open spec fn fraction_text(f: int) -> Seq<char> {
    if f == 0 {
        Seq::empty()
    } else if f % 10 == 0 {
        seq!['.', digit_char(f / 10)]
    } else {
        seq!['.', digit_char(f / 10), digit_char(f % 10)]
    }
}

/// The rendering of a non-negative value given in hundredths: `12`, `12.5`, `0.25`.
pub open spec fn score_text(v: nat) -> Seq<char> {
    decimal(v / 100) + fraction_text((v % 100) as int)
}

/// The rendering of a signed difference: `+3`, `-0.5`, `0`.
pub open spec fn delta_text(d: int) -> Seq<char> {
    if d > 0 {
        seq!['+'] + score_text(d as nat)
    } else if d < 0 {
        seq!['-'] + score_text((-d) as nat)
    } else {
        score_text(0)
    }
}

proof fn lemma_pow10_mono(a: nat, b: nat)
    requires
        a <= b,
    ensures
        pow10(a) <= pow10(b),
    decreases b,
{
    if a < b {
        lemma_pow10_mono(a, (b - 1) as nat);
    }
}

/// The value of the digits `v[lo..hi]`, if all of them are digits.
fn read_digits(v: &Vec<char>, lo: usize, hi: usize) -> (r: Option<u64>)
    requires
        lo <= hi <= v@.len(),
        hi - lo <= MAX_INT_DIGITS,
    ensures
        r is Some <==> all_digits(v@.subrange(lo as int, hi as int)),
        r is Some ==> r->0 == digits_val(v@.subrange(lo as int, hi as int)),
        r is Some ==> r->0 < pow10((hi - lo) as nat),
{
    let mut i: usize = lo;
    let mut acc: u64 = 0;
    proof {
        reveal_with_fuel(pow10, 7);
        lemma_pow10_mono((hi - lo) as nat, 6);
        assert(v@.subrange(lo as int, lo as int) =~= Seq::<char>::empty());
    }
    while i < hi
        invariant
            lo <= i <= hi <= v@.len(),
            hi - lo <= MAX_INT_DIGITS,
            pow10((hi - lo) as nat) <= 1_000_000,
            all_digits(v@.subrange(lo as int, i as int)),
            acc == digits_val(v@.subrange(lo as int, i as int)),
            acc < pow10((i - lo) as nat),
        decreases hi - i,
    {
        let c = v[i];
        if !('0' <= c && c <= '9') {
            proof {
                let whole = v@.subrange(lo as int, hi as int);
                assert(whole[i - lo] == c);
            }
            return None;
        }
        let d = (c as u32 - '0' as u32) as u64;
        proof {
            lemma_pow10_mono((i - lo) as nat, (hi - lo) as nat);
            let next = v@.subrange(lo as int, i + 1);
            assert(next.drop_last() =~= v@.subrange(lo as int, i as int));
            assert(next.last() == c);
            assert(acc * 10 + d < 10 * pow10((i - lo) as nat)) by (nonlinear_arith)
                requires acc < pow10((i - lo) as nat), d <= 9;
        }
        acc = acc * 10 + d;
        i = i + 1;
    }
    assert(v@.subrange(lo as int, hi as int) =~= v@.subrange(lo as int, i as int));
    Some(acc)
}

/// Reads a portal cell text as a value in hundredths: digits, optionally
/// followed by a point and one or two digits, with whitespace around it.
/// Anything else is `None`: the portal writes points with at most two
/// decimals, so a finer value, an exponent, a sign or a bare point is taken
/// for markup the reader does not know, and the page is refused.
pub fn parse_score(text: &str) -> (r: Option<i64>)
    ensures
        r is Some <==> score_of(text@) is Some,
        r is Some ==> r->0 == score_of(text@)->0,
        r is Some ==> 0 <= r->0 <= MAX_SCORE,
{
    let v = chars_of(text);
    let (lo, hi) = trim_bounds(&v);
    let ghost t = trimmed(text@);
    assert(t =~= v@.subrange(lo as int, hi as int));
    let n = hi - lo;
    let ghost ni = n as int;
    if 1 <= n && n <= MAX_INT_DIGITS {
        match read_digits(&v, lo, hi) {
            Some(x) => {
                proof { reveal_with_fuel(pow10, 7); lemma_pow10_mono(n as nat, 6); }
                return Some((x * 100) as i64);
            }
            None => {}
        }
    }
    if n >= 3 && v[hi - 2] == '.' && hi - 2 - lo <= MAX_INT_DIGITS && hi - 2 - lo >= 1 {
        let d = v[hi - 1];
        if '0' <= d && d <= '9' {
            match read_digits(&v, lo, hi - 2) {
                Some(x) => {
                    proof {
                        reveal_with_fuel(pow10, 7);
                        lemma_pow10_mono((hi - 2 - lo) as nat, 6);
                        assert(t.subrange(0, ni - 2) =~= v@.subrange(lo as int, hi - 2));
                    }
                    let dv = (d as u32 - '0' as u32) as u64;
                    return Some((x * 100 + dv * 10) as i64);
                }
                None => {}
            }
        }
    }
    if n >= 4 && v[hi - 3] == '.' && hi - 3 - lo <= MAX_INT_DIGITS && hi - 3 - lo >= 1 {
        match read_digits(&v, lo, hi - 3) {
            Some(x) => {
                match read_digits(&v, hi - 2, hi) {
                    Some(f) => {
                        proof {
                            reveal_with_fuel(pow10, 7);
                            lemma_pow10_mono((hi - 3 - lo) as nat, 6);
                            assert(t.subrange(0, ni - 3) =~= v@.subrange(lo as int, hi - 3));
                            assert(t.subrange(ni - 2, ni) =~= v@.subrange(hi - 2, hi as int));
                        }
                        return Some((x * 100 + f) as i64);
                    }
                    None => {}
                }
            }
            None => {}
        }
    }
    proof {
        if n >= 3 && t[ni - 2] == '.' && is_int_part(t.subrange(0, ni - 2)) {
            assert(t.subrange(0, ni - 2) =~= v@.subrange(lo as int, hi - 2));
        }
        if n >= 4 && t[ni - 3] == '.' && is_int_part(t.subrange(0, ni - 3)) {
            assert(t.subrange(0, ni - 3) =~= v@.subrange(lo as int, hi - 3));
            assert(t.subrange(ni - 2, ni) =~= v@.subrange(hi - 2, hi as int));
        }
    }
    None
}

/// Appends the rendering of the non-negative value `v` (in hundredths) to `out`.
fn push_score(out: &mut Vec<char>, v: u64)
    ensures
        final(out)@ == old(out)@ + score_text(v as nat),
{
    push_decimal(out, v / 100);
    let f = v % 100;
    if f != 0 {
        out.push('.');
        out.push(digit_of(f / 10));
        if f % 10 != 0 {
            out.push(digit_of(f % 10));
        }
    }
    assert(final(out)@ =~= old(out)@ + score_text(v as nat));
}

/// The text of a non-negative value given in hundredths: `1250` gives `12.5`.
pub fn score_string(v: i64) -> (r: String)
    requires
        v >= 0,
    ensures
        r@ == score_text(v as nat),
{
    let mut out: Vec<char> = Vec::new();
    push_score(&mut out, v as u64);
    assert(out@ =~= score_text(v as nat));
    string_of(&out)
}

/// The text of a signed difference given in hundredths, with its sign
/// written out: `300` gives `+3`, `-50` gives `-0.5`.
pub fn delta_string(d: i64) -> (r: String)
    requires
        d > i64::MIN,
    ensures
        r@ == delta_text(d as int),
{
    let mut out: Vec<char> = Vec::new();
    if d > 0 {
        out.push('+');
        push_score(&mut out, d as u64);
    } else if d < 0 {
        out.push('-');
        push_score(&mut out, (-d) as u64);
    } else {
        push_score(&mut out, 0);
    }
    assert(out@ =~= delta_text(d as int));
    string_of(&out)
}

} // verus!
