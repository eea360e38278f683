//! Decimal digit sequences: the spec-level value of a run of digits, a
//! fixed-width rendering of `u64`, and their round trip. The cache codec
//! and the commit-time parser both build on this module.
use vstd::prelude::*;

verus! {

/// `c` is a decimal digit.
pub open spec fn is_digit(c: char) -> bool {
    48 <= c as u32 <= 57
}

/// The value of a digit character; 0 for anything else.
pub open spec fn digit_val(c: char) -> int {
    if is_digit(c) {
        c as u32 - 48
    } else {
        0
    }
}

/// The digit character for `d`, which must lie in 0..10.
pub open spec fn digit_char(d: int) -> char {
    if d == 0 {
        '0'
    } else if d == 1 {
        '1'
    } else if d == 2 {
        '2'
    } else if d == 3 {
        '3'
    } else if d == 4 {
        '4'
    } else if d == 5 {
        '5'
    } else if d == 6 {
        '6'
    } else if d == 7 {
        '7'
    } else if d == 8 {
        '8'
    } else {
        '9'
    }
}

/// Every character of `s` is a decimal digit.
pub open spec fn all_digits(s: Seq<char>) -> bool {
    forall|i: int| 0 <= i < s.len() ==> is_digit(#[trigger] s[i])
}

/// The number denoted by the digit run `s`, most significant digit first.
pub open spec fn digits_val(s: Seq<char>) -> int
    decreases s.len(),
{
    if s.len() == 0 {
        0
    } else {
        digits_val(s.drop_last()) * 10 + digit_val(s.last())
    }
}

/// Ten to the `w`.
pub open spec fn pow10(w: nat) -> int
    decreases w,
{
    if w == 0 {
        1
    } else {
        10 * pow10((w - 1) as nat)
    }
}

/// The `w`-digit decimal rendering of `n` (most significant first,
/// zero-padded; only the lowest `w` digits of `n` appear).
pub open spec fn dec_digits(n: int, w: nat) -> Seq<char>
    decreases w,
{
    if w == 0 {
        Seq::empty()
    } else {
        dec_digits(n / 10, (w - 1) as nat).push(digit_char(n % 10))
    }
}

/// The value of a digit run never drops when digits are appended: every
/// prefix denotes at most the whole.
pub proof fn lemma_digits_val_prefix_le(s: Seq<char>, j: int)
    requires
        0 <= j <= s.len(),
    ensures
        digits_val(s.subrange(0, j)) <= digits_val(s),
    decreases s.len() - j,
{
    if j == s.len() {
        assert(s.subrange(0, j) =~= s);
    } else {
        lemma_digits_val_prefix_le(s, j + 1);
        let t = s.subrange(0, j + 1);
        assert(t.drop_last() =~= s.subrange(0, j));
        assert(digits_val(t) == digits_val(s.subrange(0, j)) * 10 + digit_val(s[j]));
        assert(digits_val(s.subrange(0, j)) >= 0) by {
            lemma_digits_val_nonneg(s.subrange(0, j));
        }
        assert(digit_val(s[j]) >= 0);
    }
}

/// A digit run never denotes a negative number.
pub proof fn lemma_digits_val_nonneg(s: Seq<char>)
    ensures
        digits_val(s) >= 0,
    decreases s.len(),
{
    if s.len() > 0 {
        lemma_digits_val_nonneg(s.drop_last());
    }
}

/// Rendering `n` in `w` digits and reading the digits back recovers `n`,
/// provided `n` fits in `w` digits.
pub proof fn lemma_dec_digits_round_trip(n: int, w: nat)
    requires
        0 <= n < pow10(w),
    ensures
        dec_digits(n, w).len() == w,
        all_digits(dec_digits(n, w)),
        digits_val(dec_digits(n, w)) == n,
    decreases w,
{
    if w == 0 {
    } else {
        assert(pow10(w) == 10 * pow10((w - 1) as nat));
        assert(pow10((w - 1) as nat) >= 1) by {
            lemma_pow10_pos((w - 1) as nat);
        }
        assert(n / 10 < pow10((w - 1) as nat)) by (nonlinear_arith)
            requires
                0 <= n < 10 * pow10((w - 1) as nat),
                pow10((w - 1) as nat) >= 1,
        ;
        lemma_dec_digits_round_trip(n / 10, (w - 1) as nat);
        let s = dec_digits(n, w);
        assert(s.drop_last() =~= dec_digits(n / 10, (w - 1) as nat));
        assert(digit_val(digit_char(n % 10)) == n % 10);
        assert(digits_val(s) == (n / 10) * 10 + n % 10);
        assert((n / 10) * 10 + n % 10 == n) by (nonlinear_arith)
            requires
                n >= 0,
        ;
    }
}

/// A fixed-width rendering has exactly its width.
pub proof fn lemma_dec_digits_len(n: int, w: nat)
    ensures
        dec_digits(n, w).len() == w,
    decreases w,
{
    if w > 0 {
        lemma_dec_digits_len(n / 10, (w - 1) as nat);
    }
}

/// `pow10` is positive.
pub proof fn lemma_pow10_pos(w: nat)
    ensures
        pow10(w) >= 1,
    decreases w,
{
    if w > 0 {
        lemma_pow10_pos((w - 1) as nat);
    }
}

/// `u64::MAX` fits in 20 digits.
pub proof fn lemma_u64_fits_20_digits()
    ensures
        u64::MAX < pow10(20),
{
    assert(pow10(20) == 100000000000000000000) by {
        reveal_with_fuel(pow10, 21);
    }
}

/// The 20-digit rendering of `n`, the width every number field of the
/// cache file uses.
pub fn to_dec20(n: u64) -> (r: Vec<char>)
    ensures
        r@ == dec_digits(n as int, 20),
        r@.len() == 20,
{
    proof {
        lemma_u64_fits_20_digits();
        lemma_dec_digits_round_trip(n as int, 20);
    }
    to_dec_width(n, 20)
}

/// The `w`-digit rendering of `n`, mirroring `dec_digits`.
fn to_dec_width(n: u64, w: u8) -> (r: Vec<char>)
    ensures
        r@ == dec_digits(n as int, w as nat),
    decreases w,
{
    if w == 0 {
        Vec::new()
    } else {
        let mut r = to_dec_width(n / 10, w - 1);
        let d = (n % 10) as u8;
        let c = (48 + d) as char;
        proof {
            assert(c == digit_char((n % 10) as int));
        }
        r.push(c);
        r
    }
}

/// The value of the 20 digits at `i`, when they are all digits and denote
/// a number no larger than `u64::MAX`.
pub open spec fn spec_parse20(s: Seq<char>, i: int) -> Option<u64> {
    if 0 <= i && i + 20 <= s.len() && all_digits(s.subrange(i, i + 20)) && digits_val(
        s.subrange(i, i + 20),
    ) <= u64::MAX {
        Some(digits_val(s.subrange(i, i + 20)) as u64)
    } else {
        None
    }
}

/// Read the 20-digit number at position `i` of `s`.
pub fn parse20(s: &Vec<char>, i: usize) -> (r: Option<u64>)
    requires
        i + 20 <= s@.len(),
    ensures
        r == spec_parse20(s@, i as int),
{
    let ghost run = s@.subrange(i as int, i + 20);
    let sn = s.len();
    let mut acc: u128 = 0;
    let mut j: usize = 0;
    while j < 20
        invariant
            j <= 20,
            i + 20 <= sn,
            sn == s@.len(),
            run == s@.subrange(i as int, i + 20),
            all_digits(run.subrange(0, j as int)),
            acc == digits_val(run.subrange(0, j as int)),
            acc < pow10(j as nat),
        decreases 20 - j,
    {
        let c = s[i + j];
        let code = #[verifier::truncate] (c as u32);
        if !(48 <= code && code <= 57) {
            proof {
                assert(run[j as int] == c);
                assert(!all_digits(run));
            }
            return None;
        }
        proof {
            lemma_pow10_pos(j as nat);
            assert(pow10((j + 1) as nat) == 10 * pow10(j as nat));
            assert(pow10(20) == 100000000000000000000) by {
                reveal_with_fuel(pow10, 21);
            }
            assert(pow10(j as nat) <= pow10(20)) by {
                lemma_pow10_le(j as nat, 20);
            }
        }
        let d = (code - 48) as u128;
        acc = acc * 10 + d;
        proof {
            assert(run.subrange(0, j + 1).drop_last() =~= run.subrange(0, j as int));
            assert(run.subrange(0, j + 1).last() == run[j as int]);
        }
        j = j + 1;
    }
    proof {
        assert(run.subrange(0, 20) =~= run);
    }
    if acc > 0xffff_ffff_ffff_ffff {
        None
    } else {
        Some(acc as u64)
    }
}

/// `pow10` grows with the exponent.
pub proof fn lemma_pow10_le(a: nat, b: nat)
    requires
        a <= b,
    ensures
        pow10(a) <= pow10(b),
    decreases b - a,
{
    if a < b {
        lemma_pow10_le(a, (b - 1) as nat);
        lemma_pow10_pos((b - 1) as nat);
    }
}

} // verus!
