//! The number grammar of a recipe value.
//!
//! A numeric token is an optional sign followed by a decimal mantissa (digits
//! with an optional point) and an optional exponent part, or one of the words
//! `inf`, `infinity` and `nan` in any letter case.  This module states the
//! grammar over character sequences, checks it in executable code, and
//! evaluates the integer part of a token exactly (saturating at the largest
//! machine integer) for the particle count.

use vstd::prelude::*;
use vstd::arithmetic::mul::lemma_mul_inequality;
use crate::text::{eq_pred, scan_if, scan_char, lemma_scan_if_bounds, lemma_scan_if_eq};

verus! {

/// Saturation bound for digit-string values: strictly larger than the largest
/// machine integer, so saturation and clamping commute.
pub const DIGITS_CAP: u128 = 20_000_000_000_000_000_000;

/// A decimal digit.
pub open spec fn is_digit(c: char) -> bool {
    '0' as u32 <= c as u32 && c as u32 <= '9' as u32
}

/// The value of a decimal digit.
pub open spec fn digit_val(c: char) -> int {
    c as u32 - '0' as u32
}

/// Every character of `s` is a decimal digit.
pub open spec fn all_digits(s: Seq<char>) -> bool {
    forall|i: int| 0 <= i < s.len() ==> is_digit(#[trigger] s[i])
}

/// The value of a digit string read as a base-ten numeral.
pub open spec fn digits_val(s: Seq<char>) -> int
    decreases s.len(),
{
    if s.len() == 0 {
        0
    } else {
        digits_val(s.drop_last()) * 10 + digit_val(s.last())
    }
}

/// Ten to the power `n`.
pub open spec fn pow10(n: nat) -> int
    decreases n,
{
    if n == 0 {
        1
    } else {
        10 * pow10((n - 1) as nat)
    }
}

/// Executable digit test.
pub fn is_digit_char(c: char) -> (r: bool)
    ensures
        r == is_digit(c),
{
    '0' as u32 <= c as u32 && c as u32 <= '9' as u32
}

/// Case-insensitive match of `c` against the lower-case letter `l`.
pub open spec fn ci(c: char, l: char) -> bool {
    c == l || c as u32 + 32 == l as u32
}

/// Executable check for `ci`.
pub fn ci_char(c: char, l: char) -> (r: bool)
    ensures
        r == ci(c, l),
{
    c == l || (c as u32) + 32 == (l as u32)
}

/// Length of the sign prefix of a token: one for a leading `+` or `-`.
pub open spec fn spec_sign_len(s: Seq<char>) -> int {
    if s.len() > 0 && (s[0] == '+' || s[0] == '-') {
        1
    } else {
        0
    }
}

/// The token carries a leading minus sign.
pub open spec fn spec_is_neg(s: Seq<char>) -> bool {
    s.len() > 0 && s[0] == '-'
}

/// The token with its sign prefix removed.
pub open spec fn spec_body(s: Seq<char>) -> Seq<char> {
    s.skip(spec_sign_len(s))
}

/// The body spells `inf` or `infinity`, in any letter case.
pub open spec fn is_inf_body(b: Seq<char>) -> bool {
    (b.len() == 3 && ci(b[0], 'i') && ci(b[1], 'n') && ci(b[2], 'f')) || (b.len() == 8 && ci(
        b[0],
        'i',
    ) && ci(b[1], 'n') && ci(b[2], 'f') && ci(b[3], 'i') && ci(b[4], 'n') && ci(b[5], 'i') && ci(
        b[6],
        't',
    ) && ci(b[7], 'y'))
}

/// The body spells `nan`, in any letter case.
pub open spec fn is_nan_body(b: Seq<char>) -> bool {
    b.len() == 3 && ci(b[0], 'n') && ci(b[1], 'a') && ci(b[2], 'n')
}

/// The exponent marker.
pub open spec fn exp_pred() -> spec_fn(char) -> bool {
    |c: char| c == 'e' || c == 'E'
}

/// The mantissa of a numeric body: everything before the first exponent
/// marker.
pub open spec fn spec_mantissa(b: Seq<char>) -> Seq<char> {
    b.take(scan_if(b, exp_pred()))
}

/// The body carries an exponent part.
pub open spec fn spec_has_exp(b: Seq<char>) -> bool {
    scan_if(b, exp_pred()) < b.len()
}

/// The exponent part of a numeric body: everything after the first exponent
/// marker.
pub open spec fn spec_exp_str(b: Seq<char>) -> Seq<char> {
    b.skip(scan_if(b, exp_pred()) + 1)
}

/// The digits of a mantissa before its point.
pub open spec fn spec_int_digits(m: Seq<char>) -> Seq<char> {
    m.take(scan_if(m, eq_pred('.')))
}

/// The digits of a mantissa after its point, empty when there is no point.
pub open spec fn spec_frac_digits(m: Seq<char>) -> Seq<char> {
    let dp = scan_if(m, eq_pred('.'));
    if dp < m.len() {
        m.skip(dp + 1)
    } else {
        Seq::empty()
    }
}

/// A mantissa is digits around at most one point, with at least one digit.
pub open spec fn valid_mantissa(m: Seq<char>) -> bool {
    all_digits(spec_int_digits(m)) && all_digits(spec_frac_digits(m)) && spec_int_digits(
        m,
    ).len() + spec_frac_digits(m).len() > 0
}

/// An exponent part is an optional sign followed by at least one digit.
pub open spec fn valid_exp_str(e: Seq<char>) -> bool {
    e.len() - spec_sign_len(e) > 0 && all_digits(e.skip(spec_sign_len(e)))
}

/// The signed value of an exponent part.
pub open spec fn spec_exp_val(e: Seq<char>) -> int {
    let d = digits_val(e.skip(spec_sign_len(e)));
    if spec_is_neg(e) {
        -d
    } else {
        d
    }
}

/// A numeric body is a valid mantissa with an optional valid exponent part.
pub open spec fn valid_number_body(b: Seq<char>) -> bool {
    valid_mantissa(spec_mantissa(b)) && (spec_has_exp(b) ==> valid_exp_str(spec_exp_str(b)))
}

/// The whole number grammar: a signed numeric body, or a signed infinity or
/// not-a-number word.
pub open spec fn is_float_token(s: Seq<char>) -> bool {
    let b = spec_body(s);
    b.len() > 0 && (is_inf_body(b) || is_nan_body(b) || valid_number_body(b))
}

/// Every character of `s@` is a decimal digit.
pub fn check_all_digits(s: &str) -> (r: bool)
    ensures
        r == all_digits(s@),
{
    let n = s.unicode_len();
    let mut i: usize = 0;
    while i < n
        invariant
            i <= n,
            n == s@.len(),
            forall|j: int| 0 <= j < i ==> is_digit(#[trigger] s@[j]),
        decreases n - i,
    {
        if !is_digit_char(s.get_char(i)) {
            return false;
        }
        i += 1;
    }
    true
}

/// Index of the first exponent marker of `s@`, or `s@.len()`.
pub fn scan_exp(s: &str) -> (r: usize)
    ensures
        r as int == scan_if(s@, exp_pred()),
{
    let n = s.unicode_len();
    let mut i: usize = 0;
    while i < n
        invariant
            i <= n,
            n == s@.len(),
            forall|j: int| 0 <= j < i ==> !exp_pred()(s@[j]),
        decreases n - i,
    {
        let c = s.get_char(i);
        if c == 'e' || c == 'E' {
            proof {
                assert(exp_pred()(s@[i as int]));
                lemma_scan_if_eq(s@, exp_pred(), i as int);
            }
            return i;
        }
        proof {
            assert(!exp_pred()(s@[i as int]));
        }
        i += 1;
    }
    proof {
        lemma_scan_if_eq(s@, exp_pred(), n as int);
    }
    n
}

/// The body spells `inf` or `infinity` in any case.
fn match_inf(b: &str) -> (r: bool)
    ensures
        r == is_inf_body(b@),
{
    let n = b.unicode_len();
    if n == 3 {
        ci_char(b.get_char(0), 'i') && ci_char(b.get_char(1), 'n') && ci_char(b.get_char(2), 'f')
    } else if n == 8 {
        ci_char(b.get_char(0), 'i') && ci_char(b.get_char(1), 'n') && ci_char(b.get_char(2), 'f')
            && ci_char(b.get_char(3), 'i') && ci_char(b.get_char(4), 'n') && ci_char(
            b.get_char(5),
            'i',
        ) && ci_char(b.get_char(6), 't') && ci_char(b.get_char(7), 'y')
    } else {
        false
    }
}

/// The body spells `nan` in any case.
fn match_nan(b: &str) -> (r: bool)
    ensures
        r == is_nan_body(b@),
{
    let n = b.unicode_len();
    n == 3 && ci_char(b.get_char(0), 'n') && ci_char(b.get_char(1), 'a') && ci_char(
        b.get_char(2),
        'n',
    )
}

/// Whether `s@` lies in the number grammar.
pub fn check_number(s: &str) -> (r: bool)
    ensures
        r == is_float_token(s@),
{
    let n = s.unicode_len();
    let sl: usize = if n > 0 {
        let c = s.get_char(0);
        if c == '+' || c == '-' {
            1
        } else {
            0
        }
    } else {
        0
    };
    assert(sl as int == spec_sign_len(s@));
    let b = s.substring_char(sl, n);
    assert(b@ == spec_body(s@));
    let bn = n - sl;
    if bn == 0 {
        return false;
    }
    if match_inf(b) || match_nan(b) {
        return true;
    }
    proof {
        lemma_scan_if_bounds(b@, exp_pred());
    }
    let k = scan_exp(b);
    let m = b.substring_char(0, k);
    assert(m@ == spec_mantissa(b@));
    proof {
        lemma_scan_if_bounds(m@, eq_pred('.'));
    }
    let dp = scan_char(m, '.');
    let int_str = m.substring_char(0, dp);
    assert(int_str@ == spec_int_digits(m@));
    let frac_str = if dp < k {
        m.substring_char(dp + 1, k)
    } else {
        m.substring_char(k, k)
    };
    assert(frac_str@ == spec_frac_digits(m@));
    if !check_all_digits(int_str) || !check_all_digits(frac_str) {
        return false;
    }
    if int_str.unicode_len() + frac_str.unicode_len() == 0 {
        return false;
    }
    if k < bn {
        let e = b.substring_char(k + 1, bn);
        assert(e@ == spec_exp_str(b@));
        let en = bn - k - 1;
        let esl: usize = if en > 0 {
            let c = e.get_char(0);
            if c == '+' || c == '-' {
                1
            } else {
                0
            }
        } else {
            0
        };
        assert(esl as int == spec_sign_len(e@));
        let edig = e.substring_char(esl, en);
        assert(edig@ == spec_exp_str(b@).skip(spec_sign_len(spec_exp_str(b@))));
        if en - esl == 0 {
            return false;
        }
        if !check_all_digits(edig) {
            return false;
        }
        true
    } else {
        true
    }
}

/// `v` saturated at `DIGITS_CAP`.
pub open spec fn min_cap(v: int) -> int {
    if v >= DIGITS_CAP as int {
        DIGITS_CAP as int
    } else {
        v
    }
}

/// All mantissa digits of a numeric body, the point removed.
pub open spec fn spec_digits(b: Seq<char>) -> Seq<char> {
    spec_int_digits(spec_mantissa(b)) + spec_frac_digits(spec_mantissa(b))
}

/// Where the decimal point of a numeric body falls within `spec_digits`,
/// after the exponent is applied.
pub open spec fn spec_point(b: Seq<char>) -> int {
    spec_int_digits(spec_mantissa(b)).len() + if spec_has_exp(b) {
        spec_exp_val(spec_exp_str(b))
    } else {
        0
    }
}

/// The integer part of the number whose digits are `d` with the point after
/// position `p`.
pub open spec fn int_part(d: Seq<char>, p: int) -> int {
    if p <= 0 {
        0
    } else if p >= d.len() {
        digits_val(d) * pow10((p - d.len()) as nat)
    } else {
        digits_val(d.take(p))
    }
}

/// `v` clamped from above to the largest machine integer.
pub open spec fn clamp_usize(v: int) -> int {
    if v > usize::MAX as int {
        usize::MAX as int
    } else {
        v
    }
}

/// What a token denotes as a particle count: its value truncated toward zero
/// and clamped to the machine range, `None` outside the number grammar.
/// A negative value (and `nan`) yields zero; a positive infinity yields the
/// largest machine integer.
pub open spec fn spec_count(s: Seq<char>) -> Option<int> {
    if !is_float_token(s) {
        None
    } else {
        let b = spec_body(s);
        if is_inf_body(b) {
            if spec_is_neg(s) {
                Some(0)
            } else {
                Some(usize::MAX as int)
            }
        } else if is_nan_body(b) {
            Some(0)
        } else if spec_is_neg(s) {
            Some(0)
        } else {
            Some(clamp_usize(int_part(spec_digits(b), spec_point(b))))
        }
    }
}

/// A digit string has a non-negative value.
pub proof fn lemma_digits_val_nonneg(s: Seq<char>)
    requires
        all_digits(s),
    ensures
        digits_val(s) >= 0,
    decreases s.len(),
{
    if s.len() > 0 {
        assert forall|i: int| 0 <= i < s.drop_last().len() implies is_digit(
            #[trigger] s.drop_last()[i],
        ) by {
            assert(s.drop_last()[i] == s[i]);
        }
        lemma_digits_val_nonneg(s.drop_last());
        assert(is_digit(s[s.len() - 1]));
    }
}

/// Reading one more digit multiplies the prefix value by ten and adds it.
pub proof fn lemma_digits_val_take_step(s: Seq<char>, i: int)
    requires
        0 <= i < s.len(),
    ensures
        digits_val(s.take(i + 1)) == digits_val(s.take(i)) * 10 + digit_val(s[i]),
{
    assert(s.take(i + 1).drop_last() =~= s.take(i));
    assert(s.take(i + 1).last() == s[i]);
}

/// Powers of ten are positive.
pub proof fn lemma_pow10_pos(n: nat)
    ensures
        pow10(n) >= 1,
    decreases n,
{
    if n > 0 {
        lemma_pow10_pos((n - 1) as nat);
    }
}

/// Powers of ten grow with the exponent.
pub proof fn lemma_pow10_mono(a: nat, b: nat)
    requires
        a <= b,
    ensures
        pow10(a) <= pow10(b),
    decreases b,
{
    if a < b {
        lemma_pow10_mono(a, (b - 1) as nat);
        lemma_pow10_pos((b - 1) as nat);
    }
}

/// The twentieth power of ten exceeds every machine integer.
pub proof fn lemma_pow10_20_large()
    ensures
        pow10(20) > usize::MAX as int,
{
    assert(pow10(20) == 100_000_000_000_000_000_000) by {
        reveal_with_fuel(pow10, 21);
    }
    assert(usize::MAX as int <= u64::MAX as int);
}

/// Saturating before a digit step loses nothing that the saturation after it
/// would keep.
pub proof fn lemma_cap_compose(v: int, d: int)
    requires
        v >= 0,
        0 <= d <= 9,
    ensures
        min_cap(min_cap(v) * 10 + d) == min_cap(v * 10 + d),
{
    if v >= DIGITS_CAP as int {
        assert(v * 10 + d >= v) by (nonlinear_arith)
            requires
                v >= 0,
                d >= 0,
        ;
    }
}

/// One saturating step of base-ten accumulation.
fn cap_step(acc: u128, d: u32) -> (r: u128)
    requires
        acc <= DIGITS_CAP,
        d <= 9,
    ensures
        r as int == min_cap(acc as int * 10 + d as int),
        r <= DIGITS_CAP,
{
    if acc >= DIGITS_CAP {
        DIGITS_CAP
    } else {
        let t = acc * 10 + (d as u128);
        if t >= DIGITS_CAP {
            DIGITS_CAP
        } else {
            t
        }
    }
}

/// The number of particles the token `s@` denotes: its value truncated toward
/// zero and clamped to the machine range, or `None` when the token lies
/// outside the number grammar.
#[verifier::rlimit(100)]
pub fn parse_count(s: &str) -> (r: Option<usize>)
    ensures
        match r {
            Some(c) => spec_count(s@) == Some(c as int),
            None => spec_count(s@) is None,
        },
{
    if !check_number(s) {
        return None;
    }
    let n = s.unicode_len();
    let c0 = s.get_char(0);
    let sl: usize = if c0 == '+' || c0 == '-' {
        1
    } else {
        0
    };
    let neg = c0 == '-';
    assert(sl as int == spec_sign_len(s@));
    assert(neg == spec_is_neg(s@));
    let b = s.substring_char(sl, n);
    assert(b@ == spec_body(s@));
    let bn = n - sl;
    if match_inf(b) {
        if neg {
            return Some(0);
        } else {
            return Some(usize::MAX);
        }
    }
    if match_nan(b) {
        return Some(0);
    }
    if neg {
        return Some(0);
    }
    proof {
        lemma_scan_if_bounds(b@, exp_pred());
    }
    let k = scan_exp(b);
    let m = b.substring_char(0, k);
    assert(m@ == spec_mantissa(b@));
    proof {
        lemma_scan_if_bounds(m@, eq_pred('.'));
    }
    let dp = scan_char(m, '.');
    let int_str = m.substring_char(0, dp);
    assert(int_str@ == spec_int_digits(m@));
    let frac_str = if dp < k {
        m.substring_char(dp + 1, k)
    } else {
        m.substring_char(k, k)
    };
    assert(frac_str@ == spec_frac_digits(m@));
    let ni = dp;
    let nf = frac_str.unicode_len();
    let nd = ni + nf;
    let ghost dg = spec_digits(b@);
    proof {
        assert(dg =~= int_str@ + frac_str@);
        assert(all_digits(dg));
    }
    // The signed exponent, saturated; saturation only matters far beyond the
    // range where the result could still be exact.
    let ghost ev_true: int = if spec_has_exp(b@) {
        spec_exp_val(spec_exp_str(b@))
    } else {
        0
    };
    let ghost p_true: int = ni as int + ev_true;
    let mut eneg = false;
    let mut eacc: u128 = 0;
    if k < bn {
        let e = b.substring_char(k + 1, bn);
        assert(e@ == spec_exp_str(b@));
        let en = bn - k - 1;
        let ec = e.get_char(0);
        let esl: usize = if ec == '+' || ec == '-' {
            1
        } else {
            0
        };
        eneg = ec == '-';
        assert(esl as int == spec_sign_len(e@));
        let edig = e.substring_char(esl, en);
        assert(edig@ == e@.skip(spec_sign_len(e@)));
        let edn = en - esl;
        let mut i: usize = 0;
        while i < edn
            invariant
                i <= edn,
                edn == edig@.len(),
                all_digits(edig@),
                eacc <= DIGITS_CAP,
                eacc as int == min_cap(digits_val(edig@.take(i as int))),
            decreases edn - i,
        {
            let c = edig.get_char(i);
            assert(is_digit(c));
            let d = (c as u32) - 48;
            proof {
                assert(digit_val(edig@[i as int]) == d as int);
                assert forall|j: int| 0 <= j < i + 1 implies is_digit(
                    #[trigger] edig@.take(i + 1)[j],
                ) by {
                    assert(edig@.take(i + 1)[j] == edig@[j]);
                }
                assert forall|j: int| 0 <= j < i implies is_digit(
                    #[trigger] edig@.take(i as int)[j],
                ) by {
                    assert(edig@.take(i as int)[j] == edig@[j]);
                }
                lemma_digits_val_nonneg(edig@.take(i as int));
                lemma_digits_val_take_step(edig@, i as int);
                lemma_cap_compose(digits_val(edig@.take(i as int)), d as int);
            }
            eacc = cap_step(eacc, d);
            i += 1;
        }
        proof {
            assert(edig@.take(edn as int) =~= edig@);
        }
    }
    let ghost ed_val: int = if spec_has_exp(b@) {
        digits_val(spec_exp_str(b@).skip(spec_sign_len(spec_exp_str(b@))))
    } else {
        0
    };
    proof {
        if spec_has_exp(b@) {
            assert(eacc as int == min_cap(ed_val));
            lemma_digits_val_nonneg(spec_exp_str(b@).skip(spec_sign_len(spec_exp_str(b@))));
        } else {
            assert(eacc == 0);
            assert(ed_val == 0);
        }
    }
    let ev: i128 = if eneg {
        -(eacc as i128)
    } else {
        eacc as i128
    };
    let p: i128 = (ni as i128) + ev;
    // When the exponent saturated, both the saturated and the true point lie
    // far outside the digit string on the same side.
    proof {
        assert(usize::MAX < DIGITS_CAP);
        if ed_val < DIGITS_CAP as int {
            assert(ev as int == ev_true);
            assert(p as int == p_true);
        }
    }
    if p <= 0 {
        proof {
            if ed_val >= DIGITS_CAP as int {
                assert(eneg);
                assert(p_true <= ni as int - DIGITS_CAP as int);
            }
            assert(p_true <= 0);
        }
        return Some(0);
    }
    let t: usize = if p >= nd as i128 {
        nd
    } else {
        p as usize
    };
    let mut acc: u128 = 0;
    let mut i: usize = 0;
    while i < t
        invariant
            i <= t,
            t <= nd,
            ni == int_str@.len(),
            nf == frac_str@.len(),
            nd == ni + nf,
            dg == int_str@ + frac_str@,
            all_digits(dg),
            acc <= DIGITS_CAP,
            acc as int == min_cap(digits_val(dg.take(i as int))),
        decreases t - i,
    {
        let c = if i < ni {
            int_str.get_char(i)
        } else {
            frac_str.get_char(i - ni)
        };
        proof {
            assert(c == dg[i as int]);
            assert(is_digit(dg[i as int]));
        }
        let d = (c as u32) - 48;
        proof {
            assert(digit_val(dg[i as int]) == d as int);
            assert forall|j: int| 0 <= j < i implies is_digit(
                #[trigger] dg.take(i as int)[j],
            ) by {
                assert(dg.take(i as int)[j] == dg[j]);
            }
            lemma_digits_val_nonneg(dg.take(i as int));
            lemma_digits_val_take_step(dg, i as int);
            lemma_cap_compose(digits_val(dg.take(i as int)), d as int);
        }
        acc = cap_step(acc, d);
        i += 1;
    }
    proof {
        assert forall|j: int| 0 <= j < t implies is_digit(#[trigger] dg.take(t as int)[j]) by {
            assert(dg.take(t as int)[j] == dg[j]);
        }
        lemma_digits_val_nonneg(dg.take(t as int));
    }
    if p > nd as i128 {
        proof {
            assert(dg.take(t as int) =~= dg);
        }
        let ghost dv = digits_val(dg);
        if acc == 0 {
            proof {
                assert(dv == 0);
                if p_true >= dg.len() {
                    assert(int_part(dg, p_true) == 0 * pow10((p_true - dg.len()) as nat));
                } else {
                    assert(p_true > 0) by {
                        if ed_val >= DIGITS_CAP as int {
                            assert(!eneg);
                            assert(p_true >= ni as int + DIGITS_CAP as int);
                        }
                    }
                    assert(dg.take(p_true) =~= dg.take(p_true));
                    assert forall|j: int| 0 <= j < p_true implies is_digit(
                        #[trigger] dg.take(p_true)[j],
                    ) by {
                        assert(dg.take(p_true)[j] == dg[j]);
                    }
                    lemma_digits_val_prefix_zero(dg, p_true);
                }
            }
            return Some(0);
        }
        // A non-zero digit string shifted twenty or more places exceeds every
        // machine integer.
        proof {
            assert(dv >= 1);
            if ed_val >= DIGITS_CAP as int {
                assert(!eneg);
                assert(p_true - nd as int >= 20);
                assert(p as int - nd as int >= 20) by {
                    assert(ev as int == DIGITS_CAP as int);
                }
            }
        }
        let extra: i128 = p - (nd as i128);
        if extra >= 20 {
            proof {
                assert(p_true - nd as int >= 20) by {
                    if ed_val < DIGITS_CAP as int {
                        assert(p as int == p_true);
                    }
                }
                let sh = (p_true - dg.len()) as nat;
                lemma_pow10_mono(20, sh);
                lemma_pow10_20_large();
                lemma_mul_inequality(1, dv, pow10(sh));
                assert(int_part(dg, p_true) == dv * pow10(sh));
                assert(dv * pow10(sh) >= 1 * pow10(sh));
            }
            return Some(usize::MAX);
        }
        proof {
            assert(ed_val < DIGITS_CAP as int) by {
                if ed_val >= DIGITS_CAP as int {
                    assert(p as int - nd as int >= 20);
                }
            }
            assert(p as int == p_true);
        }
        let extra_n: usize = extra as usize;
        let mut j: usize = 0;
        while j < extra_n
            invariant
                j <= extra_n,
                acc <= DIGITS_CAP,
                digits_val(dg) >= 0,
                acc as int == min_cap(digits_val(dg) * pow10(j as nat)),
            decreases extra_n - j,
        {
            proof {
                let v = digits_val(dg);
                lemma_pow10_pos(j as nat);
                assert(v * pow10(j as nat) >= 0) by (nonlinear_arith)
                    requires
                        v >= 0,
                        pow10(j as nat) >= 1,
                ;
                lemma_cap_compose(v * pow10(j as nat), 0);
                assert(v * pow10(j as nat) * 10 == v * pow10((j + 1) as nat)) by {
                    assert(pow10((j + 1) as nat) == 10 * pow10(j as nat));
                    assert(v * pow10(j as nat) * 10 == v * (10 * pow10(j as nat)))
                        by (nonlinear_arith);
                }
            }
            acc = cap_step(acc, 0);
            j += 1;
        }
        proof {
            assert(int_part(dg, p_true) == digits_val(dg) * pow10(extra_n as nat));
        }
    } else {
        proof {
            assert(p_true == p as int);
            if p_true >= dg.len() {
                assert(t as int == dg.len());
                assert(dg.take(t as int) =~= dg);
                assert(p_true == dg.len());
                assert(pow10(0) == 1);
                assert(digits_val(dg) * 1 == digits_val(dg));
                assert(int_part(dg, p_true) == digits_val(dg));
            } else {
                assert(t as int == p_true);
                assert(int_part(dg, p_true) == digits_val(dg.take(t as int)));
            }
        }
    }
    // `acc` is the integer part saturated above the machine range; clamping
    // recovers the exact count.
    proof {
        assert(acc as int == min_cap(int_part(dg, p_true)));
        assert(int_part(dg, p_true) >= 0);
    }
    if acc > (usize::MAX as u128) {
        proof {
            assert(int_part(dg, p_true) > usize::MAX as int);
        }
        Some(usize::MAX)
    } else {
        proof {
            assert(acc as int == int_part(dg, p_true));
        }
        Some(acc as usize)
    }
}

/// A digit string whose value is zero has zero-valued prefixes.
pub proof fn lemma_digits_val_prefix_zero(s: Seq<char>, p: int)
    requires
        all_digits(s),
        digits_val(s) == 0,
        0 <= p <= s.len(),
    ensures
        digits_val(s.take(p)) == 0,
    decreases s.len() - p,
{
    if p < s.len() {
        lemma_digits_val_prefix_zero(s, p + 1);
        lemma_digits_val_take_step(s, p);
        assert forall|j: int| 0 <= j < p implies is_digit(#[trigger] s.take(p)[j]) by {
            assert(s.take(p)[j] == s[j]);
        }
        lemma_digits_val_nonneg(s.take(p));
        assert(is_digit(s[p]));
    } else {
        assert(s.take(p) =~= s);
    }
}

} // verus!
