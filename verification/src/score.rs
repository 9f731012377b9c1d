//! Exact fixed-point scores and rating normalization.
//!
//! A score is held in units of 1/45,000,000 of a point. That scale keeps
//! every value the pipeline computes exact: decimal ratings with up to six
//! fractional digits, and the line-count effort formula, which divides by
//! 45. Means of scores are held as exact rationals.

use vstd::prelude::*;
use crate::text::trim_chars;
use crate::text::trimmed;

verus! {

/// Units per score point.
pub const SCALE: i64 = 45_000_000;

/// Largest admitted integer part of a rating.
pub const MAX_INT_PART: i64 = 10_000_000_000;

/// Bound on a score's units: every parsed rating and every line-count score
/// stays within it, which keeps sums over a rubric free of overflow.
pub const SCORE_BOUND: i64 = 460_000_000_000_000_000;

/// A score in fixed-point units.
#[derive(Clone, Copy, Debug, PartialEq, Eq, Structural)]
pub struct Score {
    pub units: i64,
}

impl Score {
    /// The score lies within the bound that rating parsing guarantees.
    pub open spec fn wf(self) -> bool {
        -SCORE_BOUND <= self.units <= SCORE_BOUND
    }
}

/// True when `c` is an ASCII digit.
pub open spec fn is_digit(c: char) -> bool {
    48 <= c as u32 <= 57
}

/// The numeric value of a digit character.
pub open spec fn digit_val(c: char) -> int {
    c as u32 - 48
}

/// True when every character of `s` is a digit.
pub open spec fn all_digits(s: Seq<char>) -> bool {
    forall|i: int| 0 <= i < s.len() ==> is_digit(#[trigger] s[i])
}

/// The number a digit sequence denotes.
pub open spec fn digits_val(s: Seq<char>) -> int
    decreases s.len(),
{
    if s.len() == 0 {
        0
    } else {
        digits_val(s.drop_last()) * 10 + digit_val(s.last())
    }
}

/// Ten to the `n`.
pub open spec fn pow10(n: nat) -> int
    decreases n,
{
    if n == 0 {
        1
    } else {
        10 * pow10((n - 1) as nat)
    }
}

/// True when `t` is digits, a dot at `k`, then digits.
pub open spec fn dot_split_at(t: Seq<char>, k: int) -> bool {
    &&& 0 <= k < t.len()
    &&& t[k] == '.'
    &&& all_digits(t.subrange(0, k))
    &&& all_digits(t.subrange(k + 1, t.len() as int))
}

/// The units an unsigned decimal literal denotes: plain digits, or digits
/// around a single dot, with at least one digit in all, at most six
/// fractional digits, and an integer part within `MAX_INT_PART`.
pub open spec fn dec_units_unsigned(t: Seq<char>) -> Option<int> {
    if t.len() >= 1 && all_digits(t) {
        if digits_val(t) <= MAX_INT_PART {
            Some(digits_val(t) * SCALE)
        } else {
            None
        }
    } else if exists|k: int| dot_split_at(t, k) {
        let k = choose|k: int| dot_split_at(t, k);
        let ip = t.subrange(0, k);
        let fp = t.subrange(k + 1, t.len() as int);
        if ip.len() + fp.len() >= 1 && fp.len() <= 6 && digits_val(ip) <= MAX_INT_PART {
            Some(digits_val(ip) * SCALE + digits_val(fp) * 45 * pow10((6 - fp.len()) as nat))
        } else {
            None
        }
    } else {
        None
    }
}

/// The units a decimal literal denotes, with an optional leading sign.
pub open spec fn dec_units(s: Seq<char>) -> Option<int> {
    if s.len() >= 1 && (s[0] == '+' || s[0] == '-') {
        match dec_units_unsigned(s.drop_first()) {
            Some(u) => Some(
                if s[0] == '-' {
                    -u
                } else {
                    u
                },
            ),
            None => None,
        }
    } else {
        dec_units_unsigned(s)
    }
}

proof fn lemma_dot_split_unique(t: Seq<char>, k1: int, k2: int)
    requires
        dot_split_at(t, k1),
        dot_split_at(t, k2),
    ensures
        k1 == k2,
{
    if k1 < k2 {
        assert(t.subrange(0, k2)[k1] == t[k1]);
        assert(is_digit(t[k1]));
    }
    if k2 < k1 {
        assert(t.subrange(0, k1)[k2] == t[k2]);
        assert(is_digit(t[k2]));
    }
}

proof fn lemma_digits_val_nonneg(s: Seq<char>)
    requires
        all_digits(s),
    ensures
        digits_val(s) >= 0,
    decreases s.len(),
{
    if s.len() > 0 {
        lemma_digits_val_nonneg(s.drop_last());
    }
}

proof fn lemma_digits_val_bound(s: Seq<char>)
    requires
        all_digits(s),
    ensures
        0 <= digits_val(s) < pow10(s.len()),
    decreases s.len(),
{
    if s.len() > 0 {
        lemma_digits_val_bound(s.drop_last());
    }
}

proof fn lemma_pow10_pos(n: nat)
    ensures
        pow10(n) >= 1,
    decreases n,
{
    if n > 0 {
        lemma_pow10_pos((n - 1) as nat);
    }
}

proof fn lemma_pow10_add(a: nat, b: nat)
    ensures
        pow10(a) * pow10(b) == pow10(a + b),
    decreases a,
{
    if a == 0 {
        assert(pow10(0) * pow10(b) == pow10(b));
    } else {
        lemma_pow10_add((a - 1) as nat, b);
        assert(pow10(a) * pow10(b) == 10 * (pow10((a - 1) as nat) * pow10(b)))
            by (nonlinear_arith)
            requires
                pow10(a) == 10 * pow10((a - 1) as nat),
        ;
    }
}

proof fn lemma_frac_units_bound(fp: Seq<char>)
    requires
        all_digits(fp),
        fp.len() <= 6,
    ensures
        0 <= digits_val(fp) * 45 * pow10((6 - fp.len()) as nat) < SCALE,
{
    lemma_digits_val_bound(fp);
    lemma_pow10_pos((6 - fp.len()) as nat);
    lemma_pow10_add(fp.len(), (6 - fp.len()) as nat);
    let d = digits_val(fp);
    let p = pow10((6 - fp.len()) as nat);
    let q = pow10(fp.len());
    assert(d * 45 * p >= 0) by (nonlinear_arith)
        requires
            d >= 0,
            p >= 1,
    ;
    assert(d * 45 * p <= (q - 1) * 45 * p) by (nonlinear_arith)
        requires
            d <= q - 1,
            p >= 1,
    ;
    assert((q - 1) * 45 * p == 45 * (q * p) - 45 * p) by (nonlinear_arith);
    assert(q * p == pow10(6));
    assert(pow10(6) == 1000000) by {
        assert(pow10(0) == 1);
        assert(pow10(1) == 10);
        assert(pow10(2) == 100);
        assert(pow10(3) == 1000);
        assert(pow10(4) == 10000);
        assert(pow10(5) == 100000);
        assert(pow10(6) == 1000000);
    }
}

/// Tests whether `c` is an ASCII digit.
fn is_digit_char(c: char) -> (r: bool)
    ensures
        r == is_digit(c),
{
    c >= '0' && c <= '9'
}

/// Ten to the `k`, in units.
fn pow10_units(k: usize) -> (r: i64)
    requires
        k <= 6,
    ensures
        r == pow10(k as nat),
        1 <= r <= 1000000,
{
    proof {
        assert(pow10(0) == 1);
        assert(pow10(1) == 10);
        assert(pow10(2) == 100);
        assert(pow10(3) == 1000);
        assert(pow10(4) == 10000);
        assert(pow10(5) == 100000);
        assert(pow10(6) == 1000000);
    }
    match k {
        0 => 1,
        1 => 10,
        2 => 100,
        3 => 1000,
        4 => 10000,
        5 => 100000,
        _ => 1000000,
    }
}

/// Parses the unsigned decimal literal that fills `s` from `from` on.
#[verifier::rlimit(50)]
fn parse_unsigned_from(s: &Vec<char>, from: usize) -> (r: Option<i64>)
    requires
        from <= s@.len(),
    ensures
        match r {
            Some(u) => dec_units_unsigned(s@.skip(from as int)) == Some(u as int) && 0 <= u
                <= SCORE_BOUND,
            None => dec_units_unsigned(s@.skip(from as int)) is None,
        },
{
    let ghost t = s@.skip(from as int);
    let n = s.len();
    let mut i: usize = from;
    let mut val: i64 = 0;
    let mut big: bool = false;
    while i < n && is_digit_char(s[i])
        invariant
            from <= i <= n,
            n == s@.len(),
            t == s@.skip(from as int),
            all_digits(t.subrange(0, i - from)),
            !big ==> val == digits_val(t.subrange(0, i - from)) && 0 <= val <= MAX_INT_PART,
            big ==> digits_val(t.subrange(0, i - from)) > MAX_INT_PART,
        decreases n - i,
    {
        let d = ((s[i] as u32) - 48) as i64;
        proof {
            assert(t.subrange(0, i + 1 - from).drop_last() =~= t.subrange(0, i - from));
            assert(t.subrange(0, i + 1 - from).last() == s@[i as int]);
            if big {
                let dv = digits_val(t.subrange(0, i - from));
                assert(digits_val(t.subrange(0, i + 1 - from)) == dv * 10 + d);
                assert(dv * 10 >= dv) by (nonlinear_arith)
                    requires
                        dv >= 0,
                ;
            }
        }
        if !big {
            let tmp = val * 10 + d;
            if tmp > MAX_INT_PART {
                big = true;
            } else {
                val = tmp;
            }
        }
        i = i + 1;
    }
    if i == n {
        proof {
            assert(t.subrange(0, i - from) =~= t);
        }
        if i == from {
            proof {
                assert(forall|k: int| !dot_split_at(t, k));
            }
            return None;
        }
        if big {
            return None;
        }
        proof {
            assert(val * SCALE <= MAX_INT_PART * SCALE && val * SCALE >= 0) by (nonlinear_arith)
                requires
                    0 <= val <= MAX_INT_PART,
            ;
        }
        return Some(val * SCALE);
    }
    // A character interrupts the digits.
    proof {
        assert(!is_digit(t[i - from]));
    }
    if s[i] != '.' {
        proof {
            assert forall|k: int| !dot_split_at(t, k) by {
                if dot_split_at(t, k) {
                    if k < i - from {
                        assert(is_digit(t.subrange(0, i - from)[k]));
                    } else if k > i - from {
                        assert(is_digit(t.subrange(0, k)[i - from]));
                    }
                }
            }
        }
        return None;
    }
    let dot = i;
    let ghost ip = t.subrange(0, dot - from);
    let mut j: usize = dot + 1;
    let mut fval: i64 = 0;
    while j < n && is_digit_char(s[j])
        invariant
            from <= dot < j <= n,
            n == s@.len(),
            t == s@.skip(from as int),
            t[dot - from] == '.',
            all_digits(t.subrange(dot + 1 - from, j - from)),
            j - dot - 1 <= 6 ==> fval == digits_val(t.subrange(dot + 1 - from, j - from)) && 0
                <= fval < 1000000,
        decreases n - j,
    {
        let d = ((s[j] as u32) - 48) as i64;
        proof {
            assert(t.subrange(dot + 1 - from, j + 1 - from).drop_last() =~= t.subrange(
                dot + 1 - from,
                j - from,
            ));
            assert(t.subrange(dot + 1 - from, j + 1 - from).last() == s@[j as int]);
            if j - dot - 1 < 6 {
                lemma_digits_val_bound(t.subrange(dot + 1 - from, j - from));
                assert(pow10((j - dot) as nat) == 10 * pow10((j - dot - 1) as nat));
                lemma_pow10_le6((j - dot) as nat);
            }
        }
        if j - dot - 1 < 6 {
            fval = fval * 10 + d;
        }
        j = j + 1;
    }
    let ghost fp = t.subrange(dot + 1 - from, n - from);
    if j < n {
        // A character other than a digit follows the fraction.
        proof {
            assert(!is_digit(t[j - from]));
            assert forall|k: int| !dot_split_at(t, k) by {
                if dot_split_at(t, k) {
                    if k < dot - from {
                        assert(is_digit(t.subrange(0, dot - from)[k]));
                    } else if k == dot - from {
                        assert(is_digit(t.subrange(k + 1, t.len() as int)[j - from - k - 1]));
                    } else {
                        assert(is_digit(t.subrange(0, k)[dot - from]));
                    }
                }
            }
            assert(!(t.len() >= 1 && all_digits(t)));
        }
        return None;
    }
    proof {
        assert(fp =~= t.subrange(dot + 1 - from, j - from));
        assert(ip =~= t.subrange(0, dot - from));
        assert(dot_split_at(t, dot - from));
        assert(!(t.len() >= 1 && all_digits(t)));
        let kk = choose|k: int| dot_split_at(t, k);
        lemma_dot_split_unique(t, kk, dot - from);
    }
    let ilen = dot - from;
    let flen = n - dot - 1;
    if ilen + flen < 1 {
        return None;
    }
    if flen > 6 {
        return None;
    }
    if big {
        return None;
    }
    proof {
        assert(fval == digits_val(fp) && 0 <= fval < 1000000);
        lemma_frac_units_bound(fp);
        assert(val * SCALE <= MAX_INT_PART * SCALE && val * SCALE >= 0) by (nonlinear_arith)
            requires
                0 <= val <= MAX_INT_PART,
        ;
        assert(fval * 45 * pow10((6 - flen) as nat) == digits_val(fp) * 45 * pow10(
            (6 - fp.len()) as nat,
        ));
    }
    let p = pow10_units(6 - flen);
    let frac_units = fval * 45 * p;
    proof {
        assert(frac_units == digits_val(fp) * 45 * pow10((6 - fp.len()) as nat));
    }
    Some(val * SCALE + frac_units)
}

proof fn lemma_pow10_le6(k: nat)
    requires
        k <= 6,
    ensures
        pow10(k) <= 1000000,
{
    assert(pow10(0) == 1);
    assert(pow10(1) == 10);
    assert(pow10(2) == 100);
    assert(pow10(3) == 1000);
    assert(pow10(4) == 10000);
    assert(pow10(5) == 100000);
    assert(pow10(6) == 1000000);
}

/// Parses a decimal literal, an optional sign included.
pub fn parse_decimal(s: &Vec<char>) -> (r: Option<Score>)
    ensures
        match r {
            Some(sc) => dec_units(s@) == Some(sc.units as int) && sc.wf(),
            None => dec_units(s@) is None,
        },
{
    let n = s.len();
    if n == 0 {
        proof {
            assert(forall|k: int| !dot_split_at(s@, k));
        }
        return None;
    }
    let c0 = s[0];
    if c0 == '-' || c0 == '+' {
        proof {
            assert(s@.skip(1) =~= s@.drop_first());
        }
        match parse_unsigned_from(s, 1) {
            Some(u) => {
                let units = if c0 == '-' {
                    -u
                } else {
                    u
                };
                Some(Score { units })
            },
            None => None,
        }
    } else {
        proof {
            assert(s@.skip(0) =~= s@);
        }
        match parse_unsigned_from(s, 0) {
            Some(u) => Some(Score { units: u }),
            None => None,
        }
    }
}

/// True when `s` holds exactly one slash, at `k`.
pub open spec fn slash_split_at(s: Seq<char>, k: int) -> bool {
    &&& 0 <= k < s.len()
    &&& s[k] == '/'
    &&& forall|j: int| 0 <= j < s.len() && j != k ==> s[j] != '/'
}

/// The units a rating string denotes: a plain decimal, or, failing that, a
/// fraction written over exactly `10`, whose numerator is taken as the
/// rating. Every other shape denotes nothing.
pub open spec fn rating_units(s: Seq<char>) -> Option<int> {
    if dec_units(s) is Some {
        dec_units(s)
    } else if exists|k: int| slash_split_at(s, k) {
        let k = choose|k: int| slash_split_at(s, k);
        let a = trimmed(s.subrange(0, k));
        let b = trimmed(s.subrange(k + 1, s.len() as int));
        match (dec_units(a), dec_units(b)) {
            (Some(x), Some(y)) => if y == 10 * SCALE {
                Some(x)
            } else {
                None
            },
            _ => None,
        }
    } else {
        None
    }
}

proof fn lemma_slash_split_unique(s: Seq<char>, k1: int, k2: int)
    requires
        slash_split_at(s, k1),
        slash_split_at(s, k2),
    ensures
        k1 == k2,
{
}

fn slash_vec() -> (r: Vec<char>)
    ensures
        r@ == seq!['/'],
{
    let mut v: Vec<char> = Vec::new();
    v.push('/');
    proof {
        assert(v@ =~= seq!['/']);
    }
    v
}

/// Normalizes a rating string to a score, when it has one of the two
/// accepted shapes.
#[verifier::rlimit(50)]
pub fn normalize_rating_chars(s: &Vec<char>) -> (r: Option<Score>)
    ensures
        match r {
            Some(sc) => rating_units(s@) == Some(sc.units as int) && sc.wf(),
            None => rating_units(s@) is None,
        },
{
    if let Some(sc) = parse_decimal(s) {
        return Some(sc);
    }
    let slash = slash_vec();
    let n = s.len();
    match crate::text::find_seq(s, &slash) {
        None => {
            proof {
                crate::text::lemma_spec_find_correct(s@, slash@);
                assert forall|k: int| !slash_split_at(s@, k) by {
                    if slash_split_at(s@, k) {
                        assert(s@.subrange(k, k + 1) =~= slash@);
                        assert(crate::text::matches_at(s@, slash@, k));
                        assert(crate::text::contains_seq(s@, slash@));
                    }
                }
            }
            None
        },
        Some(k) => {
            proof {
                crate::text::lemma_spec_find_correct(s@, slash@);
                assert(crate::text::matches_at(s@, slash@, k as int));
                assert(s@.subrange(k as int, k + 1)[0] == '/');
                assert(s@[k as int] == '/');
            }
            let rest = crate::text::subvec(s, k + 1, n);
            proof {
                assert(rest@ =~= s@.subrange(k + 1, n as int));
            }
            match crate::text::find_seq(&rest, &slash) {
                Some(k2) => {
                    proof {
                        crate::text::lemma_spec_find_correct(rest@, slash@);
                        assert(crate::text::matches_at(rest@, slash@, k2 as int));
                        assert(rest@.subrange(k2 as int, k2 + 1)[0] == '/');
                        assert(s@[k + 1 + k2] == '/');
                        assert forall|kk: int| !slash_split_at(s@, kk) by {
                            if slash_split_at(s@, kk) {
                                if kk == k as int {
                                    assert(s@[k + 1 + k2] != '/');
                                } else {
                                    assert(s@[k as int] != '/');
                                }
                            }
                        }
                    }
                    None
                },
                None => {
                    proof {
                        crate::text::lemma_spec_find_correct(rest@, slash@);
                        assert forall|j: int|
                            0 <= j < s@.len() && j != k as int implies s@[j] != '/' by {
                            if j < k as int {
                                assert(!crate::text::matches_at(s@, slash@, j));
                                if s@[j] == '/' {
                                    assert(s@.subrange(j, j + 1) =~= slash@);
                                }
                            } else {
                                assert(!crate::text::contains_seq(rest@, slash@));
                                if s@[j] == '/' {
                                    assert(rest@[j - k - 1] == '/');
                                    assert(rest@.subrange(j - k - 1, j - k) =~= slash@);
                                    assert(crate::text::matches_at(rest@, slash@, j - k - 1));
                                }
                            }
                        }
                        assert(slash_split_at(s@, k as int));
                        let kk = choose|kk: int| slash_split_at(s@, kk);
                        lemma_slash_split_unique(s@, kk, k as int);
                    }
                    let left = crate::text::subvec(s, 0, k);
                    let a = trim_chars(&left);
                    let b = trim_chars(&rest);
                    proof {
                        assert(left@ =~= s@.subrange(0, k as int));
                        assert(a@ == trimmed(s@.subrange(0, k as int)));
                        assert(b@ == trimmed(s@.subrange(k + 1, n as int)));
                    }
                    match (parse_decimal(&a), parse_decimal(&b)) {
                        (Some(x), Some(y)) => {
                            if y.units == 450_000_000 {
                                Some(x)
                            } else {
                                None
                            }
                        },
                        _ => None,
                    }
                },
            }
        },
    }
}

/// Normalizes a rating string to a score, when it has one of the two
/// accepted shapes: a plain decimal, or a fraction written over exactly
/// `10`, whose numerator is taken.
pub fn normalize_rating(s: &str) -> (r: Option<Score>)
    ensures
        match r {
            Some(sc) => rating_units(s@) == Some(sc.units as int) && sc.wf(),
            None => rating_units(s@) is None,
        },
{
    let v = crate::text::chars_of(s);
    normalize_rating_chars(&v)
}

/// An exact rational, the form a mean of scores takes: the numerator is a
/// sum of score units, the denominator the metric count times `SCALE`.
#[derive(Clone, Copy, Debug, PartialEq, Eq, Structural)]
pub struct Rat {
    pub num: i128,
    pub den: i128,
}

/// Bound on a mean's denominator.
pub const DEN_BOUND: i128 = 1_000_000_000_000_000_000_000_000_000;

/// Bound on a mean's numerator.
pub const NUM_BOUND: i128 = 10_000_000_000_000_000_000_000_000_000_000_000_000;

impl Rat {
    /// The denominator is positive and both parts stay far from overflow.
    pub open spec fn wf(self) -> bool {
        0 < self.den <= DEN_BOUND && -NUM_BOUND <= self.num <= NUM_BOUND
    }

    /// True when the rational exceeds the integer `k`.
    pub open spec fn spec_gt_int(self, k: int) -> bool {
        self.num > k * self.den
    }

    /// Compares the rational against a small integer.
    pub fn gt_int(&self, k: i64) -> (r: bool)
        requires
            self.wf(),
            -1000 <= k <= 1000,
        ensures
            r == self.spec_gt_int(k as int),
    {
        proof {
            assert(-1000 * DEN_BOUND <= (k as int) * self.den <= 1000 * DEN_BOUND)
                by (nonlinear_arith)
                requires
                    -1000 <= k <= 1000,
                    0 < self.den <= DEN_BOUND,
            ;
        }
        self.num > (k as i128) * self.den
    }
}

} // verus!
