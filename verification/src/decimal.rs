//! Exact decimal numbers.
//!
//! A [`Dec`] holds `units / 10^scale` as a pair of plain integers, so order
//! quantities and prices parsed from the wire keep their exact value; no
//! floating point is involved anywhere. Arithmetic is checked: an operation
//! that would leave the `i128` range reports `None` instead of wrapping.
//!
//! Contracts compare decimals through [`val18`], the integer numerator each
//! value has when written over the common denominator `10^MAX_SCALE`.

use vstd::prelude::*;
use vstd::arithmetic::mul::*;
use vstd::arithmetic::power::*;
use crate::strutil::{dec_digits, u128_to_dec_chars, chars_to_string};
use crate::MAX_SCALE;

verus! {

/// An exact decimal: the value `units / 10^scale`.
#[derive(Clone, Copy, PartialEq, Eq, Structural, Debug)]
pub struct Dec {
    pub units: i128,
    pub scale: u32,
}

/// Ten to the given power.
pub open spec fn pow10(e: nat) -> int {
    pow(10, e)
}

/// A well-formed decimal keeps its scale within the library bound.
pub open spec fn dec_wf(d: Dec) -> bool {
    d.scale <= MAX_SCALE
}

/// The numerator of `d` written over the denominator `10^MAX_SCALE`.
/// Two well-formed decimals are equal in value exactly when their `val18` agree.
pub open spec fn val18(d: Dec) -> int {
    d.units * pow10((MAX_SCALE - d.scale) as nat)
}

pub proof fn lemma_pow10_adds(a: nat, b: nat)
    ensures
        pow10(a + b) == pow10(a) * pow10(b),
{
    lemma_pow_adds(10, a, b);
}

pub proof fn lemma_pow10_monotone(a: nat, b: nat)
    requires
        a <= b,
    ensures
        pow10(a) <= pow10(b),
{
    lemma_pow_increases(10, a, b);
}

pub proof fn lemma_pow10_pos(e: nat)
    ensures
        pow10(e) >= 1,
{
    lemma_pow_positive(10, e);
    lemma_pow_increases(10, 0, e);
    assert(pow(10, 0) == 1) by {
        lemma_pow0(10);
    }
}

/// Ten to the given power, computed at the library's scale bound.
pub fn pow10_i128(e: u32) -> (r: i128)
    requires
        e <= MAX_SCALE,
    ensures
        r == pow10(e as nat),
        1 <= r <= 1000_000_000_000_000_000,
{
    proof {
        lemma_pow0(10);
    }
    let mut r: i128 = 1;
    let mut k: u32 = 0;
    while k < e
        invariant
            k <= e <= MAX_SCALE,
            r == pow10(k as nat),
        decreases e - k,
    {
        proof {
            reveal_with_fuel(pow, 19);
            assert(pow10((k + 1) as nat) == 10 * pow10(k as nat));
            lemma_pow10_monotone((k + 1) as nat, MAX_SCALE as nat);
            assert(pow10(18) == 1000_000_000_000_000_000);
        }
        r = r * 10;
        k = k + 1;
    }
    proof {
        lemma_pow10_pos(e as nat);
        lemma_pow10_monotone(e as nat, MAX_SCALE as nat);
        reveal_with_fuel(pow, 19);
        assert(pow10(18) == 1000_000_000_000_000_000);
    }
    r
}

/// What the sum of two decimals is: both are brought to the larger scale and
/// the numerators added; `None` when a numerator leaves the `i128` range.
pub open spec fn spec_dec_add(a: Dec, b: Dec) -> Option<Dec> {
    let s = if a.scale >= b.scale { a.scale } else { b.scale };
    let ua = a.units * pow10((s - a.scale) as nat);
    let ub = b.units * pow10((s - b.scale) as nat);
    if i128::MIN <= ua <= i128::MAX && i128::MIN <= ub <= i128::MAX && i128::MIN <= ua + ub
        <= i128::MAX {
        Some(Dec { units: (ua + ub) as i128, scale: s })
    } else {
        None
    }
}

/// What the difference of two decimals is, over the larger scale.
pub open spec fn spec_dec_sub(a: Dec, b: Dec) -> Option<Dec> {
    let s = if a.scale >= b.scale { a.scale } else { b.scale };
    let ua = a.units * pow10((s - a.scale) as nat);
    let ub = b.units * pow10((s - b.scale) as nat);
    if i128::MIN <= ua <= i128::MAX && i128::MIN <= ub <= i128::MAX && i128::MIN <= ua - ub
        <= i128::MAX {
        Some(Dec { units: (ua - ub) as i128, scale: s })
    } else {
        None
    }
}

pub open spec fn dec_zero() -> Dec {
    Dec { units: 0, scale: 0 }
}

pub fn dec_new_zero() -> (r: Dec)
    ensures
        r == dec_zero(),
        dec_wf(r),
{
    Dec { units: 0, scale: 0 }
}

/// Brings `units` at scale `from` to scale `to`; `None` when it leaves `i128`.
fn rescale_units(units: i128, from: u32, to: u32) -> (r: Option<i128>)
    requires
        from <= to <= MAX_SCALE,
    ensures
        match r {
            Some(u) => u == units * pow10((to - from) as nat),
            None => !(i128::MIN <= units * pow10((to - from) as nat) <= i128::MAX),
        },
{
    let p = pow10_i128(to - from);
    units.checked_mul(p)
}

/// Adds two decimals exactly; `None` reports that the sum leaves `i128`.
pub fn dec_add(a: Dec, b: Dec) -> (r: Option<Dec>)
    requires
        dec_wf(a),
        dec_wf(b),
    ensures
        r == spec_dec_add(a, b),
        r is Some ==> dec_wf(r->0) && r->0.scale == (if a.scale >= b.scale {
            a.scale
        } else {
            b.scale
        }),
{
    let s = if a.scale >= b.scale {
        a.scale
    } else {
        b.scale
    };
    let ua = match rescale_units(a.units, a.scale, s) {
        Some(u) => u,
        None => {
            return None;
        },
    };
    let ub = match rescale_units(b.units, b.scale, s) {
        Some(u) => u,
        None => {
            return None;
        },
    };
    match ua.checked_add(ub) {
        Some(u) => Some(Dec { units: u, scale: s }),
        None => None,
    }
}

/// Subtracts two decimals exactly; `None` reports that the result leaves `i128`.
pub fn dec_sub(a: Dec, b: Dec) -> (r: Option<Dec>)
    requires
        dec_wf(a),
        dec_wf(b),
    ensures
        r == spec_dec_sub(a, b),
        r is Some ==> dec_wf(r->0) && r->0.scale == (if a.scale >= b.scale {
            a.scale
        } else {
            b.scale
        }),
{
    let s = if a.scale >= b.scale {
        a.scale
    } else {
        b.scale
    };
    let ua = match rescale_units(a.units, a.scale, s) {
        Some(u) => u,
        None => {
            return None;
        },
    };
    let ub = match rescale_units(b.units, b.scale, s) {
        Some(u) => u,
        None => {
            return None;
        },
    };
    match ua.checked_sub(ub) {
        Some(u) => Some(Dec { units: u, scale: s }),
        None => None,
    }
}

pub fn dec_is_negative(d: Dec) -> (r: bool)
    ensures
        r == (d.units < 0),
{
    d.units < 0
}

/// The sum keeps the exact value: over the common denominator `10^MAX_SCALE`,
/// the numerator of `a + b` is the sum of the numerators.
pub proof fn lemma_dec_add_val18(a: Dec, b: Dec, r: Dec)
    requires
        dec_wf(a),
        dec_wf(b),
        spec_dec_add(a, b) == Some(r),
    ensures
        dec_wf(r),
        val18(r) == val18(a) + val18(b),
{
    let s = if a.scale >= b.scale { a.scale } else { b.scale };
    let ua = a.units * pow10((s - a.scale) as nat);
    let ub = b.units * pow10((s - b.scale) as nat);
    let p = pow10((MAX_SCALE - s) as nat) as int;
    assert(val18(r) == (ua + ub) * p);
    lemma_mul_is_distributive_add_other_way(p, ua, ub);
    lemma_rescale_val(a.units as int, a.scale as nat, s as nat);
    lemma_rescale_val(b.units as int, b.scale as nat, s as nat);
}

/// The difference keeps the exact value over the common denominator.
pub proof fn lemma_dec_sub_val18(a: Dec, b: Dec, r: Dec)
    requires
        dec_wf(a),
        dec_wf(b),
        spec_dec_sub(a, b) == Some(r),
    ensures
        dec_wf(r),
        val18(r) == val18(a) - val18(b),
{
    let s = if a.scale >= b.scale { a.scale } else { b.scale };
    let ua = a.units * pow10((s - a.scale) as nat);
    let ub = b.units * pow10((s - b.scale) as nat);
    let p = pow10((MAX_SCALE - s) as nat) as int;
    assert(val18(r) == (ua - ub) * p);
    lemma_mul_is_distributive_sub_other_way(p, ua, ub);
    lemma_rescale_val(a.units as int, a.scale as nat, s as nat);
    lemma_rescale_val(b.units as int, b.scale as nat, s as nat);
}

/// Rescaling a numerator to a larger scale and then to `MAX_SCALE` is the
/// same as rescaling to `MAX_SCALE` at once.
proof fn lemma_rescale_val(units: int, from: nat, to: nat)
    requires
        from <= to <= MAX_SCALE,
    ensures
        (units * pow10((to - from) as nat)) * pow10((MAX_SCALE - to) as nat) == units * pow10(
            (MAX_SCALE - from) as nat,
        ),
{
    let d1 = (to - from) as nat;
    let d2 = (MAX_SCALE - to) as nat;
    lemma_pow10_adds(d1, d2);
    lemma_mul_is_associative(units, pow10(d1) as int, pow10(d2) as int);
}

pub open spec fn is_digit(c: char) -> bool {
    '0' <= c <= '9'
}

pub open spec fn digit_val(c: char) -> nat
    recommends
        is_digit(c),
{
    (c as int - '0' as int) as nat
}

/// The value of a sequence of decimal digit characters, most significant first.
pub open spec fn digits_val(s: Seq<char>) -> nat
    decreases s.len(),
{
    if s.len() == 0 {
        0
    } else {
        digits_val(s.drop_last()) * 10 + digit_val(s.last())
    }
}

pub open spec fn all_digits(s: Seq<char>) -> bool {
    forall|i: int| 0 <= i < s.len() ==> is_digit(s[i])
}

/// `d` marks the decimal point of `t`: every other position is a digit, the
/// integer part is non-empty, and a point, if present, is followed by at
/// least one digit. `d == t.len()` means no decimal point.
pub open spec fn dec_shape_at(t: Seq<char>, d: int) -> bool {
    &&& 1 <= d <= t.len()
    &&& (d < t.len() ==> t[d] == '.' && d + 1 < t.len())
    &&& forall|i: int| 0 <= i < t.len() && i != d ==> is_digit(t[i])
}

/// `t` with the decimal point at `d` removed.
pub open spec fn strip_dot(t: Seq<char>, d: int) -> Seq<char> {
    if d < t.len() {
        t.subrange(0, d) + t.subrange(d + 1, t.len() as int)
    } else {
        t
    }
}

/// The number of fractional digits when the decimal point of `t` sits at `d`.
pub open spec fn scale_at(t: Seq<char>, d: int) -> nat {
    if d < t.len() {
        (t.len() - d - 1) as nat
    } else {
        0
    }
}

/// The position of the first decimal point of `t`, or `t.len()` when there
/// is none.
pub open spec fn dot_pos(t: Seq<char>) -> int
    decreases t.len(),
{
    if t.len() == 0 {
        0
    } else if t[0] == '.' {
        0
    } else {
        1 + dot_pos(t.subrange(1, t.len() as int))
    }
}

/// A scan that saw no decimal point before `p`, and one at `p` unless `p` is
/// the end, has found the first decimal point.
pub proof fn lemma_dot_pos_of(t: Seq<char>, p: int)
    requires
        0 <= p <= t.len(),
        forall|k: int| 0 <= k < p ==> t[k] != '.',
        p < t.len() ==> t[p] == '.',
    ensures
        dot_pos(t) == p,
    decreases t.len(),
{
    if t.len() == 0 {
    } else if t[0] == '.' {
        assert(p == 0);
    } else {
        let t2 = t.subrange(1, t.len() as int);
        assert(forall|k: int| 0 <= k < p - 1 ==> t2[k] == t[k + 1]);
        lemma_dot_pos_of(t2, p - 1);
    }
}

/// What a decimal text means: an optional leading minus, an integer part,
/// and an optional point with a fractional part. `None` when the text has a
/// different shape, carries more than 38 digits, more than `MAX_SCALE`
/// fractional digits, or a magnitude above `i128::MAX`.
pub open spec fn spec_parse_dec(s: Seq<char>) -> Option<Dec> {
    let neg = s.len() > 0 && s[0] == '-';
    let t = if neg {
        s.subrange(1, s.len() as int)
    } else {
        s
    };
    let d = dot_pos(t);
    if dec_shape_at(t, d) {
        let ds = strip_dot(t, d);
        let sc = scale_at(t, d);
        let m = digits_val(ds);
        if ds.len() <= 38 && sc <= MAX_SCALE && m <= i128::MAX {
            Some(
                Dec {
                    units: if neg {
                        (-(m as int)) as i128
                    } else {
                        m as i128
                    },
                    scale: sc as u32,
                },
            )
        } else {
            None
        }
    } else {
        None
    }
}

pub proof fn lemma_digits_val_bound(s: Seq<char>)
    requires
        all_digits(s),
    ensures
        digits_val(s) < pow10(s.len()),
    decreases s.len(),
{
    lemma_pow10_pos(s.len());
    if s.len() > 0 {
        assert(all_digits(s.drop_last()));
        lemma_digits_val_bound(s.drop_last());
        assert(is_digit(s.last()));
        assert(digit_val(s.last()) <= 9);
        lemma_pow10_adds((s.len() - 1) as nat, 1);
        lemma_pow1(10);
        assert(pow10(s.len()) == pow10((s.len() - 1) as nat) * 10);
        assert(digits_val(s.drop_last()) * 10 <= (pow10((s.len() - 1) as nat) - 1) * 10) by {
            lemma_mul_inequality(
                digits_val(s.drop_last()) as int,
                pow10((s.len() - 1) as nat) - 1,
                10,
            );
        }
    }
}

pub fn is_digit_exec(c: char) -> (r: bool)
    ensures
        r == is_digit(c),
{
    '0' <= c && c <= '9'
}

fn digit_value(c: char) -> (r: u8)
    requires
        is_digit(c),
    ensures
        r as nat == digit_val(c),
        r < 10,
{
    (c as u32 - '0' as u32) as u8
}

/// Parses a decimal text into an exact decimal, exactly as [`spec_parse_dec`]
/// says.
#[verifier::loop_isolation(false)]
#[verifier::rlimit(80)]
pub fn parse_dec_chars(v: &Vec<char>) -> (r: Option<Dec>)
    ensures
        r == spec_parse_dec(v@),
        r is Some ==> dec_wf(r->0),
{
    let n = v.len();
    let neg = n > 0 && v[0] == '-';
    let i: usize = if neg {
        1
    } else {
        0
    };
    let ghost t = if neg {
        v@.subrange(1, n as int)
    } else {
        v@
    };
    assert(t.len() == n - i);
    assert(forall|k: int| 0 <= k < t.len() ==> t[k] == v@[k + i]);
    proof {
        assert((if v@.len() > 0 && v@[0] == '-' {
            v@.subrange(1, v@.len() as int)
        } else {
            v@
        }) == t);
    }

    let mut first_dot: usize = n;
    let mut second_dot: usize = n;
    let mut bad: usize = n;
    let mut j: usize = i;
    while j < n
        invariant
            i <= j <= n,
            n == v@.len(),
            first_dot <= n,
            second_dot <= n,
            bad <= n,
            first_dot == n ==> forall|k: int| i <= k < j ==> v@[k] != '.',
            first_dot < n ==> i <= first_dot < j && v@[first_dot as int] == '.',
            second_dot == n ==> forall|k: int|
                i <= k < j && k != first_dot ==> v@[k] != '.',
            second_dot < n ==> i <= second_dot < j && v@[second_dot as int] == '.'
                && first_dot < second_dot,
            bad < n ==> i <= bad < j && !is_digit(v@[bad as int]) && v@[bad as int] != '.',
            bad == n ==> forall|k: int|
                i <= k < j ==> is_digit(v@[k]) || v@[k] == '.',
        decreases n - j,
    {
        let c = v[j];
        if c == '.' {
            if first_dot == n {
                first_dot = j;
            } else if second_dot == n {
                second_dot = j;
            }
        } else if !is_digit_exec(c) {
            if bad == n {
                bad = j;
            }
        }
        j += 1;
    }

    if i == n {
        proof {
            assert(forall|d: int| !dec_shape_at(t, d));
            assert(!dec_shape_at(t, dot_pos(t)));
        }
        return None;
    }
    if bad < n {
        proof {
            let k = bad - i;
            assert(t[k] == v@[bad as int]);
            assert forall|d: int| !dec_shape_at(t, d) by {
                if dec_shape_at(t, d) {
                    if d == k {
                        assert(t[d] == '.');
                    } else {
                        assert(is_digit(t[k]));
                    }
                }
            }
            assert(!dec_shape_at(t, dot_pos(t)));
        }
        return None;
    }
    if second_dot < n {
        proof {
            let k1 = first_dot - i;
            let k2 = second_dot - i;
            assert(t[k1] == '.' && t[k2] == '.' && k1 != k2);
            assert forall|d: int| !dec_shape_at(t, d) by {
                if dec_shape_at(t, d) {
                    if d != k1 {
                        assert(is_digit(t[k1]));
                    } else {
                        assert(is_digit(t[k2]));
                    }
                }
            }
            assert(!dec_shape_at(t, dot_pos(t)));
        }
        return None;
    }
    if first_dot < n && (first_dot == i || first_dot + 1 == n) {
        proof {
            let k = first_dot - i;
            assert(t[k] == '.');
            assert forall|d: int| !dec_shape_at(t, d) by {
                if dec_shape_at(t, d) {
                    if d != k {
                        assert(is_digit(t[k]));
                    }
                }
            }
            assert(!dec_shape_at(t, dot_pos(t)));
        }
        return None;
    }

    let ghost d: int = if first_dot < n {
        first_dot - i
    } else {
        t.len() as int
    };
    proof {
        assert forall|p: int| 0 <= p < t.len() && p != d implies is_digit(t[p]) by {
            assert(t[p] == v@[p + i]);
            assert(is_digit(v@[p + i]) || v@[p + i] == '.');
            if v@[p + i] == '.' {
                assert(first_dot < n && p + i == first_dot);
            }
        }
        assert(dec_shape_at(t, d));
        assert forall|k: int| 0 <= k < d implies t[k] != '.' by {
            assert(t[k] == v@[k + i]);
        }
        if first_dot < n {
            assert(t[d] == v@[first_dot as int]);
        }
        lemma_dot_pos_of(t, d);
    }
    let ghost ds = strip_dot(t, d);

    let ds_len: usize = if first_dot < n {
        n - i - 1
    } else {
        n - i
    };
    assert(ds.len() == ds_len);
    let sc: usize = if first_dot < n {
        n - 1 - first_dot
    } else {
        0
    };
    assert(sc == scale_at(t, d));
    if ds_len > 38 || sc > 18 {
        return None;
    }

    proof {
        reveal_with_fuel(pow, 39);
        assert(pow10(38) == 100000000000000000000000000000000000000);
    }
    let mut acc: u128 = 0;
    let ghost mut pre: Seq<char> = Seq::empty();
    let mut k: usize = i;
    while k < n
        invariant
            i <= k <= n,
            n == v@.len(),
            i <= 1,
            t == (if i == 1 {
                v@.subrange(1, n as int)
            } else {
                v@
            }),
            dec_shape_at(t, d),
            d == (if first_dot < n {
                first_dot - i
            } else {
                t.len() as int
            }),
            first_dot < n ==> i < first_dot < n,
            ds == strip_dot(t, d),
            ds.len() == ds_len <= 38,
            pre.len() == (if k <= first_dot {
                k - i
            } else {
                k - i - 1
            }),
            pre =~= ds.subrange(0, pre.len() as int),
            all_digits(pre),
            acc == digits_val(pre),
        decreases n - k,
    {
        let c = v[k];
        if !(first_dot < n && k == first_dot) {
            proof {
                assert(t[k - i] == v@[k as int]);
                assert(is_digit(t[k - i]));
                let cnt = pre.len() as int;
                assert(ds[cnt] == v@[k as int]);
                assert(pre.len() + 1 <= 38);
                lemma_digits_val_bound(pre);
                lemma_pow10_monotone(pre.len() + 1, 38);
                lemma_pow10_adds(pre.len(), 1);
                lemma_pow1(10);
                assert(acc * 10 <= (pow10(pre.len()) - 1) * 10) by {
                    lemma_mul_inequality(acc as int, pow10(pre.len()) - 1, 10);
                }
            }
            let dv = digit_value(c);
            acc = acc * 10 + dv as u128;
            proof {
                let pre2 = pre.push(v@[k as int]);
                assert(pre2.drop_last() =~= pre);
                assert(digits_val(pre2) == digits_val(pre) * 10 + digit_val(v@[k as int]));
                assert(pre2 =~= ds.subrange(0, pre2.len() as int));
                pre = pre2;
            }
        } else {
            proof {
                assert(pre.len() == k - i);
                assert(pre =~= ds.subrange(0, pre.len() as int));
            }
        }
        k += 1;
    }
    proof {
        assert(pre =~= ds);
        assert(acc == digits_val(ds));
        assert((if v@.len() > 0 && v@[0] == '-' {
            v@.subrange(1, v@.len() as int)
        } else {
            v@
        }) == t);
    }
    if acc > (i128::MAX as u128) {
        return None;
    }
    let units: i128 = if neg {
        -(acc as i128)
    } else {
        acc as i128
    };
    Some(Dec { units, scale: sc as u32 })
}

/// Parses a decimal string slice into an exact decimal.
pub fn parse_dec_str(s: &str) -> (r: Option<Dec>)
    ensures
        r == spec_parse_dec(s@),
        r is Some ==> dec_wf(r->0),
{
    let v = crate::strutil::str_to_chars(s);
    parse_dec_chars(&v)
}

/// `s` padded on the left with zero digits up to length `n`.
pub open spec fn zero_pad(s: Seq<char>, n: nat) -> Seq<char> {
    if s.len() >= n {
        s
    } else {
        Seq::new((n - s.len()) as nat, |i: int| '0') + s
    }
}

/// The text of a decimal: an optional minus sign, then the digits with a
/// decimal point placed `scale` digits from the right; a zero integer part
/// is written out, as in `0.05`.
pub open spec fn spec_dec_chars(d: Dec) -> Seq<char> {
    let mag = (if d.units < 0 {
        -(d.units as int)
    } else {
        d.units as int
    }) as nat;
    let sign: Seq<char> = if d.units < 0 {
        seq!['-']
    } else {
        Seq::empty()
    };
    if d.scale == 0 {
        sign + dec_digits(mag)
    } else {
        let p = zero_pad(dec_digits(mag), d.scale as nat + 1);
        sign + p.subrange(0, p.len() - d.scale) + seq!['.'] + p.subrange(
            p.len() - d.scale,
            p.len() as int,
        )
    }
}

/// Renders a decimal as text, exactly as [`spec_dec_chars`] says.
#[verifier::loop_isolation(false)]
#[verifier::rlimit(80)]
pub fn dec_to_chars(d: Dec) -> (r: Vec<char>)
    requires
        dec_wf(d),
    ensures
        r@ == spec_dec_chars(d),
{
    let neg = d.units < 0;
    let mag: u128 = if d.units < 0 {
        ((-(d.units + 1)) as u128) + 1
    } else {
        d.units as u128
    };
    assert(mag == (if d.units < 0 {
        -(d.units as int)
    } else {
        d.units as int
    }));
    let digs = u128_to_dec_chars(mag);
    let sc = d.scale as usize;
    let need: usize = sc + 1;
    let mut padded: Vec<char> = Vec::new();
    let pad_cnt: usize = if digs.len() < need {
        need - digs.len()
    } else {
        0
    };
    let mut i: usize = 0;
    while i < pad_cnt
        invariant
            i <= pad_cnt,
            padded@ =~= Seq::new(i as nat, |k: int| '0'),
        decreases pad_cnt - i,
    {
        padded.push('0');
        i += 1;
        assert(padded@ =~= Seq::new(i as nat, |k: int| '0'));
    }
    let mut j: usize = 0;
    while j < digs.len()
        invariant
            j <= digs@.len(),
            padded@ =~= Seq::new(pad_cnt as nat, |k: int| '0') + digs@.subrange(0, j as int),
        decreases digs@.len() - j,
    {
        padded.push(digs[j]);
        j += 1;
        assert(padded@ =~= Seq::new(pad_cnt as nat, |k: int| '0') + digs@.subrange(0, j as int));
    }
    assert(digs@.subrange(0, digs@.len() as int) =~= digs@);
    assert(padded@ =~= zero_pad(digs@, need as nat));
    assert(padded.len() >= need);

    let mut r: Vec<char> = Vec::new();
    if neg {
        r.push('-');
    }
    let ghost sign: Seq<char> = if d.units < 0 {
        seq!['-']
    } else {
        Seq::empty()
    };
    assert(r@ =~= sign);
    let int_len: usize = padded.len() - sc;
    let mut k: usize = 0;
    while k < int_len
        invariant
            k <= int_len <= padded@.len(),
            r@ =~= sign + padded@.subrange(0, k as int),
        decreases int_len - k,
    {
        r.push(padded[k]);
        k += 1;
        assert(r@ =~= sign + padded@.subrange(0, k as int));
    }
    if sc > 0 {
        r.push('.');
        assert(r@ =~= sign + padded@.subrange(0, int_len as int) + seq!['.']);
        let mut m: usize = int_len;
        while m < padded.len()
            invariant
                int_len <= m <= padded@.len(),
                r@ =~= sign + padded@.subrange(0, int_len as int) + seq!['.'] + padded@.subrange(
                    int_len as int,
                    m as int,
                ),
            decreases padded@.len() - m,
        {
            r.push(padded[m]);
            m += 1;
            assert(r@ =~= sign + padded@.subrange(0, int_len as int) + seq!['.']
                + padded@.subrange(int_len as int, m as int));
        }
        assert(r@ =~= spec_dec_chars(d));
    } else {
        assert(padded@.subrange(0, int_len as int) =~= padded@);
        assert(r@ =~= spec_dec_chars(d));
    }
    r
}

/// Renders a decimal as a `String`.
pub fn dec_to_string(d: &Dec) -> (r: String)
    requires
        dec_wf(*d),
    ensures
        r@ == spec_dec_chars(*d),
{
    let v = dec_to_chars(*d);
    chars_to_string(&v)
}

} // verus!
