//! Fixed-point amounts held as a signed mantissa and a decimal scale,
//! with the arithmetic of `rust_decimal` behind small trusted wrappers.
use rust_decimal::Decimal;
use std::str::FromStr;
use vstd::prelude::*;

verus! {

/// Largest mantissa magnitude that a decimal can hold (96 bits).
pub const MAX_MANTISSA: i128 = 0xFFFF_FFFF_FFFF_FFFF_FFFF_FFFFi128;

/// Largest number of fractional digits that a decimal can hold.
pub const MAX_SCALE: u32 = 28u32;

/// A decimal number `mantissa / 10^scale`, as held by `rust_decimal::Decimal`, with its sign
/// bit: `negative` is `mantissa < 0`, except that a zero may carry either sign (`-0`). `==`
/// compares representations; [`value_eq`] compares numbers.
#[derive(Clone, Copy, Debug, PartialEq, Eq, Structural)]
pub struct Amount {
    pub mantissa: i128,
    pub scale: u32,
    pub negative: bool,
}

/// `10^n`.
pub open spec fn pow10(n: nat) -> int
    decreases n,
{
    if n == 0 {
        1
    } else {
        10 * pow10((n - 1) as nat)
    }
}

/// A mantissa that fits in 96 bits (with a sign).
pub open spec fn fits(m: int) -> bool {
    -MAX_MANTISSA <= m <= MAX_MANTISSA
}

impl Amount {
    /// The representation invariant of a decimal: a 96-bit mantissa and at most 28 digits
    /// after the point.
    pub open spec fn wf(self) -> bool {
        &&& fits(self.mantissa as int)
        &&& self.scale <= MAX_SCALE
        &&& (self.mantissa != 0 ==> self.negative == (self.mantissa < 0))
    }

    /// The mantissa brought to `s` fractional digits (`s >= self.scale`).
    pub open spec fn at_scale(self, s: nat) -> int {
        self.mantissa * pow10((s - self.scale) as nat)
    }

    /// The number is zero.
    pub open spec fn is_zero_spec(self) -> bool {
        self.mantissa == 0
    }
}

/// `a < b` as numbers.
pub open spec fn value_lt(a: Amount, b: Amount) -> bool {
    a.mantissa * pow10(b.scale as nat) < b.mantissa * pow10(a.scale as nat)
}

/// `a == b` as numbers (the representations may differ in scale).
pub open spec fn value_eq(a: Amount, b: Amount) -> bool {
    a.mantissa * pow10(b.scale as nat) == b.mantissa * pow10(a.scale as nat)
}

/// The larger of the two scales.
pub open spec fn common_scale(a: Amount, b: Amount) -> nat {
    if a.scale >= b.scale {
        a.scale as nat
    } else {
        b.scale as nat
    }
}

/// The zero that `rust_decimal` returns from a product or quotient with a zero operand.
pub open spec fn zero() -> Amount {
    Amount { mantissa: 0, scale: 0, negative: false }
}

/// `-a`, with the same scale and the other sign.
pub open spec fn negated(a: Amount) -> Amount {
    Amount { mantissa: (-a.mantissa) as i128, scale: a.scale, negative: !a.negative }
}

/// A decimal given by its parts (mantissa, scale, sign bit), where the parts form one.
pub open spec fn lift(r: Option<(i128, u32, bool)>) -> Option<Amount> {
    match r {
        Some((m, s, n)) => if fits(m as int) && s <= MAX_SCALE && (m != 0 ==> n == (m < 0)) {
            Some(Amount { mantissa: m, scale: s, negative: n })
        } else {
            None
        },
        None => None,
    }
}

/// The sign bit of a result given by its parts.
pub open spec fn sign_of(r: Option<(i128, u32, bool)>) -> bool {
    match r {
        Some((_, _, n)) => n,
        None => false,
    }
}

/// The decimal with mantissa `m` at scale `s`: its sign is that of `m`, and where `m` is zero
/// the sign bit is the one of `named`.
pub open spec fn formed(m: int, s: nat, named: Option<(i128, u32, bool)>) -> Amount {
    Amount { mantissa: m as i128, scale: s as u32, negative: if m != 0 { m < 0 } else { sign_of(named) } }
}

/// What `Decimal::checked_add` returns for `a + b`, given by mantissas, scales and sign bits.
pub uninterp spec fn decimal_checked_add(am: i128, ascale: u32, aneg: bool, bm: i128, bscale: u32, bneg: bool) -> Option<(i128, u32, bool)>;

/// What `Decimal::checked_sub` returns for `a - b`, given by mantissas, scales and sign bits.
pub uninterp spec fn decimal_checked_sub(am: i128, ascale: u32, aneg: bool, bm: i128, bscale: u32, bneg: bool) -> Option<(i128, u32, bool)>;

/// What `Decimal::checked_mul` returns for `a * b`, given by mantissas, scales and sign bits.
pub uninterp spec fn decimal_checked_mul(am: i128, ascale: u32, aneg: bool, bm: i128, bscale: u32, bneg: bool) -> Option<(i128, u32, bool)>;

/// What `Decimal::checked_div` returns for `a / b`, given by mantissas, scales and sign bits.
pub uninterp spec fn decimal_checked_div(am: i128, ascale: u32, aneg: bool, bm: i128, bscale: u32, bneg: bool) -> Option<(i128, u32, bool)>;

/// What `Decimal::from_str` parses from a text, as mantissa, scale and sign bit.
pub uninterp spec fn decimal_from_str(text: Seq<char>) -> Option<(i128, u32, bool)>;

/// The character of a decimal digit.
pub open spec fn digit_char(d: nat) -> char {
    (48 + d) as char
}

/// The decimal digits of `n`, most significant first; none for zero.
pub open spec fn digits(n: nat) -> Seq<char>
    decreases n,
{
    if n == 0 {
        Seq::empty()
    } else {
        digits(n / 10).push(digit_char(n % 10))
    }
}

/// `n` zero digits.
pub open spec fn zeros(n: nat) -> Seq<char> {
    Seq::new(n, |i: int| '0')
}

/// The magnitude of a mantissa.
pub open spec fn magnitude(m: int) -> nat {
    if m < 0 {
        (-m) as nat
    } else {
        m as nat
    }
}

/// A decimal written with two digits after the point, as `format!("{:.2}", d)` writes it: a
/// minus sign where the sign bit is set, the integer digits (`0` where there are none), a point,
/// and the first two digits after the point, cut off rather than rounded and padded with zeros.
pub open spec fn text_2dp_spec(m: i128, scale: u32, negative: bool) -> Seq<char> {
    let d = digits(magnitude(m as int));
    let padded = if d.len() < scale { zeros((scale - d.len()) as nat) + d } else { d };
    let whole = padded.take(padded.len() - scale);
    let fraction = padded.skip(padded.len() - scale) + "00"@;
    (if negative { "-"@ } else { ""@ }) + (if whole.len() == 0 { "0"@ } else { whole }) + "."@ + fraction.take(2)
}

/// The exact sum, when both operands and the sum fit at the common scale.
pub open spec fn exact_sum_fits(a: Amount, b: Amount, s: nat) -> bool {
    &&& fits(a.at_scale(s))
    &&& fits(b.at_scale(s))
    &&& fits(a.at_scale(s) + b.at_scale(s))
}

/// `a + b` is formed exactly: a side is zero or the sum fits at the common scale.
pub open spec fn add_is_exact(a: Amount, b: Amount) -> bool {
    a.mantissa == 0 || b.mantissa == 0 || exact_sum_fits(a, b, common_scale(a, b))
}

/// `a - b` is formed exactly: a side is zero or the difference fits at the common scale.
pub open spec fn sub_is_exact(a: Amount, b: Amount) -> bool {
    a.mantissa == 0 || b.mantissa == 0 || exact_sum_fits(a, negated(b), common_scale(a, b))
}

/// `a * b` is formed exactly: a side is zero, or the scales add up to at most 28 and the
/// product of the mantissas fits.
pub open spec fn mul_is_exact(a: Amount, b: Amount) -> bool {
    a.mantissa == 0 || b.mantissa == 0 || (a.scale + b.scale <= MAX_SCALE && fits(
        a.mantissa * b.mantissa,
    ))
}

/// `a / b` is settled without rounding: the divisor or the dividend is zero.
pub open spec fn div_is_settled(a: Amount, b: Amount) -> bool {
    a.mantissa == 0 || b.mantissa == 0
}

/// `m` has the sign of `e`: both above zero, both below, or both zero.
pub open spec fn same_sign(m: int, e: int) -> bool {
    (m > 0 <==> e > 0) && (m < 0 <==> e < 0)
}

/// A rounded result, where it has the sign of the exact one `e`.
pub open spec fn keep_sign(r: Option<Amount>, e: int) -> Option<Amount> {
    match r {
        Some(x) => if same_sign(x.mantissa as int, e) {
            Some(x)
        } else {
            None
        },
        None => None,
    }
}

/// A rounded product, where its mantissa is not of the sign opposite to that of the exact
/// product `p` (a product may round to zero).
pub open spec fn keep_product_sign(r: Option<Amount>, p: int) -> Option<Amount> {
    match r {
        Some(x) => if (p > 0 ==> x.mantissa >= 0) && (p < 0 ==> x.mantissa <= 0) {
            Some(x)
        } else {
            None
        },
        None => None,
    }
}

/// The result of `a + b`: exact when a side is zero or the sum fits at the common scale,
/// otherwise whatever `rust_decimal` rounds to, which has the sign of the exact sum.
pub open spec fn add_result(a: Amount, b: Amount) -> Option<Amount> {
    let s = common_scale(a, b);
    if a.mantissa == 0 {
        Some(b)
    } else if b.mantissa == 0 {
        Some(a)
    } else if exact_sum_fits(a, b, s) {
        Some(formed(a.at_scale(s) + b.at_scale(s), s, decimal_checked_add(a.mantissa, a.scale, a.negative, b.mantissa, b.scale, b.negative)))
    } else {
        keep_sign(
            lift(decimal_checked_add(a.mantissa, a.scale, a.negative, b.mantissa, b.scale, b.negative)),
            a.at_scale(s) + b.at_scale(s),
        )
    }
}

/// The result of `a - b`, in the same way as [`add_result`]: a rounded difference has the
/// sign of the exact one.
pub open spec fn sub_result(a: Amount, b: Amount) -> Option<Amount> {
    let s = common_scale(a, b);
    if a.mantissa == 0 {
        if b.mantissa == 0 {
            Some(b)
        } else {
            Some(negated(b))
        }
    } else if b.mantissa == 0 {
        Some(a)
    } else if exact_sum_fits(a, negated(b), s) {
        Some(formed(a.at_scale(s) - b.at_scale(s), s, decimal_checked_sub(a.mantissa, a.scale, a.negative, b.mantissa, b.scale, b.negative)))
    } else {
        keep_sign(
            lift(decimal_checked_sub(a.mantissa, a.scale, a.negative, b.mantissa, b.scale, b.negative)),
            a.at_scale(s) - b.at_scale(s),
        )
    }
}

/// The result of `a * b`: exact when the product fits with at most 28 digits after the point,
/// otherwise whatever `rust_decimal` rounds to, which is zero or of the sign of the exact
/// product.
pub open spec fn mul_result(a: Amount, b: Amount) -> Option<Amount> {
    if a.mantissa == 0 || b.mantissa == 0 {
        Some(zero())
    } else if a.scale + b.scale <= MAX_SCALE && fits(a.mantissa * b.mantissa) {
        Some(formed(a.mantissa * b.mantissa, (a.scale + b.scale) as nat, None))
    } else {
        keep_product_sign(
            lift(decimal_checked_mul(a.mantissa, a.scale, a.negative, b.mantissa, b.scale, b.negative)),
            a.mantissa * b.mantissa,
        )
    }
}

/// The result of `a / b`: none for a zero divisor, zero for a zero dividend,
/// otherwise whatever `rust_decimal` computes.
pub open spec fn div_result(a: Amount, b: Amount) -> Option<Amount> {
    if b.mantissa == 0 {
        None
    } else if a.mantissa == 0 {
        Some(zero())
    } else {
        lift(decimal_checked_div(a.mantissa, a.scale, a.negative, b.mantissa, b.scale, b.negative))
    }
}

/// Powers of ten are positive.
pub proof fn lemma_pow10_pos(n: nat)
    ensures
        pow10(n) > 0,
    decreases n,
{
    if n > 0 {
        lemma_pow10_pos((n - 1) as nat);
    }
}

/// `10^(a+b) == 10^a * 10^b`.
pub proof fn lemma_pow10_add(a: nat, b: nat)
    ensures
        pow10(a + b) == pow10(a) * pow10(b),
    decreases b,
{
    if b > 0 {
        lemma_pow10_add(a, (b - 1) as nat);
        assert(pow10(a + b) == 10 * pow10((a + b - 1) as nat));
        assert(pow10(a) * pow10(b) == pow10(a) * (10 * pow10((b - 1) as nat)));
        assert(pow10(a) * (10 * pow10((b - 1) as nat)) == 10 * (pow10(a) * pow10((b - 1) as nat))) by (nonlinear_arith);
    }
}

/// Comparing two decimals as numbers is comparing their mantissas at any common scale.
pub proof fn lemma_compare_at_scale(x: Amount, y: Amount, s: nat)
    requires
        x.scale <= s,
        y.scale <= s,
    ensures
        value_lt(x, y) <==> x.at_scale(s) < y.at_scale(s),
        value_eq(x, y) <==> x.at_scale(s) == y.at_scale(s),
{
    let p = pow10((s - x.scale) as nat);
    let q = pow10((s - y.scale) as nat);
    let px = pow10(x.scale as nat);
    let py = pow10(y.scale as nat);
    let ps = pow10(s);
    lemma_pow10_add((s - x.scale) as nat, x.scale as nat);
    lemma_pow10_add((s - y.scale) as nat, y.scale as nat);
    assert((s - x.scale) as nat + x.scale as nat == s);
    assert((s - y.scale) as nat + y.scale as nat == s);
    lemma_pow10_pos((s - x.scale) as nat);
    lemma_pow10_pos((s - y.scale) as nat);
    lemma_pow10_pos(x.scale as nat);
    lemma_pow10_pos(y.scale as nat);
    lemma_pow10_pos(s);
    let xm = x.mantissa as int;
    let ym = y.mantissa as int;
    assert(xm * p * (px * py) == (xm * py) * ps) by (nonlinear_arith)
        requires
            ps == p * px,
    ;
    assert(ym * q * (px * py) == (ym * px) * ps) by (nonlinear_arith)
        requires
            ps == q * py,
    ;
    assert(xm * p < ym * q <==> xm * p * (px * py) < ym * q * (px * py)) by (nonlinear_arith)
        requires
            px > 0,
            py > 0,
    ;
    assert(xm * p == ym * q <==> xm * p * (px * py) == ym * q * (px * py)) by (nonlinear_arith)
        requires
            px > 0,
            py > 0,
    ;
    assert((xm * py) * ps < (ym * px) * ps <==> xm * py < ym * px) by (nonlinear_arith)
        requires
            ps > 0,
    ;
    assert((xm * py) * ps == (ym * px) * ps <==> xm * py == ym * px) by (nonlinear_arith)
        requires
            ps > 0,
    ;
}

/// Negating a decimal negates its mantissa at any scale.
pub proof fn lemma_negated_at_scale(a: Amount, s: nat)
    requires
        a.wf(),
    ensures
        negated(a).at_scale(s) == -a.at_scale(s),
        negated(a).wf(),
{
    let p = pow10((s - a.scale) as nat);
    let m = a.mantissa as int;
    assert((-m) * p == -(m * p)) by (nonlinear_arith);
}

/// At its own scale, a mantissa is itself.
pub proof fn lemma_at_own_scale(a: Amount)
    ensures
        a.at_scale(a.scale as nat) == a.mantissa,
{
    assert(pow10(0) == 1);
}

/// Bringing a mantissa from scale `s` to a larger scale `t` multiplies it by `10^(t - s)`.
pub proof fn lemma_at_scale_lift(x: Amount, s: nat, t: nat)
    requires
        x.scale <= s <= t,
    ensures
        x.at_scale(t) == x.at_scale(s) * pow10((t - s) as nat),
{
    let p1 = pow10((t - s) as nat);
    let p2 = pow10((s - x.scale) as nat);
    lemma_pow10_add((t - s) as nat, (s - x.scale) as nat);
    assert((t - s) as nat + (s - x.scale) as nat == (t - x.scale) as nat);
    let m = x.mantissa as int;
    assert(m * (p1 * p2) == (m * p2) * p1) by (nonlinear_arith);
}

/// At any scale, a mantissa keeps its sign.
pub proof fn lemma_at_scale_sign(x: Amount, s: nat)
    requires
        x.scale <= s,
    ensures
        x.at_scale(s) >= 0 <==> x.mantissa >= 0,
        x.at_scale(s) > 0 <==> x.mantissa > 0,
{
    let p = pow10((s - x.scale) as nat);
    lemma_pow10_pos((s - x.scale) as nat);
    let m = x.mantissa as int;
    assert(m * p >= 0 <==> m >= 0) by (nonlinear_arith)
        requires
            p > 0,
    ;
    assert(m * p > 0 <==> m > 0) by (nonlinear_arith)
        requires
            p > 0,
    ;
}

/// A sum formed exactly is the sum of the operands at their common scale.
pub proof fn lemma_add_exact_value(a: Amount, b: Amount)
    requires
        a.wf(),
        b.wf(),
        add_is_exact(a, b),
    ensures
        add_result(a, b) matches Some(r) && r.scale <= common_scale(a, b) && r.at_scale(common_scale(a, b))
            == a.at_scale(common_scale(a, b)) + b.at_scale(common_scale(a, b)),
{
    let s = common_scale(a, b);
    lemma_at_own_scale(a);
    lemma_at_own_scale(b);
    if a.mantissa == 0 {
        assert(a.at_scale(s) == 0) by {
            assert(a.mantissa * pow10((s - a.scale) as nat) == 0 * pow10((s - a.scale) as nat));
        }
    } else if b.mantissa == 0 {
        assert(b.at_scale(s) == 0) by {
            assert(b.mantissa * pow10((s - b.scale) as nat) == 0 * pow10((s - b.scale) as nat));
        }
    } else {
        let r = formed(a.at_scale(s) + b.at_scale(s), s, decimal_checked_add(a.mantissa, a.scale, a.negative, b.mantissa, b.scale, b.negative));
        lemma_at_own_scale(r);
    }
}

/// A difference formed exactly is the difference of the operands at their common scale.
pub proof fn lemma_sub_exact_value(a: Amount, b: Amount)
    requires
        a.wf(),
        b.wf(),
        sub_is_exact(a, b),
    ensures
        sub_result(a, b) matches Some(r) && r.scale <= common_scale(a, b) && r.at_scale(common_scale(a, b))
            == a.at_scale(common_scale(a, b)) - b.at_scale(common_scale(a, b)),
{
    let s = common_scale(a, b);
    lemma_at_own_scale(a);
    lemma_at_own_scale(b);
    lemma_negated_at_scale(b, s);
    if a.mantissa == 0 {
        assert(a.at_scale(s) == 0) by {
            assert(a.mantissa * pow10((s - a.scale) as nat) == 0 * pow10((s - a.scale) as nat));
        }
    } else if b.mantissa == 0 {
        assert(b.at_scale(s) == 0) by {
            assert(b.mantissa * pow10((s - b.scale) as nat) == 0 * pow10((s - b.scale) as nat));
        }
    } else {
        let r = formed(a.at_scale(s) - b.at_scale(s), s, decimal_checked_sub(a.mantissa, a.scale, a.negative, b.mantissa, b.scale, b.negative));
        lemma_at_own_scale(r);
    }
}

/// Adding back what was subtracted gives the number back, where the difference was formed
/// exactly.
pub proof fn lemma_sub_then_add(b: Amount, c: Amount)
    requires
        b.wf(),
        c.wf(),
        sub_is_exact(b, c),
    ensures
        sub_result(b, c) matches Some(d) && add_result(d, c) matches Some(e) && value_eq(e, b),
{
    let s = common_scale(b, c);
    lemma_negated_at_scale(c, s);
    lemma_at_own_scale(b);
    lemma_at_own_scale(c);
    if b.mantissa == 0 {
        if c.mantissa == 0 {
            assert(sub_result(b, c) == Some(c));
            assert(add_result(c, c) == Some(c));
            lemma_compare_at_scale(c, b, s);
        } else {
            let d = negated(c);
            assert(sub_result(b, c) == Some(d));
            let t = c.scale as nat;
            lemma_negated_at_scale(c, t);
            assert(common_scale(d, c) == t);
            assert(exact_sum_fits(d, c, t));
            let e = formed(d.at_scale(t) + c.at_scale(t), t, decimal_checked_add(d.mantissa, d.scale, d.negative, c.mantissa, c.scale, c.negative));
            assert(add_result(d, c) == Some(e));
            assert(e.mantissa == 0);
            lemma_compare_at_scale(e, b, s);
            assert(e.at_scale(s) == 0) by {
                assert(e.mantissa * pow10((s - e.scale) as nat) == 0 * pow10((s - e.scale) as nat));
            }
            assert(b.at_scale(s) == 0) by {
                assert(b.mantissa * pow10((s - b.scale) as nat) == 0 * pow10((s - b.scale) as nat));
            }
        }
    } else if c.mantissa == 0 {
        assert(sub_result(b, c) == Some(b));
        assert(add_result(b, c) == Some(b));
        lemma_compare_at_scale(b, b, s);
    } else {
        assert(exact_sum_fits(b, negated(c), s));
        let d = formed(b.at_scale(s) - c.at_scale(s), s, decimal_checked_sub(b.mantissa, b.scale, b.negative, c.mantissa, c.scale, c.negative));
        assert(sub_result(b, c) == Some(d));
        assert(d.wf());
        lemma_at_own_scale(d);
        assert(common_scale(d, c) == s);
        if d.mantissa == 0 {
            assert(add_result(d, c) == Some(c));
            lemma_compare_at_scale(c, b, s);
        } else {
            assert(exact_sum_fits(d, c, s));
            let e = formed(d.at_scale(s) + c.at_scale(s), s, decimal_checked_add(d.mantissa, d.scale, d.negative, c.mantissa, c.scale, c.negative));
            assert(add_result(d, c) == Some(e));
            lemma_at_own_scale(e);
            assert(e.at_scale(s) == b.at_scale(s));
            lemma_compare_at_scale(e, b, s);
        }
    }
}

/// Taking a number from one equal to it leaves zero.
pub proof fn lemma_sub_equal_is_zero(a: Amount, b: Amount)
    requires
        a.wf(),
        b.wf(),
        value_eq(a, b),
    ensures
        sub_result(a, b) matches Some(d) && d.mantissa == 0,
{
    let s = common_scale(a, b);
    lemma_compare_at_scale(a, b, s);
    lemma_negated_at_scale(b, s);
    lemma_at_own_scale(a);
    lemma_at_own_scale(b);
    lemma_pow10_pos(a.scale as nat);
    lemma_pow10_pos(b.scale as nat);
    let am = a.mantissa as int;
    let bm = b.mantissa as int;
    if a.mantissa == 0 {
        assert(bm * pow10(a.scale as nat) == 0) by (nonlinear_arith)
            requires
                am * pow10(b.scale as nat) == bm * pow10(a.scale as nat),
                am == 0,
        ;
        assert(bm == 0) by (nonlinear_arith)
            requires
                bm * pow10(a.scale as nat) == 0,
                pow10(a.scale as nat) > 0,
        ;
    } else if b.mantissa == 0 {
        assert(am * pow10(b.scale as nat) == 0) by (nonlinear_arith)
            requires
                am * pow10(b.scale as nat) == bm * pow10(a.scale as nat),
                bm == 0,
        ;
        assert(am == 0) by (nonlinear_arith)
            requires
                am * pow10(b.scale as nat) == 0,
                pow10(b.scale as nat) > 0,
        ;
    } else {
        assert(a.scale == s || b.scale == s);
        assert(exact_sum_fits(a, negated(b), s));
    }
}

/// A sum, exact or rounded, has the sign of the exact sum at the common scale.
pub proof fn lemma_add_sign(a: Amount, b: Amount)
    requires
        a.wf(),
        b.wf(),
    ensures
        add_result(a, b) matches Some(x) ==> same_sign(
            x.mantissa as int,
            a.at_scale(common_scale(a, b)) + b.at_scale(common_scale(a, b)),
        ),
{
    let s = common_scale(a, b);
    lemma_at_scale_sign(a, s);
    lemma_at_scale_sign(b, s);
    lemma_at_own_scale(a);
    lemma_at_own_scale(b);
}

/// A difference, exact or rounded, has the sign of the exact difference at the common scale.
pub proof fn lemma_sub_sign(a: Amount, b: Amount)
    requires
        a.wf(),
        b.wf(),
    ensures
        sub_result(a, b) matches Some(x) ==> same_sign(
            x.mantissa as int,
            a.at_scale(common_scale(a, b)) - b.at_scale(common_scale(a, b)),
        ),
{
    let s = common_scale(a, b);
    lemma_at_scale_sign(a, s);
    lemma_at_scale_sign(b, s);
    lemma_at_own_scale(a);
    lemma_at_own_scale(b);
    lemma_negated_at_scale(b, s);
}

/// A product of a number not below zero and one above zero, exact or rounded, is not below
/// zero.
pub proof fn lemma_mul_not_negative(a: Amount, b: Amount)
    requires
        a.wf(),
        b.wf(),
        a.mantissa >= 0,
        b.mantissa > 0,
    ensures
        mul_result(a, b) matches Some(x) ==> x.mantissa >= 0,
{
    let am = a.mantissa as int;
    let bm = b.mantissa as int;
    assert(am > 0 ==> am * bm > 0) by (nonlinear_arith)
        requires
            bm > 0,
    ;
}

/// Taking a number from one at least as large leaves no less than zero, and taking it from a
/// larger one leaves more than zero, whether the difference is exact or rounded.
pub proof fn lemma_sub_sign_by_order(b: Amount, c: Amount)
    requires
        b.wf(),
        c.wf(),
    ensures
        sub_result(b, c) matches Some(d) ==> (!value_lt(b, c) ==> d.mantissa >= 0) && (value_lt(c, b) ==> d.mantissa > 0),
{
    let s = common_scale(b, c);
    lemma_compare_at_scale(b, c, s);
    lemma_compare_at_scale(c, b, s);
    lemma_sub_sign(b, c);
}

/// A sum of decimals is a decimal.
pub broadcast proof fn lemma_add_result_wf(a: Amount, b: Amount)
    requires
        a.wf(),
        b.wf(),
    ensures
        #[trigger] add_result(a, b) matches Some(x) ==> x.wf(),
{
}

/// A difference of decimals is a decimal.
pub broadcast proof fn lemma_sub_result_wf(a: Amount, b: Amount)
    requires
        a.wf(),
        b.wf(),
    ensures
        #[trigger] sub_result(a, b) matches Some(x) ==> x.wf(),
{
    let s = common_scale(a, b);
    let p = pow10((s - b.scale) as nat);
    let m = b.mantissa as int;
    assert(negated(b).mantissa == -m);
    assert((-m) * p == -(m * p)) by (nonlinear_arith);
    assert(negated(b).at_scale(s) == -b.at_scale(s));
}

/// A product of decimals is a decimal.
pub broadcast proof fn lemma_mul_result_wf(a: Amount, b: Amount)
    requires
        a.wf(),
        b.wf(),
    ensures
        #[trigger] mul_result(a, b) matches Some(x) ==> x.wf(),
{
}

/// A quotient of decimals is a decimal.
pub broadcast proof fn lemma_div_result_wf(a: Amount, b: Amount)
    requires
        a.wf(),
        b.wf(),
    ensures
        #[trigger] div_result(a, b) matches Some(x) ==> x.wf(),
{
}

/// The results of the four operations on decimals are decimals.
pub broadcast group group_results_wf {
    lemma_add_result_wf,
    lemma_sub_result_wf,
    lemma_mul_result_wf,
    lemma_div_result_wf,
}

/// Calls `Decimal::checked_add` and reads the sum back as mantissa and scale. Claimed of it:
/// a zero operand gives the other operand as it is; when both operands and their sum fit in
/// 96 bits at the larger scale, the sum is formed exactly at that scale; otherwise the result
/// (rounded, or none on overflow) is the name `decimal_checked_add`, and where there is one it
/// has the sign of the exact sum (`rust_decimal` rounds only a sum of at least 2^96 units, to
/// fewer digits, and keeps its sign). Not claimed: the digits of a rounded sum.
#[verifier::external_body]
pub(crate) fn checked_add(a: Amount, b: Amount) -> (r: Option<Amount>)
    requires
        a.wf(),
        b.wf(),
    ensures
        r == add_result(a, b),
        !add_is_exact(a, b) ==> r == lift(decimal_checked_add(a.mantissa, a.scale, a.negative, b.mantissa, b.scale, b.negative)),
{
    let mut x = Decimal::from_i128_with_scale(a.mantissa, a.scale);
    x.set_sign_negative(a.negative);
    let mut y = Decimal::from_i128_with_scale(b.mantissa, b.scale);
    y.set_sign_negative(b.negative);
    match x.checked_add(y) {
        Some(d) => Some(Amount { mantissa: d.mantissa(), scale: d.scale(), negative: d.is_sign_negative() }),
        None => None,
    }
}

/// Calls `Decimal::checked_sub` and reads the difference back. Claimed of it: `0 - b` gives
/// `b` negated at its scale, `a - 0` gives `a`; when both operands and the difference fit in
/// 96 bits at the larger scale, the difference is formed exactly at that scale; otherwise the
/// result is the name `decimal_checked_sub`, and where there is one it has the sign of the
/// exact difference, as a rounded sum has. Not claimed: the digits of a rounded difference.
#[verifier::external_body]
pub(crate) fn checked_sub(a: Amount, b: Amount) -> (r: Option<Amount>)
    requires
        a.wf(),
        b.wf(),
    ensures
        r == sub_result(a, b),
        !sub_is_exact(a, b) ==> r == lift(decimal_checked_sub(a.mantissa, a.scale, a.negative, b.mantissa, b.scale, b.negative)),
{
    let mut x = Decimal::from_i128_with_scale(a.mantissa, a.scale);
    x.set_sign_negative(a.negative);
    let mut y = Decimal::from_i128_with_scale(b.mantissa, b.scale);
    y.set_sign_negative(b.negative);
    match x.checked_sub(y) {
        Some(d) => Some(Amount { mantissa: d.mantissa(), scale: d.scale(), negative: d.is_sign_negative() }),
        None => None,
    }
}

/// Calls `Decimal::checked_mul` and reads the product back. Claimed of it: a zero operand
/// gives zero at scale 0; when the scales add up to at most 28 and the product of the
/// mantissas fits in 96 bits, the product is that of the mantissas at the summed scale;
/// otherwise the result (rounded, or none on overflow) is the name `decimal_checked_mul`, and
/// where there is one its mantissa is zero or of the sign of the exact product (the sign is
/// the exclusive or of the operands' signs; the magnitude may round to zero). Not claimed: the
/// digits of a rounded product.
#[verifier::external_body]
pub(crate) fn checked_mul(a: Amount, b: Amount) -> (r: Option<Amount>)
    requires
        a.wf(),
        b.wf(),
    ensures
        r == mul_result(a, b),
        !mul_is_exact(a, b) ==> r == lift(decimal_checked_mul(a.mantissa, a.scale, a.negative, b.mantissa, b.scale, b.negative)),
{
    let mut x = Decimal::from_i128_with_scale(a.mantissa, a.scale);
    x.set_sign_negative(a.negative);
    let mut y = Decimal::from_i128_with_scale(b.mantissa, b.scale);
    y.set_sign_negative(b.negative);
    match x.checked_mul(y) {
        Some(d) => Some(Amount { mantissa: d.mantissa(), scale: d.scale(), negative: d.is_sign_negative() }),
        None => None,
    }
}

/// Calls `Decimal::checked_div` and reads the quotient back. Claimed of it: a zero divisor
/// gives none and a zero dividend gives zero at scale 0; every other quotient is left to the
/// name `decimal_checked_div`. Not claimed: the digits of a quotient.
#[verifier::external_body]
pub(crate) fn checked_div(a: Amount, b: Amount) -> (r: Option<Amount>)
    requires
        a.wf(),
        b.wf(),
    ensures
        r == div_result(a, b),
        !div_is_settled(a, b) ==> r == lift(decimal_checked_div(a.mantissa, a.scale, a.negative, b.mantissa, b.scale, b.negative)),
{
    let mut x = Decimal::from_i128_with_scale(a.mantissa, a.scale);
    x.set_sign_negative(a.negative);
    let mut y = Decimal::from_i128_with_scale(b.mantissa, b.scale);
    y.set_sign_negative(b.negative);
    match x.checked_div(y) {
        Some(d) => Some(Amount { mantissa: d.mantissa(), scale: d.scale(), negative: d.is_sign_negative() }),
        None => None,
    }
}

/// Calls `<` on two decimals. Claimed of it: it compares them as numbers, whatever their
/// scales.
#[verifier::external_body]
pub(crate) fn lt(a: Amount, b: Amount) -> (r: bool)
    requires
        a.wf(),
        b.wf(),
    ensures
        r == value_lt(a, b),
{
    Decimal::from_i128_with_scale(a.mantissa, a.scale) < Decimal::from_i128_with_scale(b.mantissa, b.scale)
}

/// Writes a decimal with `format!("{:.2}", ..)` (its `Display` with two decimals). Claimed of
/// it: the text is `text_2dp_spec`, which follows `rust_decimal`'s `to_str_internal` with a
/// precision of 2 and the sign that `Display` puts before it.
#[verifier::external_body]
pub(crate) fn text_2dp(a: Amount) -> (r: String)
    requires
        a.wf(),
    ensures
        r@ == text_2dp_spec(a.mantissa, a.scale, a.negative),
{
    let mut x = Decimal::from_i128_with_scale(a.mantissa, a.scale);
    x.set_sign_negative(a.negative);
    format!("{:.2}", x)
}

/// Calls `Decimal::from_str` and reads the number back as mantissa and scale; what it reads is
/// left to the name `decimal_from_str`, none where the text is not a decimal.
#[verifier::external_body]
pub(crate) fn parse(text: &str) -> (r: Option<Amount>)
    ensures
        r == lift(decimal_from_str(text@)),
{
    match Decimal::from_str(text) {
        Ok(d) => Some(Amount { mantissa: d.mantissa(), scale: d.scale(), negative: d.is_sign_negative() }),
        Err(_) => None,
    }
}

impl Amount {
    /// A decimal from its mantissa and scale, where they form one; a zero is `+0`.
    pub fn from_parts(mantissa: i128, scale: u32) -> (r: Option<Amount>)
        ensures
            r == lift(Some((mantissa, scale, mantissa < 0))),
            r matches Some(x) ==> x.wf(),
    {
        if -MAX_MANTISSA <= mantissa && mantissa <= MAX_MANTISSA && scale <= MAX_SCALE {
            Some(Amount { mantissa, scale, negative: mantissa < 0 })
        } else {
            None
        }
    }

    /// Whether the number is zero (`d == Decimal::ZERO`).
    pub fn is_zero(&self) -> (r: bool)
        ensures
            r == self.is_zero_spec(),
    {
        self.mantissa == 0
    }
}

} // verus!
