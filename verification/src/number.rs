//! Fixed-point arithmetic on coordinates and their decimal text.

use vstd::prelude::*;

verus! {

/// The quotient of `n` by `d`, rounded toward zero.
pub open spec fn trunc_div(n: int, d: int) -> int {
    if n >= 0 {
        n / d
    } else {
        -((-n) / d)
    }
}

/// `v` times the ratio `num / den`, rounded toward zero.
pub open spec fn scaled(v: int, num: int, den: int) -> int {
    trunc_div(v * num, den)
}

/// Two thirds of `d`, rounded toward zero.
pub open spec fn two_thirds(d: int) -> int {
    trunc_div(2 * d, 3)
}

/// Whether `v` can be held in a coordinate.
pub open spec fn in_range(v: int) -> bool {
    i64::MIN <= v <= i64::MAX
}

/// `v` brought to the nearest value that a coordinate can hold.
pub open spec fn clamped(v: int) -> int {
    if v < i64::MIN {
        i64::MIN as int
    } else if v > i64::MAX {
        i64::MAX as int
    } else {
        v
    }
}

/// Rounding toward zero commutes with negation.
pub proof fn lemma_trunc_div_neg(n: int, d: int)
    requires
        d > 0,
    ensures
        trunc_div(-n, d) == -trunc_div(n, d),
{
}

/// Scaling by the negated ratio negates the result.
pub proof fn lemma_scaled_neg(v: int, num: int, den: int)
    requires
        den > 0,
    ensures
        scaled(v, -num, den) == -scaled(v, num, den),
{
    assert(v * (-num) == -(v * num)) by (nonlinear_arith);
    lemma_trunc_div_neg(v * num, den);
}

/// Scaling by a ratio of one changes nothing.
pub proof fn lemma_scaled_one(v: int, den: int)
    requires
        den > 0,
    ensures
        scaled(v, den, den) == v,
{
    if v >= 0 {
        assert(v * den >= 0) by (nonlinear_arith)
            requires
                v >= 0,
                den > 0,
        ;
        assert((v * den) / den == v) by (nonlinear_arith)
            requires
                den > 0,
        ;
    } else {
        assert(-(v * den) == (-v) * den) by (nonlinear_arith);
        assert((-v) * den > 0) by (nonlinear_arith)
            requires
                v < 0,
                den > 0,
        ;
        assert(((-v) * den) / den == -v) by (nonlinear_arith)
            requires
                den > 0,
        ;
    }
}

/// The size of a scaled value is bounded by the sizes of its factors.
pub proof fn lemma_scaled_bound(v: int, num: int, den: int, bv: int, bn: int)
    requires
        den > 0,
        -bv <= v <= bv,
        -bn <= num <= bn,
    ensures
        -(bv * bn) <= scaled(v, num, den) <= bv * bn,
{
    let p = v * num;
    assert(-(bv * bn) <= p <= bv * bn) by (nonlinear_arith)
        requires
            p == v * num,
            -bv <= v <= bv,
            -bn <= num <= bn,
    ;
    if p >= 0 {
        assert(0 <= p / den <= p) by (nonlinear_arith)
            requires
                p >= 0,
                den > 0,
        ;
    } else {
        assert(0 <= (-p) / den <= -p) by (nonlinear_arith)
            requires
                p < 0,
                den > 0,
        ;
    }
}

/// A value of no negative factors is not negative after scaling.
pub proof fn lemma_scaled_nonnegative(v: int, num: int, den: int)
    requires
        den > 0,
        v >= 0,
        num >= 0,
    ensures
        scaled(v, num, den) >= 0,
{
    let p = v * num;
    assert(p >= 0) by (nonlinear_arith)
        requires
            p == v * num,
            v >= 0,
            num >= 0,
    ;
    assert(p / den >= 0) by (nonlinear_arith)
        requires
            p >= 0,
            den > 0,
    ;
}

/// Computes `v * num / den`, rounded toward zero, without loss.
pub(crate) fn scale(v: i64, num: i64, den: i64) -> (r: i128)
    requires
        den > 0,
    ensures
        r == scaled(v as int, num as int, den as int),
        -0x4000_0000_0000_0000_0000_0000_0000_0000 <= r <= 0x4000_0000_0000_0000_0000_0000_0000_0000,
{
    let a: i128 = v as i128;
    let b: i128 = num as i128;
    let d: i128 = den as i128;
    proof {
        lemma_scaled_bound(v as int, num as int, den as int, 0x8000_0000_0000_0000, 0x8000_0000_0000_0000);
        assert(-(0x8000_0000_0000_0000int * 0x8000_0000_0000_0000int) <= a * b <= 0x8000_0000_0000_0000int
            * 0x8000_0000_0000_0000int) by (nonlinear_arith)
            requires
                -0x8000_0000_0000_0000 <= a <= 0x8000_0000_0000_0000,
                -0x8000_0000_0000_0000 <= b <= 0x8000_0000_0000_0000,
        ;
    }
    let p: i128 = a * b;
    if p >= 0 {
        p / d
    } else {
        -((-p) / d)
    }
}

/// Computes two thirds of `d`, rounded toward zero.
pub(crate) fn two_thirds_of(d: i128) -> (r: i128)
    requires
        -0x1_0000_0000_0000_0000 <= d <= 0x1_0000_0000_0000_0000,
    ensures
        r == two_thirds(d as int),
{
    let p: i128 = 2 * d;
    if p >= 0 {
        p / 3
    } else {
        -((-p) / 3)
    }
}

/// The character of one decimal digit.
#[verifier::opaque]
pub open spec fn digit_char(d: int) -> char {
    if d == 0 {
        '0'
    } else if d == 1 {
        '1'
    } else if d == 2 {
        '2'
    } else if d == 3 {
        '3'
    } else if d == 4 {
        '4'
    } else if d == 5 {
        '5'
    } else if d == 6 {
        '6'
    } else if d == 7 {
        '7'
    } else if d == 8 {
        '8'
    } else {
        '9'
    }
}

/// The decimal digits of `n`, most significant first, without leading zeros.
pub open spec fn decimal(n: nat) -> Seq<char>
    decreases n,
{
    if n < 10 {
        seq![digit_char(n as int)]
    } else {
        decimal(n / 10).push(digit_char((n % 10) as int))
    }
}

/// The text of `f` thousandths behind the units: nothing for zero, else a
/// point and up to three digits, the trailing zeros left out.
pub open spec fn fraction(f: int) -> Seq<char> {
    if f == 0 {
        Seq::empty()
    } else if f % 100 == 0 {
        seq!['.', digit_char(f / 100)]
    } else if f % 10 == 0 {
        seq!['.', digit_char(f / 100), digit_char((f / 10) % 10)]
    } else {
        seq!['.', digit_char(f / 100), digit_char((f / 10) % 10), digit_char(f % 10)]
    }
}

/// The size of `v` without its sign.
pub open spec fn magnitude(v: int) -> int {
    if v < 0 {
        -v
    } else {
        v
    }
}

/// The sign that the text of `v` starts with.
pub open spec fn sign_text(v: int) -> Seq<char> {
    if v < 0 {
        seq!['-']
    } else {
        Seq::empty()
    }
}

/// The decimal text of the coordinate `v`: a minus sign if it is negative,
/// the whole units, and the thousandths as far as they are not zero.
pub open spec fn coord_text(v: int) -> Seq<char> {
    sign_text(v) + decimal((magnitude(v) / 1000) as nat) + fraction(magnitude(v) % 1000)
}

fn digit_str(d: u64) -> (s: &'static str)
    requires
        d < 10,
    ensures
        s@ == seq![digit_char(d as int)],
{
    proof {
        reveal(digit_char);
        reveal_strlit("0");
        reveal_strlit("1");
        reveal_strlit("2");
        reveal_strlit("3");
        reveal_strlit("4");
        reveal_strlit("5");
        reveal_strlit("6");
        reveal_strlit("7");
        reveal_strlit("8");
        reveal_strlit("9");
    }
    let s = if d == 0 {
        "0"
    } else if d == 1 {
        "1"
    } else if d == 2 {
        "2"
    } else if d == 3 {
        "3"
    } else if d == 4 {
        "4"
    } else if d == 5 {
        "5"
    } else if d == 6 {
        "6"
    } else if d == 7 {
        "7"
    } else if d == 8 {
        "8"
    } else {
        "9"
    };
    assert(s@ =~= seq![digit_char(d as int)]);
    s
}

fn push_decimal(out: &mut String, n: u64)
    ensures
        final(out)@ == old(out)@ + decimal(n as nat),
    decreases n,
{
    if n >= 10 {
        push_decimal(out, n / 10);
    }
    out.append(digit_str(n % 10));
    assert(out@ =~= old(out)@ + decimal(n as nat));
}

fn push_fraction(out: &mut String, f: u64)
    requires
        f < 1000,
    ensures
        final(out)@ == old(out)@ + fraction(f as int),
{
    if f != 0 {
        out.append(".");
        out.append(digit_str(f / 100));
        if f % 100 != 0 {
            out.append(digit_str((f / 10) % 10));
            if f % 10 != 0 {
                out.append(digit_str(f % 10));
            }
        }
    }
    proof {
        reveal_strlit(".");
    }
    assert(out@ =~= old(out)@ + fraction(f as int));
}

/// Appends the decimal text of the coordinate `v` to `out`.
pub fn push_coord(out: &mut String, v: i64)
    ensures
        final(out)@ == old(out)@ + coord_text(v as int),
{
    let wide: i128 = v as i128;
    let m: u64 = if v < 0 {
        out.append("-");
        (-wide) as u64
    } else {
        wide as u64
    };
    push_decimal(out, m / 1000);
    push_fraction(out, m % 1000);
    proof {
        reveal_strlit("-");
    }
    assert(out@ =~= old(out)@ + coord_text(v as int));
}

} // verus!
