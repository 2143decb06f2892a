//! Numbers rounded to 53 significant binary digits.
//!
//! A quotient is given by its numerator and denominator. Rounding goes to the
//! nearest number with 53 significant binary digits, and to the even one of two
//! that are equally near.

use vstd::prelude::*;
use crate::numbers;
use crate::text;

verus! {

/// Two to the power of `n`.
pub open spec fn two_to(n: nat) -> nat
    decreases n,
{
    if n == 0 {
        1
    } else {
        2 * two_to((n - 1) as nat)
    }
}

/// Ten to the power of `n`.
pub open spec fn ten_to(n: nat) -> nat
    decreases n,
{
    if n == 0 {
        1
    } else {
        10 * ten_to((n - 1) as nat)
    }
}

/// The number of binary digits of a number.
pub open spec fn bits(n: nat) -> nat
    decreases n,
{
    if n == 0 {
        0
    } else {
        1 + bits(n / 2)
    }
}

/// The whole number nearest to a quotient, the even one of two.
pub open spec fn nearest(num: nat, den: nat) -> nat {
    let q = num / den;
    let r = num % den;
    if 2 * r < den || (2 * r == den && q % 2 == 0) {
        q
    } else {
        q + 1
    }
}

/// The least number of doublings that bring a positive numerator up to the denominator.
pub open spec fn lift(num: nat, den: nat) -> nat
    decreases den - num,
{
    if num == 0 || num >= den {
        0
    } else if 2 * num >= den {
        1
    } else {
        1 + lift(2 * num, den)
    }
}

/// The power of two by which a quotient is scaled to 53 binary digits.
pub open spec fn scale(num: nat, den: nat) -> int {
    if num >= den {
        53 - bits(num / den)
    } else {
        (52 + lift(num, den)) as int
    }
}

/// The 53 significant binary digits of a rounded quotient.
pub open spec fn significand(num: nat, den: nat) -> nat {
    let p = scale(num, den);
    if p >= 0 {
        nearest(num * two_to(p as nat), den)
    } else {
        nearest(num, den * two_to((-p) as nat))
    }
}

/// A quotient rounded to 53 significant binary digits and then cut to a whole number.
pub open spec fn rounded_whole(num: nat, den: nat) -> nat {
    let p = scale(num, den);
    if p >= 0 {
        significand(num, den) / two_to(p as nat)
    } else {
        significand(num, den) * two_to((-p) as nat)
    }
}

/// The number that decimal digits stand for, most significant first.
pub open spec fn digits_number(s: Seq<u8>) -> nat
    decreases s.len(),
{
    if s.len() == 0 {
        0
    } else {
        s[0] as nat * ten_to((s.len() - 1) as nat) + digits_number(s.skip(1))
    }
}

/// True of decimal digits.
pub open spec fn decimal_digits(s: Seq<u8>) -> bool {
    forall|i: int| 0 <= i < s.len() ==> (#[trigger] s[i]) < 10
}

/// The decimal digits of a sequence of digit characters.
pub open spec fn digits_of(s: Seq<char>) -> Seq<u8> {
    Seq::new(s.len(), |i: int| numbers::digit_value(s[i]) as u8)
}

proof fn lemma_number_front(s: Seq<char>)
    requires
        s.len() > 0,
    ensures
        numbers::number_of(s) == numbers::digit_value(s[0]) * ten_to((s.len() - 1) as nat)
            + numbers::number_of(s.skip(1)),
    decreases s.len(),
{
    let v = numbers::digit_value(s[0]);
    if s.len() == 1 {
        assert(s.drop_last() =~= seq![]);
        assert(s.skip(1) =~= seq![]);
        assert(ten_to(0) == 1);
        assert(v * 1 == v);
    } else {
        let t = s.drop_last();
        lemma_number_front(t);
        assert(t[0] == s[0]);
        assert(t.skip(1) =~= s.skip(1).drop_last());
        assert(s.skip(1).last() == s.last());
        let k = ten_to((t.len() - 1) as nat);
        assert(ten_to((s.len() - 1) as nat) == 10 * k);
        assert(10 * (v * k + numbers::number_of(t.skip(1))) == v * (10 * k) + 10
            * numbers::number_of(t.skip(1))) by (nonlinear_arith);
    }
}

proof fn lemma_digits_number(s: Seq<char>)
    requires
        forall|i: int| 0 <= i < s.len() ==> text::is_digit(#[trigger] s[i]),
    ensures
        digits_number(digits_of(s)) == numbers::number_of(s),
    decreases s.len(),
{
    if s.len() > 0 {
        lemma_number_front(s);
        lemma_digits_number(s.skip(1));
        assert(digits_of(s).skip(1) =~= digits_of(s.skip(1)));
        assert(digits_of(s)[0] as nat == numbers::digit_value(s[0]));
    }
}

proof fn lemma_ten_positive(n: nat)
    ensures
        ten_to(n) > 0,
    decreases n,
{
    if n > 0 {
        lemma_ten_positive((n - 1) as nat);
    }
}

proof fn lemma_two_positive(n: nat)
    ensures
        two_to(n) > 0,
    decreases n,
{
    if n > 0 {
        lemma_two_positive((n - 1) as nat);
    }
}

proof fn lemma_two_sum(a: nat, b: nat)
    ensures
        two_to(a + b) == two_to(a) * two_to(b),
    decreases a,
{
    if a == 0 {
        assert(1 * two_to(b) == two_to(b));
    } else {
        lemma_two_sum((a - 1) as nat, b);
        let x = two_to((a - 1) as nat);
        assert(2 * (x * two_to(b)) == (2 * x) * two_to(b)) by (nonlinear_arith);
    }
}

proof fn lemma_two_grows(a: nat, b: nat)
    requires
        a <= b,
    ensures
        two_to(a) <= two_to(b),
    decreases b,
{
    if a < b {
        lemma_two_grows(a, (b - 1) as nat);
    }
}

/// Some powers of two.
proof fn lemma_two_values()
    ensures
        two_to(0) == 1,
        two_to(1) == 2,
        two_to(2) == 4,
        two_to(52) == 0x10_0000_0000_0000,
        two_to(53) == 0x20_0000_0000_0000,
        two_to(63) == 0x8000_0000_0000_0000,
        two_to(64) == 0x1_0000_0000_0000_0000,
{
    reveal_with_fuel(two_to, 65);
}

/// Decimal digits stand for a number below the next power of ten.
proof fn lemma_digits_bound(s: Seq<u8>)
    requires
        decimal_digits(s),
    ensures
        digits_number(s) < ten_to(s.len()),
    decreases s.len(),
{
    if s.len() > 0 {
        let t = s.skip(1);
        lemma_digits_bound(t);
        let k = ten_to(t.len());
        lemma_ten_positive(t.len());
        assert(s[0] as nat * k <= 9 * k) by (nonlinear_arith)
            requires
                s[0] < 10,
        ;
    }
}

/// A number lies between the powers of two that its binary digits say.
proof fn lemma_bits(n: nat)
    ensures
        n < two_to(bits(n)),
        n > 0 ==> bits(n) > 0 && two_to((bits(n) - 1) as nat) <= n,
    decreases n,
{
    if n > 0 {
        lemma_bits(n / 2);
        if n / 2 > 0 {
            assert(two_to(bits(n / 2)) == 2 * two_to((bits(n / 2) - 1) as nat));
        }
    }
}

/// Doubles a decimal fraction and returns true when it reached one, which is then taken off.
fn double_fraction(frac: &mut Vec<u8>) -> (carry: bool)
    requires
        decimal_digits(old(frac)@),
    ensures
        decimal_digits(final(frac)@),
        final(frac)@.len() == old(frac)@.len(),
        digits_number(final(frac)@) + (if carry {
            ten_to(old(frac)@.len())
        } else {
            0
        }) == 2 * digits_number(old(frac)@),
{
    let ghost was = frac@;
    let n: usize = frac.len();
    let mut i: usize = n;
    let mut carry: bool = false;
    assert(was.skip(n as int) =~= seq![]);
    while i > 0
        invariant
            i <= n,
            n == frac@.len(),
            n == was.len(),
            decimal_digits(was),
            decimal_digits(frac@),
            frac@.take(i as int) == was.take(i as int),
            digits_number(frac@.skip(i as int)) + (if carry {
                ten_to((n - i) as nat)
            } else {
                0
            }) == 2 * digits_number(was.skip(i as int)),
        decreases i,
    {
        let ghost before = frac@;
        let ghost carried: bool = carry;
        i -= 1;
        let old_digit: u8 = frac[i];
        proof {
            assert(before.take(i + 1)[i as int] == was.take(i + 1)[i as int]);
        }
        let doubled: u8 = 2 * old_digit + (if carry {
            1u8
        } else {
            0u8
        });
        let new_digit: u8 = if doubled >= 10 {
            doubled - 10
        } else {
            doubled
        };
        carry = doubled >= 10;
        frac.set(i, new_digit);
        proof {
            let k = ten_to((n - i - 1) as nat);
            assert(frac@.take(i as int) =~= was.take(i as int)) by {
                assert(before.take(i + 1).take(i as int) =~= was.take(i + 1).take(i as int));
                assert(frac@.take(i as int) =~= before.take(i + 1).take(i as int));
            }
            let f = frac@.skip(i as int);
            let w = was.skip(i as int);
            assert(f.skip(1) =~= before.skip(i + 1));
            assert(w.skip(1) =~= was.skip(i + 1));
            assert(f[0] == new_digit && w[0] == old_digit);
            assert(ten_to((n - i) as nat) == 10 * k);
            assert(digits_number(f) == new_digit as nat * k + digits_number(f.skip(1)));
            assert(digits_number(w) == old_digit as nat * k + digits_number(w.skip(1)));
            let c1: int = if carried {
                1
            } else {
                0
            };
            let c2: int = if carry {
                1
            } else {
                0
            };
            assert(new_digit + 10 * c2 == 2 * old_digit + c1);
            assert(new_digit * k + c2 * (10 * k) == 2 * (old_digit * k) + c1 * k)
                by (nonlinear_arith)
                requires
                    new_digit + 10 * c2 == 2 * old_digit + c1,
            ;
        }
    }
    assert(frac@.skip(0) =~= frac@);
    assert(was.skip(0) =~= was);
    carry
}

/// Returns true when a decimal fraction is zero.
fn is_zero(frac: &Vec<u8>) -> (r: bool)
    requires
        decimal_digits(frac@),
    ensures
        r == (digits_number(frac@) == 0),
{
    let n: usize = frac.len();
    let mut i: usize = n;
    assert(frac@.skip(n as int) =~= seq![]);
    while i > 0
        invariant
            i <= n,
            n == frac@.len(),
            digits_number(frac@.skip(i as int)) == 0,
        decreases i,
    {
        i -= 1;
        proof {
            let f = frac@.skip(i as int);
            assert(f.skip(1) =~= frac@.skip(i + 1));
            lemma_ten_positive((f.len() - 1) as nat);
            let k = ten_to((f.len() - 1) as nat);
            if frac@[i as int] > 0 {
                assert(f[0] as nat * k > 0) by (nonlinear_arith)
                    requires
                        f[0] > 0,
                        k > 0,
                ;
                lemma_suffix_positive(frac@, i as int);
            } else {
                assert(0 * k == 0);
            }
        }
        if frac[i] != 0 {
            return false;
        }
    }
    assert(frac@.skip(0) =~= frac@);
    true
}

proof fn lemma_suffix_positive(s: Seq<u8>, i: int)
    requires
        0 <= i < s.len(),
        digits_number(s.skip(i)) > 0,
    ensures
        digits_number(s) > 0,
    decreases i,
{
    if i == 0 {
        assert(s.skip(0) =~= s);
    } else {
        assert(s.skip(1).skip(i - 1) =~= s.skip(i));
        lemma_suffix_positive(s.skip(1), i - 1);
    }
}

/// A whole number and the decimal fraction that follows it.
pub open spec fn mixed(whole: nat, frac: Seq<u8>) -> nat {
    whole * ten_to(frac.len()) + digits_number(frac)
}

/// Whole and fractional part of a mixed number.
proof fn lemma_mixed(whole: nat, frac: Seq<u8>)
    requires
        decimal_digits(frac),
    ensures
        ten_to(frac.len()) > 0,
        mixed(whole, frac) / ten_to(frac.len()) == whole,
        mixed(whole, frac) % ten_to(frac.len()) == digits_number(frac),
{
    lemma_ten_positive(frac.len());
    lemma_digits_bound(frac);
    lemma_quotient(whole, digits_number(frac), ten_to(frac.len()));
}

proof fn lemma_quotient(q: nat, r: nat, d: nat)
    by (nonlinear_arith)
    requires
        r < d,
    ensures
        (q * d + r) / d == q,
        (q * d + r) % d == r,
{
}

/// Below 53 binary digits a quotient is rounded up to the next whole number exactly when
/// what is missing to it is at most half of the last binary digit.
proof fn lemma_small(q: nat, r: nat, den: nat, p: nat)
    requires
        r < den,
        p >= 1,
    ensures
        nearest((q * den + r) * two_to(p), den) / two_to(p) == (if (den - r) * two_to(p + 1)
            <= den {
            q + 1
        } else {
            q
        }),
{
    let k = two_to(p);
    lemma_two_positive(p);
    assert(two_to(p + 1) == 2 * k);
    assert(k == 2 * two_to((p - 1) as nat));
    let a = (r * k) / den;
    let t = (r * k) % den;
    assert(r * k == a * den + t && t < den) by (nonlinear_arith)
        requires
            a == (r * k) / den,
            t == (r * k) % den,
            den > 0,
    ;
    assert(a < k) by (nonlinear_arith)
        requires
            r * k == a * den + t,
            r < den,
            k > 0,
            t >= 0,
    ;
    assert((q * den + r) * k == (q * k + a) * den + t) by (nonlinear_arith)
        requires
            r * k == a * den + t,
    ;
    lemma_quotient(q * k + a, t, den);
    let m = nearest((q * den + r) * k, den);
    let up = (den - r) * (2 * k) <= den;
    assert((den - r) * (2 * k) == 2 * (k * den) - 2 * (r * k)) by (nonlinear_arith);
    if a == k - 1 {
        assert(a * den == k * den - den) by (nonlinear_arith)
            requires
                a == k - 1,
        ;
        assert(up == (2 * t >= den));
        assert((q * k + a) % 2 == 1) by {
            let h = two_to((p - 1) as nat);
            assert(q * k + a == 2 * (q * h + h - 1) + 1) by (nonlinear_arith)
                requires
                    k == 2 * h,
                    a == k - 1,
            ;
        }
        if up {
            assert(m == (q + 1) * k) by (nonlinear_arith)
                requires
                    m == q * k + a + 1,
                    a == k - 1,
            ;
            lemma_quotient(q + 1, 0, k);
            assert((q + 1) * k + 0 == (q + 1) * k);
        } else {
            lemma_quotient(q, a, k);
        }
    } else {
        assert(a * den <= k * den - 2 * den) by (nonlinear_arith)
            requires
                a <= k - 2,
                den > 0,
        ;
        assert(!up);
        if m == q * k + a {
            lemma_quotient(q, a, k);
        } else {
            lemma_quotient(q, a + 1, k);
        }
    }
}

/// Reads the binary digits of a decimal fraction: true when the first `count` are all one.
fn leading_ones(frac: &mut Vec<u8>, count: u32) -> (r: bool)
    requires
        decimal_digits(old(frac)@),
        count >= 1,
    ensures
        r == ((ten_to(old(frac)@.len()) - digits_number(old(frac)@)) * two_to(count as nat)
            <= ten_to(old(frac)@.len())),
{
    let ghost den = ten_to(frac@.len());
    let ghost gap = den - digits_number(frac@);
    let mut j: u32 = 0;
    proof {
        lemma_digits_bound(frac@);
        assert(gap * 1 == gap);
    }
    while j < count
        invariant
            j <= count,
            decimal_digits(frac@),
            den == ten_to(frac@.len()),
            den == ten_to(old(frac)@.len()),
            gap == den - digits_number(old(frac)@),
            gap > 0,
            gap * two_to(j as nat) == den - digits_number(frac@),
        decreases count - j,
    {
        let carry: bool = double_fraction(frac);
        proof {
            lemma_digits_bound(frac@);
            assert(two_to((j + 1) as nat) == 2 * two_to(j as nat));
            let x = two_to(j as nat);
            assert(gap * (2 * x) == 2 * (gap * x)) by (nonlinear_arith);
            if !carry {
                lemma_two_grows((j + 1) as nat, count as nat);
                let y = two_to(count as nat);
                assert(gap * y >= gap * (2 * x)) by (nonlinear_arith)
                    requires
                        y >= 2 * x,
                        gap > 0,
                ;
                assert(gap * (2 * x) > den);
            }
        }
        if !carry {
            return false;
        }
        j += 1;
    }
    proof {
        lemma_digits_bound(frac@);
    }
    true
}

/// Counts the binary digits of a number.
fn count_bits(n: u64) -> (r: u32)
    ensures
        r == bits(n as nat),
        r <= 64,
{
    let mut r: u32 = 0;
    let mut m: u64 = n;
    proof {
        lemma_bits_64(n as nat);
    }
    while m > 0
        invariant
            r + bits(m as nat) == bits(n as nat),
            bits(n as nat) <= 64,
        decreases m,
    {
        m = m / 2;
        r += 1;
    }
    r
}

proof fn lemma_bits_64(n: nat)
    requires
        n <= u64::MAX,
    ensures
        bits(n) <= 64,
{
    lemma_bits(n);
    if bits(n) > 64 {
        lemma_two_grows(64, (bits(n) - 1) as nat);
        lemma_two_values();
    }
}

/// Computes a power of two below the limit of 64 bits.
fn power_of_two(n: u32) -> (r: u64)
    requires
        n < 64,
    ensures
        r == two_to(n as nat),
{
    let mut r: u64 = 1;
    let mut i: u32 = 0;
    while i < n
        invariant
            i <= n < 64,
            r == two_to(i as nat),
        decreases n - i,
    {
        proof {
            lemma_two_grows((i + 1) as nat, 63);
            lemma_two_values();
        }
        r = 2 * r;
        i += 1;
    }
    r
}

proof fn lemma_lift(num: nat, den: nat)
    requires
        0 < num < den,
    ensures
        lift(num, den) >= 1,
        num * two_to((lift(num, den) - 1) as nat) < den,
        den <= num * two_to(lift(num, den)),
    decreases den - num,
{
    let k = lift(num, den);
    if 2 * num >= den {
        lemma_two_values();
        assert(lift(2 * num, den) == 0);
        assert(k == 1);
        assert(num * two_to((k - 1) as nat) == num * 1);
        assert(num * two_to(k) == num * 2);
    } else {
        lemma_lift(2 * num, den);
        let l = lift(2 * num, den);
        assert(k == 1 + l);
        let a = two_to((l - 1) as nat);
        let b = two_to(l);
        assert((k - 1) as nat == l);
        assert(two_to(k) == 2 * b);
        assert(b == 2 * a);
        assert((2 * num) * a == num * (2 * a)) by (nonlinear_arith);
        assert((2 * num) * b == num * (2 * b)) by (nonlinear_arith);
        assert(num * two_to((k - 1) as nat) == num * b);
        assert(num * two_to(k) == num * (2 * b));
    }
}

/// A proper fraction is cut to zero unless it rounds up to one.
proof fn lemma_fraction(r: nat, den: nat)
    requires
        r < den,
    ensures
        rounded_whole(r, den) == (if (den - r) * two_to(54) <= den {
            1nat
        } else {
            0
        }),
{
    let p = scale(r, den) as nat;
    lemma_two_values();
    lemma_two_grows(1, 54);
    let big = two_to(54);
    lemma_two_positive(p);
    if r == 0 {
        assert(0 * two_to(p) == 0);
        assert(0nat / den == 0 && 0nat % den == 0) by (nonlinear_arith)
            requires
                den > 0,
        ;
        assert(0nat / two_to(p) == 0) by (nonlinear_arith)
            requires
                two_to(p) > 0,
        ;
        assert((den - r) * big > den) by (nonlinear_arith)
            requires
                big >= 2,
                r == 0,
                den > 0,
        ;
    } else {
        lemma_lift(r, den);
        let l = lift(r, den);
        if l == 1 {
            lemma_small(0, r, den, 53);
            assert(0 * den + r == r);
        } else {
            let a = two_to((l - 1) as nat);
            lemma_two_grows(1, (l - 1) as nat);
            assert(2 * r < den) by (nonlinear_arith)
                requires
                    r * a < den,
                    a >= 2,
            ;
            assert((den - r) * big > den) by (nonlinear_arith)
                requires
                    big >= 2,
                    2 * r < den,
            ;
            let k = two_to(p);
            lemma_two_grows(2, p);
            assert(2 * (r * k) < den * k) by (nonlinear_arith)
                requires
                    2 * r < den,
                    k > 0,
            ;
            let q = (r * k) / den;
            assert(2 * q < k) by (nonlinear_arith)
                requires
                    q == (r * k) / den,
                    2 * (r * k) < den * k,
                    den > 0,
            ;
            let m = nearest(r * k, den);
            assert(m <= q + 1);
            assert(m < k);
            assert(m / k == 0) by (nonlinear_arith)
                requires
                    0 <= m < k,
            ;
        }
    }
}

/// Rounds a whole number of more than 53 binary digits, with or without a fraction behind it.
fn round_large(whole: u64, size: u32, sticky: bool) -> (r: Option<u64>)
    requires
        54 <= size <= 64,
        size == bits(whole as nat),
    ensures
        forall|frac: nat, den: nat|
            frac < den && sticky == (frac > 0) ==> (match r {
                Some(n) => n == #[trigger] rounded_whole(
                    (whole as nat * den + frac) as nat,
                    den,
                ),
                None => rounded_whole((whole as nat * den + frac) as nat, den) == two_to(64),
            }),
{
    let s: u32 = size - 53;
    let unit: u64 = power_of_two(s);
    let half: u64 = power_of_two(s - 1);
    proof {
        lemma_two_positive(s as nat);
    }
    let top: u64 = whole / unit;
    let low: u64 = whole % unit;
    let up: bool = low > half || (low == half && (sticky || top % 2 == 1));
    proof {
        assert forall|frac: nat, den: nat|
            frac < den && sticky == (frac > 0) implies #[trigger] rounded_whole(
            (whole as nat * den + frac) as nat,
            den,
        ) == (if up {
            (top + 1) * unit
        } else {
            top * unit
        }) by {
            lemma_large(whole as nat, frac, den, s as nat, top as nat, low as nat);
        }
        lemma_bits(whole as nat);
        assert(two_to(s as nat) == 2 * two_to((s - 1) as nat));
        lemma_two_sum(s as nat, 53);
        lemma_two_grows((s + 53) as nat, 64);
        lemma_two_values();
        assert(two_to(64) == 0x1_0000_0000_0000_0000);
        assert(top * unit + low == whole) by (nonlinear_arith)
            requires
                unit > 0,
                top == whole / unit,
                low == whole % unit,
        ;
    }
    proof {
        lemma_two_positive((s - 1) as nat);
        assert(2 * top <= whole) by (nonlinear_arith)
            requires
                unit >= 2,
                top * unit + low == whole,
                low >= 0,
        ;
    }
    let m: u64 = if up {
        top + 1
    } else {
        top
    };
    if m > u64::MAX / unit {
        proof {
            assert(m * unit > u64::MAX) by (nonlinear_arith)
                requires
                    m > u64::MAX / unit,
                    unit > 0,
            ;
            let full = two_to(53);
            assert(top < full) by (nonlinear_arith)
                requires
                    whole < unit * full,
                    top * unit + low == whole,
                    low >= 0,
                    unit > 0,
            ;
            assert(m * unit <= unit * full) by (nonlinear_arith)
                requires
                    m <= full,
                    unit > 0,
            ;
        }
        None
    } else {
        proof {
            assert(m * unit <= u64::MAX) by (nonlinear_arith)
                requires
                    m <= u64::MAX / unit,
                    unit > 0,
            ;
        }
        Some(m * unit)
    }
}

proof fn lemma_large(whole: nat, frac: nat, den: nat, s: nat, top: nat, low: nat)
    requires
        s >= 1,
        bits(whole) == 53 + s,
        frac < den,
        top == whole / two_to(s),
        low == whole % two_to(s),
    ensures
        rounded_whole((whole * den + frac) as nat, den) == (if low > two_to((s - 1) as nat) || (low
            == two_to((s - 1) as nat) && (frac > 0 || top % 2 == 1)) {
            (top + 1) * two_to(s)
        } else {
            top * two_to(s)
        }),
{
    let num = (whole * den + frac) as nat;
    let u = two_to(s);
    let h = two_to((s - 1) as nat);
    assert(u == 2 * h);
    lemma_two_positive(s);
    lemma_quotient(whole, frac, den);
    lemma_bits(whole);
    assert(num >= den) by (nonlinear_arith)
        requires
            num == whole * den + frac,
            whole >= 1,
            den > 0,
    ;
    assert(scale(num, den) == -(s as int));
    let r = (low * den + frac) as nat;
    assert(whole == top * u + low && low < u) by (nonlinear_arith)
        requires
            u > 0,
            top == whole / u,
            low == whole % u,
    ;
    assert(num == top * (den * u) + r) by (nonlinear_arith)
        requires
            num == whole * den + frac,
            whole == top * u + low,
            r == low * den + frac,
    ;
    assert(r < den * u) by (nonlinear_arith)
        requires
            r == low * den + frac,
            frac < den,
            low < u,
    ;
    lemma_quotient(top, r, den * u);
    assert(2 * r == 2 * (low * den) + 2 * frac);
    assert(den * u == 2 * (h * den)) by (nonlinear_arith)
        requires
            u == 2 * h,
    ;
    if low > h {
        assert(low * den >= h * den + den) by (nonlinear_arith)
            requires
                low >= h + 1,
                den > 0,
        ;
    } else if low < h {
        assert(low * den <= h * den - den) by (nonlinear_arith)
            requires
                low <= h - 1,
                den > 0,
        ;
    }
}

/// Rounds a decimal number, times a power of two, to 53 significant binary digits and cuts it
/// to a whole number of at most 64 bits.
pub fn scaled_decimal(int_digits: &Vec<char>, frac_digits: &Vec<char>, doublings: u32) -> (r: u64)
    requires
        forall|i: int| 0 <= i < int_digits@.len() ==> text::is_digit(#[trigger] int_digits@[i]),
        forall|i: int| 0 <= i < frac_digits@.len() ==> text::is_digit(#[trigger] frac_digits@[i]),
    ensures
        r == ({
            let den = ten_to(frac_digits@.len());
            let num = (numbers::number_of(int_digits@) * den + numbers::number_of(frac_digits@))
                * two_to(doublings as nat);
            if rounded_whole(num, den) > u64::MAX {
                u64::MAX as nat
            } else {
                rounded_whole(num, den)
            }
        }),
{
    let ghost den = ten_to(frac_digits@.len());
    let ghost start = numbers::number_of(int_digits@) * den + numbers::number_of(frac_digits@);
    let mut frac: Vec<u8> = digit_values(frac_digits);
    let mut whole: Option<u64> = whole_number(int_digits);
    let ghost mut full: nat = numbers::number_of(int_digits@);
    proof {
        lemma_digits_number(frac_digits@);
        assert(start * 1 == start);
    }
    let mut i: u32 = 0;
    while i < doublings
        invariant
            i <= doublings,
            decimal_digits(frac@),
            frac@.len() == frac_digits@.len(),
            den == ten_to(frac@.len()),
            mixed(full, frac@) == start * two_to(i as nat),
            match whole {
                Some(w) => w == full,
                None => full > u64::MAX,
            },
        decreases doublings - i,
    {
        let ghost before = frac@;
        let carry: bool = double_fraction(&mut frac);
        let add: u64 = if carry {
            1
        } else {
            0
        };
        proof {
            let next: nat = 2 * full + (if carry {
                1nat
            } else {
                0
            });
            assert(next * den == 2 * (full * den) + (if carry {
                den
            } else {
                0
            })) by (nonlinear_arith)
                requires
                    next == 2 * full + (if carry {
                        1nat
                    } else {
                        0
                    }),
            ;
            assert(two_to((i + 1) as nat) == 2 * two_to(i as nat));
            let x = two_to(i as nat);
            assert(start * (2 * x) == 2 * (start * x)) by (nonlinear_arith);
            full = next;
        }
        whole = match whole {
            Some(w) => if w > (u64::MAX - add) / 2 {
                None
            } else {
                Some(2 * w + add)
            },
            None => None,
        };
        i += 1;
    }
    let ghost num = start * two_to(doublings as nat);
    proof {
        lemma_mixed(full, frac@);
    }
    let ghost rest = digits_number(frac@);
    let w: u64 = match whole {
        Some(w) => w,
        None => {
            proof {
                lemma_huge(full, rest, den);
            }
            return u64::MAX;
        },
    };
    let size: u32 = count_bits(w);
    proof {
        lemma_bits(w as nat);
        assert(w > 0 ==> num >= den) by (nonlinear_arith)
            requires
                num == w * den + rest,
                den > 0,
        ;
        if w == 0 {
            assert(0 * den == 0);
        }
    }
    if size < 53 {
        let ghost f0 = frac@;
        let up: bool = leading_ones(&mut frac, 54 - size);
        proof {
            if w == 0 {
                lemma_fraction(rest, den);
            } else {
                lemma_small(w as nat, rest, den, (53 - size) as nat);
            }
            lemma_two_grows((size) as nat, 52);
            lemma_two_values();
        }
        if up {
            w + 1
        } else {
            w
        }
    } else if size == 53 {
        proof {
            lemma_two_grows(53, 53);
            lemma_two_values();
            assert(two_to(0) == 1);
            assert(num * 1 == num);
            let m = nearest(num, den);
            assert(m / 1 == m) by (nonlinear_arith);
        }
        let carry: bool = double_fraction(&mut frac);
        let zero: bool = is_zero(&frac);
        proof {
            lemma_digits_bound(frac@);
        }
        if carry && (!zero || w % 2 == 1) {
            w + 1
        } else {
            w
        }
    } else {
        let sticky: bool = !is_zero(&frac);
        proof {
            lemma_two_values();
        }
        match round_large(w, size, sticky) {
            Some(n) => n,
            None => u64::MAX,
        }
    }
}

/// A whole number rounded to 53 significant binary digits.
pub open spec fn rounded_count(n: nat) -> nat {
    rounded_whole(n, 1)
}

/// Rounds a whole number to 53 significant binary digits.
pub fn round_count(n: u64) -> (r: u128)
    ensures
        r == rounded_count(n as nat),
        r <= 0x1_0000_0000_0000_0000,
        n < 0x20_0000_0000_0000 ==> r == n,
{
    proof {
        lemma_two_values();
        lemma_bits(n as nat);
        assert(n as nat * 1 + 0 == n);
    }
    let size: u32 = count_bits(n);
    if size > 53 {
        proof {
            lemma_two_grows(53, (size - 1) as nat);
            assert(rounded_whole((n as nat * 1 + 0) as nat, 1) == rounded_count(n as nat));
        }
        match round_large(n, size, false) {
            Some(r) => r as u128,
            None => 0x1_0000_0000_0000_0000,
        }
    } else {
        proof {
            lemma_exact(n as nat);
        }
        n as u128
    }
}

proof fn lemma_exact(n: nat)
    requires
        bits(n) <= 53,
    ensures
        rounded_count(n) == n,
{
    let p = scale(n, 1) as nat;
    let k = two_to(p);
    lemma_two_positive(p);
    assert(n / 1 == n) by (nonlinear_arith);
    if n == 0 {
        lemma_fraction(0, 1);
        lemma_two_grows(1, 54);
        lemma_two_values();
    } else {
        let m = n * k;
        assert(m / 1 == m && m % 1 == 0) by (nonlinear_arith);
        lemma_quotient(n, 0, k);
        assert(n * k + 0 == m);
    }
}

/// The numerator of a rounded quotient.
pub open spec fn rounded_num(num: nat, den: nat) -> nat {
    let p = scale(num, den);
    if p >= 0 {
        significand(num, den)
    } else {
        significand(num, den) * two_to((-p) as nat)
    }
}

/// The denominator of a rounded quotient.
pub open spec fn rounded_den(num: nat, den: nat) -> nat {
    let p = scale(num, den);
    if p >= 0 {
        two_to(p as nat)
    } else {
        1
    }
}

/// The whole number nearest to a quotient, the greater one of two.
pub open spec fn nearest_up(num: nat, den: nat) -> nat {
    (2 * num + den) / (2 * den)
}

/// Twentieths of a whole: the share that `part` has in `all`, with each step rounded.
pub open spec fn twentieths(part: nat, all: nat) -> nat {
    let a = rounded_count(part);
    let b = rounded_count(all);
    let num = 20 * rounded_num(a, b);
    let den = rounded_den(a, b);
    nearest_up(rounded_num(num, den), rounded_den(num, den))
}

/// Computes the whole number nearest to a quotient.
pub fn nearest_whole(num: u128, den: u128) -> (r: u128)
    requires
        0 < den <= 0x4000_0000_0000_0000_0000_0000_0000_0000,
        num <= 0x4000_0000_0000_0000_0000_0000_0000_0000,
    ensures
        r == nearest(num as nat, den as nat),
        r <= num / den + 1,
{
    let q: u128 = num / den;
    let r: u128 = num % den;
    proof {
        assert(q <= num) by (nonlinear_arith)
            requires
                q == num / den,
                den > 0,
        ;
    }
    if 2 * r < den || (2 * r == den && q % 2 == 0) {
        q
    } else {
        q + 1
    }
}

proof fn lemma_nearest_bound(num: nat, den: nat)
    requires
        den > 0,
    ensures
        nearest(num, den) * den <= num + den,
        num < (nearest(num, den) + 1) * den,
{
    let q = num / den;
    let r = num % den;
    assert(num == q * den + r && r < den) by (nonlinear_arith)
        requires
            q == num / den,
            r == num % den,
            den > 0,
    ;
    assert((q + 1) * den == q * den + den) by (nonlinear_arith);
    assert((q + 2) * den == q * den + 2 * den) by (nonlinear_arith);
}

/// A share of less than a sixteenth makes at most one twentieth.
proof fn lemma_small_share(a: nat, b: nat)
    requires
        16 * a < b,
    ensures
        ({
            let num = 20 * rounded_num(a, b);
            let den = rounded_den(a, b);
            nearest_up(rounded_num(num, den), rounded_den(num, den)) <= 1
        }),
{
    let p = scale(a, b) as nat;
    let k = two_to(p);
    let n1 = rounded_num(a, b);
    let num = 20 * n1;
    lemma_two_values();
    lemma_two_grows(52, p);
    lemma_nearest_bound(a * k, b);
    assert(16 * (a * k) < b * k) by (nonlinear_arith)
        requires
            16 * a < b,
            k > 0,
    ;
    assert(16 * n1 <= k + 16) by (nonlinear_arith)
        requires
            n1 * b <= a * k + b,
            16 * (a * k) < b * k,
            b > 0,
    ;
    let p2 = scale(num, k);
    let n2 = rounded_num(num, k);
    if num >= k {
        assert(num / k == 1) by (nonlinear_arith)
            requires
                k <= num < 2 * k,
        ;
        reveal_with_fuel(bits, 2);
        assert(p2 == 52);
        let d = two_to(52);
        lemma_nearest_bound(num * d, k);
        assert(4 * (n2 * k) <= (5 * d + 84) * k) by (nonlinear_arith)
            requires
                n2 * k <= num * d + k,
                4 * num <= 5 * k + 80,
                k >= d,
                d >= 1024,
        ;
        assert(4 * n2 <= 5 * d + 84) by (nonlinear_arith)
            requires
                4 * (n2 * k) <= (5 * d + 84) * k,
                k > 0,
        ;
        let w = (2 * n2 + d) / (2 * d);
        assert(w <= 1) by (nonlinear_arith)
            requires
                w == (2 * n2 + d) / (2 * d),
                4 * n2 <= 5 * d + 84,
                d >= 1024,
        ;
    } else {
        let d = two_to(p2 as nat);
        lemma_two_grows(52, p2 as nat);
        let q = (num * d) / k;
        assert(num * d < k * d) by (nonlinear_arith)
            requires
                num < k,
                d > 0,
        ;
        assert(q < d) by (nonlinear_arith)
            requires
                q == (num * d) / k,
                num * d < k * d,
                k > 0,
        ;
        assert(n2 <= d);
        let w = (2 * n2 + d) / (2 * d);
        assert(w <= 1) by (nonlinear_arith)
            requires
                w == (2 * n2 + d) / (2 * d),
                n2 <= d,
                d > 0,
        ;
    }
}

/// Computes the twentieths that a part makes of a whole, and at least one.
pub fn bar_length(part: u64, all: u64) -> (r: usize)
    requires
        part <= all,
        all > 0,
    ensures
        r == (if twentieths(part as nat, all as nat) < 1 {
            1
        } else {
            twentieths(part as nat, all as nat)
        }),
        r <= 42,
{
    let a: u128 = round_count(part);
    let b: u128 = round_count(all);
    proof {
        lemma_count_grows(part as nat, all as nat);
        lemma_two_values();
    }
    if 16 * a < b {
        proof {
            lemma_small_share(a as nat, b as nat);
        }
        return 1;
    }
    let mut l: u32 = 0;
    let mut lifted: u128 = a;
    while lifted < b
        invariant
            l <= 4,
            lifted == a * two_to(l as nat),
            0 < a <= b <= 0x1_0000_0000_0000_0000,
            16 * a >= b,
            lift(a as nat, b as nat) == l + lift(lifted as nat, b as nat),
            lifted >= b ==> lift(lifted as nat, b as nat) == 0,
            lifted < 2 * b,
        decreases 5 - l,
    {
        proof {
            assert(two_to((l + 1) as nat) == 2 * two_to(l as nat));
            let x = two_to(l as nat);
            assert(a * (2 * x) == 2 * (a * x)) by (nonlinear_arith);
            lemma_two_positive(l as nat);
            assert(a * x > 0) by (nonlinear_arith)
                requires
                    a > 0,
                    x > 0,
            ;
            if l == 4 {
                assert(x == 16) by {
                    reveal_with_fuel(two_to, 5);
                }
                assert(a * x == 16 * a) by (nonlinear_arith)
                    requires
                        x == 16,
                ;
            }
        }
        lifted = 2 * lifted;
        l += 1;
    }
    let p: u32 = 52 + l;
    let k: u64 = power_of_two(p);
    proof {
        lemma_two_sum(l as nat, 52);
        lemma_two_grows(52, p as nat);
        let x = two_to(l as nat);
        let y = two_to(52);
        assert(a * (x * y) == (a * x) * y) by (nonlinear_arith);
        assert(lifted * y < 2 * b * y) by (nonlinear_arith)
            requires
                lifted < 2 * b,
                y > 0,
        ;
        if a >= b {
            assert(a / b == 1) by (nonlinear_arith)
                requires
                    a == b,
                    b > 0,
            ;
            reveal_with_fuel(bits, 2);
        }
        lemma_two_grows(p as nat, 56);
        assert(two_to(56) == 16 * two_to(52)) by {
            reveal_with_fuel(two_to, 5);
        }
        assert(a * k <= 0x1_0000_0000_0000_0000 * (16 * 0x10_0000_0000_0000)) by (nonlinear_arith)
            requires
                a <= 0x1_0000_0000_0000_0000,
                k <= 16 * 0x10_0000_0000_0000,
        ;
    }
    let m: u128 = nearest_whole(a * (k as u128), b);
    proof {
        lemma_nearest_bound((a * k) as nat, b as nat);
        let y = two_to(52);
        // 2^52 b <= a k < 2^53 b
        assert(a * k >= b * y) by (nonlinear_arith)
            requires
                lifted >= b,
                a * k == lifted * y,
                y > 0,
        ;
        assert(m >= y) by {
            lemma_nearest_floor((a * k) as nat, b as nat, y);
        }
        assert(m <= 2 * y + 1) by (nonlinear_arith)
            requires
                m * b <= a * k + b,
                a * k < 2 * b * y,
                b > 0,
        ;
    }
    let num: u128 = 20 * m;
    proof {
        assert(num >= k);
    }
    let q: u128 = num / (k as u128);
    proof {
        assert(1 <= q <= 41) by (nonlinear_arith)
            requires
                q == num / (k as u128),
                k <= num <= 41 * k,
                k > 0,
        ;
        lemma_bits(q as nat);
    }
    let size: u32 = count_bits(q as u64);
    proof {
        if size > 6 {
            lemma_two_grows(6, (size - 1) as nat);
            reveal_with_fuel(two_to, 7);
        }
    }
    let d: u64 = power_of_two(53 - size);
    proof {
        lemma_two_positive((53 - size) as nat);
        lemma_two_grows((53 - size) as nat, 52);
        assert(num * d <= (41 * 0x20_0000_0000_0000) * 0x10_0000_0000_0000) by (nonlinear_arith)
            requires
                num <= 41 * 0x20_0000_0000_0000,
                d <= 0x10_0000_0000_0000,
        ;
    }
    let n: u128 = nearest_whole(num * (d as u128), k as u128);
    proof {
        lemma_nearest_bound((num * d) as nat, k as nat);
        assert(n <= 41 * d + 1) by (nonlinear_arith)
            requires
                n * k <= num * d + k,
                num <= 41 * k,
                k > 0,
        ;
    }
    let w: u128 = (2 * n + (d as u128)) / (2 * (d as u128));
    proof {
        assert(w <= 42) by (nonlinear_arith)
            requires
                w == (2 * n + (d as u128)) / (2 * (d as u128)),
                n <= 41 * d + 1,
                d > 0,
        ;
    }
    if w < 1 {
        1
    } else {
        w as usize
    }
}

proof fn lemma_nearest_floor(num: nat, den: nat, y: nat)
    requires
        den > 0,
        num >= den * y,
    ensures
        nearest(num, den) >= y,
{
    let q = num / den;
    assert(q >= y) by (nonlinear_arith)
        requires
            q == num / den,
            num >= den * y,
            den > 0,
    ;
}

/// Rounding keeps the order of whole numbers.
proof fn lemma_count_grows(a: nat, b: nat)
    requires
        a <= b <= u64::MAX,
    ensures
        rounded_count(a) <= rounded_count(b),
        b > 0 ==> rounded_count(b) > 0,
{
    lemma_bits(a);
    lemma_bits(b);
    lemma_count_form(a);
    lemma_count_form(b);
    if b > 0 {
        lemma_two_positive((bits(b) - 1) as nat);
    }
    if a > 0 {
        if bits(a) < bits(b) {
            lemma_two_grows(bits(a), (bits(b) - 1) as nat);
        } else if bits(a) > bits(b) {
            lemma_two_grows(bits(b), (bits(a) - 1) as nat);
        } else if bits(b) > 53 {
            let s = (bits(b) - 53) as nat;
            let u = two_to(s);
            lemma_two_positive(s);
            assert(a * 1 + 0 == a && b * 1 + 0 == b);
            lemma_large(a, 0, 1, s, a / u, a % u);
            lemma_large(b, 0, 1, s, b / u, b % u);
            assert(a / u <= b / u && (a / u == b / u ==> a % u <= b % u)) by (nonlinear_arith)
                requires
                    a <= b,
                    u > 0,
            ;
            if a / u < b / u {
                assert((a / u + 1) * u <= (b / u) * u) by (nonlinear_arith)
                    requires
                        a / u + 1 <= b / u,
                ;
                assert((a / u) * u <= (a / u + 1) * u) by (nonlinear_arith);
                assert((b / u) * u <= (b / u + 1) * u) by (nonlinear_arith);
            } else {
                let t = a / u;
                assert(t * u <= (t + 1) * u) by (nonlinear_arith);
            }
        }
    } else {
        lemma_two_grows(0, 0);
    }
}

/// A rounded whole number keeps its number of binary digits, or is the next power of two.
proof fn lemma_count_form(n: nat)
    ensures
        n == 0 ==> rounded_count(n) == 0,
        n > 0 ==> two_to((bits(n) - 1) as nat) <= rounded_count(n) <= two_to(bits(n)),
        bits(n) <= 53 ==> rounded_count(n) == n,
{
    lemma_bits(n);
    if bits(n) <= 53 {
        lemma_exact(n);
    } else {
        let s = (bits(n) - 53) as nat;
        let u = two_to(s);
        lemma_two_positive(s);
        assert(n * 1 + 0 == n);
        let top = n / u;
        lemma_large(n, 0, 1, s, top, n % u);
        lemma_two_sum(52, s);
        lemma_two_sum(53, s);
        let low = two_to(52);
        assert(two_to(53) == 2 * low);
        assert(low <= top < 2 * low) by (nonlinear_arith)
            requires
                top == n / u,
                low * u <= n < (2 * low) * u,
                u > 0,
        ;
        assert(low * u <= top * u && (top + 1) * u <= (2 * low) * u && top * u <= (top + 1) * u)
            by (nonlinear_arith)
            requires
                low <= top < 2 * low,
        ;
    }
}

proof fn lemma_huge(full: nat, rest: nat, den: nat)
    requires
        full > u64::MAX,
        rest < den,
    ensures
        rounded_whole((full * den + rest) as nat, den) > u64::MAX,
{
    lemma_bits(full);
    lemma_two_values();
    if bits(full) <= 64 {
        lemma_two_grows(bits(full), 64);
    }
    let s = (bits(full) - 53) as nat;
    let u = two_to(s);
    lemma_two_positive(s);
    let top = full / u;
    let low = full % u;
    lemma_large(full, rest, den, s, top, low);
    lemma_two_sum(52, s);
    assert(two_to((bits(full) - 1) as nat) == two_to(52) * u);
    assert(top >= two_to(52)) by (nonlinear_arith)
        requires
            full >= two_to(52) * u,
            top == full / u,
            u > 0,
    ;
    assert(top * u >= two_to(52) * u) by (nonlinear_arith)
        requires
            top >= two_to(52),
    ;
    assert((top + 1) * u >= top * u) by (nonlinear_arith);
    lemma_two_grows(64, (bits(full) - 1) as nat);
}

/// Returns the values of digit characters.
fn digit_values(v: &Vec<char>) -> (r: Vec<u8>)
    requires
        forall|i: int| 0 <= i < v@.len() ==> text::is_digit(#[trigger] v@[i]),
    ensures
        r@ == digits_of(v@),
        decimal_digits(r@),
{
    let mut out: Vec<u8> = Vec::new();
    let mut i: usize = 0;
    while i < v.len()
        invariant
            i <= v.len(),
            out@.len() == i,
            forall|k: int| 0 <= k < v@.len() ==> text::is_digit(#[trigger] v@[k]),
            forall|k: int| 0 <= k < i ==> #[trigger] out@[k] == digits_of(v@)[k],
            decimal_digits(out@),
        decreases v.len() - i,
    {
        let c: char = v[i];
        out.push((c as u8) - ('0' as u8));
        i += 1;
    }
    assert(out@ =~= digits_of(v@));
    out
}

/// Reads digit characters as a whole number, or gives nothing where it needs more than 64 bits.
fn whole_number(v: &Vec<char>) -> (r: Option<u64>)
    requires
        forall|i: int| 0 <= i < v@.len() ==> text::is_digit(#[trigger] v@[i]),
    ensures
        match r {
            Some(n) => n == numbers::number_of(v@),
            None => numbers::number_of(v@) > u64::MAX,
        },
{
    let mut n: u64 = 0;
    let mut i: usize = 0;
    assert(v@.take(0) =~= seq![]);
    while i < v.len()
        invariant
            i <= v.len(),
            forall|k: int| 0 <= k < v@.len() ==> text::is_digit(#[trigger] v@[k]),
            n == numbers::number_of(v@.take(i as int)),
        decreases v.len() - i,
    {
        let c: char = v[i];
        let d: u64 = ((c as u8) - ('0' as u8)) as u64;
        proof {
            assert(v@.take(i + 1).drop_last() =~= v@.take(i as int));
            assert(v@.take(i + 1).last() == c);
            numbers::lemma_number_grows(v@, i + 1);
        }
        if n > (u64::MAX - d) / 10 {
            return None;
        }
        n = 10 * n + d;
        i += 1;
    }
    assert(v@.take(v.len() as int) =~= v@);
    Some(n)
}

/// A whole number of at most 53 binary digits is not changed by rounding, nor is a quotient that is
/// such a number.
pub proof fn law_exact_quotients(q: nat, den: nat)
    requires
        q < 0x20_0000_0000_0000,
        den > 0,
    ensures
        rounded_whole(q * den, den) == q,
{
    let num = q * den;
    if q == 0 {
        assert(num == 0) by (nonlinear_arith)
            requires
                num == q * den,
                q == 0,
        ;
        let p = scale(0, den) as nat;
        lemma_two_positive(p);
        assert(0 * two_to(p) == 0) by (nonlinear_arith);
        assert(0nat / den == 0 && 0nat % den == 0) by (nonlinear_arith)
            requires
                den > 0,
        ;
        assert(0nat / two_to(p) == 0) by (nonlinear_arith)
            requires
                two_to(p) > 0,
        ;
    } else {
        assert(num >= den && num / den == q) by (nonlinear_arith)
            requires
                num == q * den,
                den > 0,
                q > 0,
        ;
        lemma_bits(q);
        lemma_two_values();
        if bits(q) > 53 {
            lemma_two_grows(53, (bits(q) - 1) as nat);
        }
        let p = scale(num, den) as nat;
        let k = two_to(p);
        lemma_two_positive(p);
        assert(num * k / den == q * k && (num * k) % den == 0) by (nonlinear_arith)
            requires
                num == q * den,
                den > 0,
        ;
        assert(q * k / k == q) by (nonlinear_arith)
            requires
                k > 0,
        ;
    }
}

/// The powers of two that the units of a size go by.
pub proof fn law_unit_powers()
    ensures
        two_to(0) == 1,
        two_to(10) == 1024,
        two_to(20) == 1024 * 1024,
        two_to(30) == 1024 * 1024 * 1024,
        two_to(40) == 1024 * 1024 * 1024 * 1024,
{
    reveal_with_fuel(two_to, 41);
}

/// A quotient that is a whole number is its own nearest whole number.
proof fn lemma_nearest_exact(k: nat, den: nat)
    requires
        den > 0,
    ensures
        nearest(k * den, den) == k,
{
    assert((k * den) / den == k && (k * den) % den == 0) by (nonlinear_arith)
        requires
            den > 0,
    ;
}

/// Twentieths of a whole that is given with a denominator.
proof fn lemma_whole_share(k: nat, p: nat)
    requires
        k == 10 || k == 20,
        p == 52 || p == 53,
    ensures
        ({
            let num = k * two_to(p);
            let den = two_to(p);
            nearest_up(rounded_num(num, den), rounded_den(num, den)) == k
        }),
{
    let d = two_to(p);
    lemma_two_positive(p);
    let num = k * d;
    assert(num >= d && num / d == k) by (nonlinear_arith)
        requires
            num == k * d,
            d > 0,
            k >= 1,
    ;
    reveal_with_fuel(bits, 6);
    let e = scale(num, d) as nat;
    let t = two_to(e);
    lemma_two_positive(e);
    assert(num * t == (k * t) * d) by (nonlinear_arith)
        requires
            num == k * d,
    ;
    lemma_nearest_exact(k * t, d);
    assert((2 * (k * t) + t) / (2 * t) == k) by (nonlinear_arith)
        requires
            t > 0,
    ;
}

/// The whole makes twenty twentieths of itself, half of it ten, and nothing none.
pub proof fn law_shares(n: nat)
    requires
        0 < n < 0x10_0000_0000_0000,
    ensures
        twentieths(n, n) == 20,
        twentieths(n, 2 * n) == 10,
        twentieths(0, n) == 0,
{
    law_exact_quotients(n, 1);
    law_exact_quotients(2 * n, 1);
    law_exact_quotients(0, 1);
    assert(n * 1 == n && (2 * n) * 1 == 2 * n && 0 * 1 == 0nat);
    // The whole.
    assert(n / n == 1) by (nonlinear_arith)
        requires
            n > 0,
    ;
    reveal_with_fuel(bits, 3);
    let a = two_to(52);
    lemma_two_positive(52);
    assert(n * a == a * n) by (nonlinear_arith);
    lemma_nearest_exact(a, n);
    lemma_whole_share(20, 52);
    // A half.
    let b = two_to(53);
    lemma_two_positive(53);
    assert(b == 2 * a);
    assert(lift(n, 2 * n) == 1);
    assert(n * b == a * (2 * n)) by (nonlinear_arith)
        requires
            b == 2 * a,
    ;
    lemma_nearest_exact(a, 2 * n);
    assert(20 * a == 10 * b);
    lemma_whole_share(10, 53);
    // Nothing.
    let q = scale(0, n) as nat;
    lemma_two_positive(q);
    assert(0 * two_to(q) == 0) by (nonlinear_arith);
    assert(0nat / n == 0 && 0nat % n == 0) by (nonlinear_arith)
        requires
            n > 0,
    ;
    let z = rounded_den(0, n);
    let w = scale(0, z) as nat;
    lemma_two_positive(w);
    assert(0 * two_to(w) == 0) by (nonlinear_arith);
    assert(0nat / z == 0 && 0nat % z == 0) by (nonlinear_arith)
        requires
            z > 0,
    ;
    let y = rounded_den(0, z);
    assert(y / (2 * y) == 0) by (nonlinear_arith)
        requires
            y > 0,
    ;
}

} // verus!
