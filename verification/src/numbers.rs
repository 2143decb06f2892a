//! Decimal numerals: writing and reading whole numbers as text.

use vstd::prelude::*;
use vstd::string::*;
use crate::text;

verus! {

/// The digit character of a number below ten.
pub open spec fn digit(d: int) -> char {
    ('0' as u8 + d) as u8 as char
}

/// The decimal numeral of a natural number, without leading zeros.
pub open spec fn numeral(n: nat) -> Seq<char>
    decreases n,
{
    if n < 10 {
        seq![digit(n as int)]
    } else {
        numeral(n / 10).push(digit((n % 10) as int))
    }
}

/// The decimal numeral of an integer, with a sign where it is negative.
pub open spec fn signed_numeral(i: int) -> Seq<char> {
    if i < 0 {
        seq!['-'] + numeral((-i) as nat)
    } else {
        numeral(i as nat)
    }
}

/// Writes a number below ten as a digit.
fn digit_char(d: u64) -> (r: char)
    requires
        d < 10,
    ensures
        r == digit(d as int),
{
    (('0' as u8) + (d as u8)) as char
}

/// Writes a number in decimal.
pub fn decimal(n: u64) -> (r: String)
    ensures
        r@ == numeral(n as nat),
    decreases n,
{
    if n < 10 {
        let mut s = String::new();
        s.push(digit_char(n));
        assert(s@ =~= seq![digit(n as int)]);
        s
    } else {
        let mut s = decimal(n / 10);
        s.push(digit_char(n % 10));
        s
    }
}

/// Writes a signed number in decimal.
pub fn signed_decimal(i: i64) -> (r: String)
    ensures
        r@ == signed_numeral(i as int),
{
    if i >= 0 {
        return decimal(i as u64);
    }
    let magnitude: u64 = if i == i64::MIN {
        0x8000_0000_0000_0000
    } else {
        (-i) as u64
    };
    let mut s = String::new();
    s.push('-');
    assert(s@ =~= seq!['-']);
    s.append(decimal(magnitude).as_str());
    s
}

/// The number that a sequence of digits stands for.
pub open spec fn number_of(s: Seq<char>) -> nat
    decreases s.len(),
{
    if s.len() == 0 {
        0
    } else {
        10 * number_of(s.drop_last()) + digit_value(s.last())
    }
}

/// The value of a digit character.
pub open spec fn digit_value(c: char) -> nat {
    if text::is_digit(c) {
        (c as u8 - '0' as u8) as nat
    } else {
        0
    }
}

/// True of a non-empty sequence of ASCII digits.
pub open spec fn all_digits(s: Seq<char>) -> bool {
    s.len() > 0 && forall|i: int| 0 <= i < s.len() ==> text::is_digit(#[trigger] s[i])
}

/// The number up to `max` that a text stands for: digits, with an optional plus sign.
pub open spec fn unsigned_value(s: Seq<char>, max: nat) -> Option<nat> {
    let t = if s.len() > 0 && s[0] == '+' {
        s.skip(1)
    } else {
        s
    };
    if all_digits(t) && number_of(t) <= max {
        Some(number_of(t))
    } else {
        None
    }
}

/// The number between `-max - 1` and `max` that a text stands for: digits, with an optional sign.
pub open spec fn signed_value(s: Seq<char>, max: nat) -> Option<int> {
    if s.len() > 0 && s[0] == '-' {
        if all_digits(s.skip(1)) && number_of(s.skip(1)) <= max + 1 {
            Some(-(number_of(s.skip(1)) as int))
        } else {
            None
        }
    } else {
        match unsigned_value(s, max) {
            Some(n) => Some(n as int),
            None => None,
        }
    }
}

/// A longer sequence of digits stands for no smaller number.
pub proof fn lemma_number_grows(s: Seq<char>, i: int)
    requires
        0 <= i <= s.len(),
    ensures
        number_of(s.take(i)) <= number_of(s),
    decreases s.len() - i,
{
    if i < s.len() {
        lemma_number_grows(s, i + 1);
        assert(s.take(i + 1).drop_last() == s.take(i));
    } else {
        assert(s.take(i) == s);
    }
}

/// Reads the digits from `from` on as a number up to `max`.
fn read_digits(v: &Vec<char>, from: usize, max: u64) -> (r: Option<u64>)
    requires
        from <= v.len(),
    ensures
        match r {
            Some(n) => all_digits(v@.skip(from as int)) && n <= max && n == number_of(
                v@.skip(from as int),
            ),
            None => !all_digits(v@.skip(from as int)) || number_of(v@.skip(from as int)) > max,
        },
{
    let ghost t = v@.skip(from as int);
    if from == v.len() {
        return None;
    }
    let mut n: u64 = 0;
    let mut i: usize = from;
    assert(t.take(0) =~= seq![]);
    while i < v.len()
        invariant
            from <= i <= v.len(),
            t == v@.skip(from as int),
            n <= max,
            n == number_of(t.take(i - from)),
            forall|k: int| 0 <= k < i - from ==> text::is_digit(#[trigger] t[k]),
        decreases v.len() - i,
    {
        let c = v[i];
        proof {
            assert(t[i - from] == c);
            assert(t.take(i + 1 - from).drop_last() == t.take(i - from));
            assert(t.take(i + 1 - from).last() == c);
            lemma_number_grows(t, i + 1 - from);
        }
        if c < '0' || c > '9' {
            return None;
        }
        let d: u64 = ((c as u8) - ('0' as u8)) as u64;
        if n > (u64::MAX - d) / 10 {
            return None;
        }
        let next: u64 = 10 * n + d;
        if next > max {
            return None;
        }
        n = next;
        i += 1;
    }
    assert(t.take(v.len() - from) == t);
    Some(n)
}

/// Reads an unsigned number up to `max`.
pub fn parse_unsigned(s: &str, max: u64) -> (r: Option<u64>)
    ensures
        match (r, unsigned_value(s@, max as nat)) {
            (Some(n), Some(m)) => n == m,
            (None, None) => true,
            _ => false,
        },
{
    let v = text::chars_of(s);
    if v.len() > 0 && v[0] == '+' {
        read_digits(&v, 1, max)
    } else {
        assert(v@.skip(0) == v@);
        read_digits(&v, 0, max)
    }
}

/// Reads a signed number between `-max - 1` and `max`.
pub fn parse_signed(s: &str, max: i64) -> (r: Option<i64>)
    requires
        max >= 0,
    ensures
        match (r, signed_value(s@, max as nat)) {
            (Some(n), Some(m)) => n == m,
            (None, None) => true,
            _ => false,
        },
{
    let v = text::chars_of(s);
    if v.len() > 0 && v[0] == '-' {
        match read_digits(&v, 1, max as u64 + 1) {
            Some(n) => if n == 0x8000_0000_0000_0000 {
                Some(i64::MIN)
            } else {
                Some(-(n as i64))
            },
            None => None,
        }
    } else {
        match parse_unsigned(s, max as u64) {
            Some(n) => Some(n as i64),
            None => None,
        }
    }
}

/// Reading the numeral of a number gives the number back.
pub proof fn law_numeral_round_trip(n: nat)
    ensures
        all_digits(numeral(n)),
        number_of(numeral(n)) == n,
    decreases n,
{
    if n < 10 {
        let s = seq![digit(n as int)];
        assert(s.drop_last() =~= seq![]);
        assert(number_of(s.drop_last()) == 0);
        assert(s.last() == digit(n as int));
    } else {
        law_numeral_round_trip(n / 10);
        let s = numeral(n);
        assert(s.drop_last() =~= numeral(n / 10));
        assert(s.last() == digit((n % 10) as int));
    }
}

} // verus!
