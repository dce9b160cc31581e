//! Exact fixed-point numbers and their canonical decimal text.
use vstd::prelude::*;
use vstd::string::*;

verus! {

/// Number of decimal places that every `Decimal` carries.
pub const PLACES: u8 = 9;

/// The value of one unit, in steps of `10^-PLACES`.
pub const UNIT: i128 = 1_000_000_000;

/// `10^n`.
pub open spec fn pow10(n: nat) -> nat
    decreases n,
{
    if n == 0 {
        1
    } else {
        10 * pow10((n - 1) as nat)
    }
}

/// The largest value, in steps of `10^-PLACES`, that a meter reading takes:
/// the largest 64-bit mantissa with no decimal places.
pub const MAX_READING: i128 = 18_446_744_073_709_551_615_000_000_000;

/// A signed number with exactly `PLACES` decimal places: `scaled * 10^-PLACES`.
#[derive(Clone, Copy, Debug, PartialEq, Eq, Structural)]
pub struct Decimal {
    pub scaled: i128,
}

impl Decimal {
    /// A value that a meter can report: not negative, and at most `MAX_READING`.
    pub open spec fn is_reading(self) -> bool {
        0 <= self.scaled <= MAX_READING
    }
}

/// The character of a decimal digit.
pub open spec fn digit_char(d: nat) -> char {
    if d == 0 {
        '0'
    } else if d == 1 {
        '1'
    } else if d == 2 {
        '2'
    } else if d == 3 {
        '3'
    } else if d == 4 {
        '4'
    } else if d == 5 {
        '5'
    } else if d == 6 {
        '6'
    } else if d == 7 {
        '7'
    } else if d == 8 {
        '8'
    } else {
        '9'
    }
}

/// The digits of `n` without leading zeros (`"0"` for zero).
pub open spec fn digits(n: nat) -> Seq<char>
    decreases n,
{
    if n < 10 {
        seq![digit_char(n)]
    } else {
        digits(n / 10) + seq![digit_char(n % 10)]
    }
}

/// The last `k` digits of `n`, padded with leading zeros.
pub open spec fn padded_digits(n: nat, k: nat) -> Seq<char>
    decreases k,
{
    if k == 0 {
        Seq::empty()
    } else {
        padded_digits(n / 10, (k - 1) as nat) + seq![digit_char(n % 10)]
    }
}

/// A fraction of `k` places with its trailing zeros taken off: the remaining
/// digits and their number.
pub open spec fn trim_zeros(f: nat, k: nat) -> (nat, nat)
    decreases k,
{
    if k > 0 && f % 10 == 0 {
        trim_zeros(f / 10, (k - 1) as nat)
    } else {
        (f, k)
    }
}

/// The canonical text of `x * 10^-PLACES`: a minus sign for a negative value,
/// the integer digits, and, where the fraction is not zero, a point followed
/// by the fraction without trailing zeros (`"1"`, `"-0.5"`, `"123.456"`).
pub open spec fn decimal_text(x: int) -> Seq<char> {
    let m: nat = (if x < 0 { -x } else { x }) as nat;
    let whole = m / (UNIT as nat);
    let frac = m % (UNIT as nat);
    let sign = if x < 0 { seq!['-'] } else { Seq::empty() };
    let tail = if frac == 0 {
        Seq::empty()
    } else {
        let (f, k) = trim_zeros(frac, PLACES as nat);
        seq!['.'] + padded_digits(f, k)
    };
    sign + digits(whole) + tail
}

/// The text of a single digit.
fn digit_str(d: u128) -> (r: &'static str)
    requires
        d < 10,
    ensures
        r@ == seq![digit_char(d as nat)],
{
    proof {
        reveal_strlit("0");
        reveal_strlit("1");
        reveal_strlit("2");
        reveal_strlit("3");
        reveal_strlit("4");
        reveal_strlit("5");
        reveal_strlit("6");
        reveal_strlit("7");
        reveal_strlit("8");
        reveal_strlit("9");
    }
    if d == 0 {
        "0"
    } else if d == 1 {
        "1"
    } else if d == 2 {
        "2"
    } else if d == 3 {
        "3"
    } else if d == 4 {
        "4"
    } else if d == 5 {
        "5"
    } else if d == 6 {
        "6"
    } else if d == 7 {
        "7"
    } else if d == 8 {
        "8"
    } else {
        "9"
    }
}

/// Appends the digits of `n`.
pub(crate) fn push_digits(s: &mut String, n: u128)
    ensures
        final(s)@ == old(s)@ + digits(n as nat),
    decreases n,
{
    if n >= 10 {
        push_digits(s, n / 10);
    }
    s.append(digit_str(n % 10));
}

/// Appends the last `k` digits of `n`, zero-padded.
fn push_padded(s: &mut String, n: u128, k: u8)
    ensures
        final(s)@ == old(s)@ + padded_digits(n as nat, k as nat),
    decreases k,
{
    if k > 0 {
        push_padded(s, n / 10, k - 1);
        s.append(digit_str(n % 10));
    }
}

impl Decimal {
    /// Zero.
    pub fn zero() -> (r: Decimal)
        ensures
            r.scaled == 0,
    {
        Decimal { scaled: 0 }
    }

    /// The number `mantissa * 10^-point`, as a meter reports a fixed-point
    /// value; `None` where it has more than `PLACES` decimal places.
    pub fn from_fixed(mantissa: u64, point: u8) -> (r: Option<Decimal>)
        ensures
            point <= PLACES ==> r.is_some() && r.unwrap().scaled == mantissa * pow10(
                (PLACES - point) as nat,
            ),
            r.is_some() ==> r.unwrap().is_reading(),
            point > PLACES ==> r.is_none(),
    {
        if point > PLACES {
            return None;
        }
        let mut scaled: i128 = mantissa as i128;
        let mut i: u8 = point;
        while i < PLACES
            invariant
                point <= i <= PLACES,
                scaled == mantissa * pow10((i - point) as nat),
            decreases PLACES - i,
        {
            proof {
                lemma_pow10_mono((i + 1 - point) as nat, (PLACES - point) as nat);
                lemma_pow10_le_unit((PLACES - point) as nat);
                assert(mantissa * pow10((i + 1 - point) as nat) <= mantissa * pow10(
                    (PLACES - point) as nat,
                )) by (nonlinear_arith)
                    requires
                        pow10((i + 1 - point) as nat) <= pow10((PLACES - point) as nat),
                ;
                assert(mantissa * pow10((PLACES - point) as nat) <= 0xffff_ffff_ffff_ffff
                    * 1_000_000_000) by (nonlinear_arith)
                    requires
                        pow10((PLACES - point) as nat) <= 1_000_000_000,
                        mantissa <= 0xffff_ffff_ffff_ffff,
                ;
                assert(mantissa * pow10((i + 1 - point) as nat) == 10 * (mantissa * pow10(
                    (i - point) as nat,
                ))) by (nonlinear_arith)
                    requires
                        pow10((i + 1 - point) as nat) == 10 * pow10((i - point) as nat),
                ;
            }
            scaled = scaled * 10;
            i = i + 1;
        }
        proof {
            lemma_pow10_le_unit((PLACES - point) as nat);
            assert(mantissa * pow10((PLACES - point) as nat) <= 0xffff_ffff_ffff_ffff
                * 1_000_000_000) by (nonlinear_arith)
                requires
                    pow10((PLACES - point) as nat) <= 1_000_000_000,
                    mantissa <= 0xffff_ffff_ffff_ffff,
            ;
        }
        Some(Decimal { scaled })
    }

    /// The canonical decimal text of this number.
    pub fn to_text(&self) -> (r: String)
        ensures
            r@ == decimal_text(self.scaled as int),
    {
        let mut s = String::new();
        let m: u128 = if self.scaled < 0 {
            (-(self.scaled + 1)) as u128 + 1
        } else {
            self.scaled as u128
        };
        if self.scaled < 0 {
            s.append("-");
        }
        push_digits(&mut s, m / (UNIT as u128));
        let frac: u128 = m % (UNIT as u128);
        if frac != 0 {
            let mut f: u128 = frac;
            let mut k: u8 = PLACES;
            while k > 0 && f % 10 == 0
                invariant
                    k <= PLACES,
                    trim_zeros(f as nat, k as nat) == trim_zeros(frac as nat, PLACES as nat),
                decreases k,
            {
                f = f / 10;
                k = k - 1;
            }
            s.append(".");
            push_padded(&mut s, f, k);
        }
        proof {
            reveal_strlit("-");
            reveal_strlit(".");
        }
        s
    }
}

proof fn lemma_pow10_mono(a: nat, b: nat)
    requires
        a <= b,
    ensures
        pow10(a) <= pow10(b),
    decreases b,
{
    if a < b {
        lemma_pow10_mono(a, (b - 1) as nat);
    }
}

proof fn lemma_pow10_le_unit(n: nat)
    requires
        n <= PLACES,
    ensures
        pow10(n) <= UNIT,
{
    lemma_pow10_mono(n, PLACES as nat);
    reveal_with_fuel(pow10, 10);
}

} // verus!
