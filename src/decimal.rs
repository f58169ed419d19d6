//! Fixed-point decimal amounts, as plain values, with rounding to cents and
//! rendering, both carried out by `rust_decimal`.
use vstd::prelude::*;
use std::str::FromStr;

verus! {

/// Largest mantissa magnitude plus one that a `rust_decimal::Decimal` holds (2^96).
pub open spec fn mantissa_bound() -> nat {
    0x1_0000_0000_0000_0000_0000_0000nat
}

/// Largest scale that a `rust_decimal::Decimal` holds.
pub const MAX_SCALE: u32 = 28;

/// The number of fractional digits that amounts are rounded to.
pub const CENT_DIGITS: u32 = 2;

/// A decimal number `(-1)^negative * mantissa / 10^scale`, as `rust_decimal`
/// stores it.
#[derive(Clone, Copy, Debug, PartialEq, Eq)]
pub struct DecimalParts {
    pub negative: bool,
    pub mantissa: u128,
    pub scale: u32,
}

impl DecimalParts {
    /// The parts fit in a `rust_decimal::Decimal`.
    pub open spec fn wf(&self) -> bool {
        &&& (self.mantissa as nat) < mantissa_bound()
        &&& self.scale <= MAX_SCALE
    }

    /// The value zero, with no fractional digits.
    pub fn zero() -> (r: DecimalParts)
        ensures
            r == zero_parts(),
            r.wf(),
    {
        DecimalParts { negative: false, mantissa: 0, scale: 0 }
    }
}

/// Zero, positive, with no fractional digits.
pub open spec fn zero_parts() -> DecimalParts {
    DecimalParts { negative: false, mantissa: 0, scale: 0 }
}

/// Ten to the power `n`.
pub open spec fn pow10(n: nat) -> nat
    decreases n,
{
    if n == 0 {
        1
    } else {
        10 * pow10((n - 1) as nat)
    }
}

/// What `Decimal::from_str` yields for a text, as parts.
pub uninterp spec fn parsed_decimal(s: Seq<char>) -> Option<DecimalParts>;

/// `d` rescaled to exactly two fractional digits: extra digits are dropped with
/// the midpoint rounded away from zero, missing ones are appended as zeros as
/// far as the mantissa allows. The sign is kept, also on zero.
pub open spec fn cents(d: DecimalParts) -> DecimalParts {
    let m = d.mantissa as nat;
    let s = d.scale as nat;
    if m == 0 {
        DecimalParts { negative: d.negative, mantissa: 0, scale: 2 }
    } else if s > 2 {
        let q = m / pow10((s - 3) as nat);
        let rounded = q / 10 + if q % 10 >= 5 { 1nat } else { 0nat };
        DecimalParts { negative: d.negative, mantissa: rounded as u128, scale: 2 }
    } else if m * pow10((2 - s) as nat) < mantissa_bound() {
        DecimalParts { negative: d.negative, mantissa: (m * pow10((2 - s) as nat)) as u128, scale: 2 }
    } else if s < 1 && m * 10 < mantissa_bound() {
        DecimalParts { negative: d.negative, mantissa: (m * 10) as u128, scale: 1 }
    } else {
        d
    }
}

/// The character of a digit below ten.
pub open spec fn digit_char(n: nat) -> char {
    seq!['0', '1', '2', '3', '4', '5', '6', '7', '8', '9'][n as int]
}

/// The decimal digits of `n`, most significant first; none for zero.
pub open spec fn digits(n: nat) -> Seq<char>
    decreases n,
{
    if n == 0 {
        seq![]
    } else {
        digits(n / 10).push(digit_char(n % 10))
    }
}

/// `ds` preceded by as many zeros as it takes to reach `width` characters.
pub open spec fn zero_pad(ds: Seq<char>, width: nat) -> Seq<char> {
    if ds.len() < width {
        Seq::new((width - ds.len()) as nat, |i: int| '0') + ds
    } else {
        ds
    }
}

/// How `rust_decimal` writes a decimal: a minus sign where it is negative, the whole part
/// (at least one digit) and, for a non-zero scale, a point followed by exactly
/// `scale` digits.
pub open spec fn decimal_text(d: DecimalParts) -> Seq<char> {
    let s = d.scale as nat;
    let ds = zero_pad(digits(d.mantissa as nat), s);
    let w = ds.len() - s;
    let body = if s == 0 {
        if ds.len() == 0 {
            seq!['0']
        } else {
            ds
        }
    } else {
        (if w == 0 {
            seq!['0']
        } else {
            ds.take(w)
        }) + seq!['.'] + ds.skip(w)
    };
    if d.negative {
        seq!['-'] + body
    } else {
        body
    }
}

/// The canonical amount text of a price text: parsed (zero where it does not
/// parse), rounded to cents and rendered.
pub open spec fn amount_text(s: Seq<char>) -> Seq<char> {
    let d = match parsed_decimal(s) {
        Some(d) => d,
        None => zero_parts(),
    };
    decimal_text(cents(d))
}

/// Relies on `<Decimal as FromStr>::from_str`: the parts of the number that a
/// text denotes, or `None` where it denotes none; a `Decimal` always fits.
#[verifier::external_body]
fn parse_decimal(s: &str) -> (r: Option<DecimalParts>)
    ensures
        r == parsed_decimal(s@),
        r matches Some(d) ==> d.wf(),
{
    rust_decimal::Decimal::from_str(s).ok().map(|d| DecimalParts {
        negative: d.is_sign_negative(),
        mantissa: d.mantissa().unsigned_abs(),
        scale: d.scale(),
    })
}

/// Relies on `Decimal::from_i128_with_scale` and `Decimal::set_sign_negative`
/// to build the number, and on `Decimal::rescale`, which, here to two
/// fractional digits, rounds the midpoint away from zero and, scaling up,
/// appends as many zeros as the mantissa allows.
#[verifier::external_body]
fn rescale_decimal(d: DecimalParts, scale: u32) -> (r: DecimalParts)
    requires
        d.wf(),
        scale == CENT_DIGITS,
    ensures
        r == cents(d),
{
    let mut v = rust_decimal::Decimal::from_i128_with_scale(d.mantissa as i128, d.scale);
    v.set_sign_negative(d.negative);
    v.rescale(scale);
    DecimalParts { negative: v.is_sign_negative(), mantissa: v.mantissa().unsigned_abs(), scale: v.scale() }
}

/// Relies on `Decimal::from_i128_with_scale`, `Decimal::set_sign_negative` and
/// `<Decimal as Display>`: the text of a decimal, with exactly `scale`
/// fractional digits.
#[verifier::external_body]
fn render_decimal(d: DecimalParts) -> (r: String)
    requires
        d.wf(),
    ensures
        r@ == decimal_text(d),
{
    let mut v = rust_decimal::Decimal::from_i128_with_scale(d.mantissa as i128, d.scale);
    v.set_sign_negative(d.negative);
    v.to_string()
}

/// The amount text of a parsed price: the number (zero where there is none)
/// rounded to two fractional digits.
pub fn amount_of_parsed(p: Option<DecimalParts>) -> (r: String)
    requires
        p matches Some(d) ==> d.wf(),
    ensures
        r@ == decimal_text(cents(
            match p {
                Some(d) => d,
                None => zero_parts(),
            },
        )),
{
    let d = match p {
        Some(d) => d,
        None => DecimalParts::zero(),
    };
    proof {
        lemma_cents_wf(d);
    }
    render_decimal(rescale_decimal(d, CENT_DIGITS))
}

/// The canonical amount text of a price text: the number it denotes (zero
/// where it denotes none), rounded to two fractional digits.
pub fn amount_of(s: &str) -> (r: String)
    ensures
        r@ == amount_text(s@),
{
    amount_of_parsed(parse_decimal(s))
}

proof fn lemma_pow10_positive(n: nat)
    ensures
        pow10(n) >= 1,
    decreases n,
{
    if n > 0 {
        lemma_pow10_positive((n - 1) as nat);
    }
}

/// Rounding to cents keeps a decimal well formed.
pub proof fn lemma_cents_wf(d: DecimalParts)
    requires
        d.wf(),
    ensures
        cents(d).wf(),
{
    let m = d.mantissa as nat;
    let s = d.scale as nat;
    if m != 0 && s > 2 {
        lemma_pow10_positive((s - 3) as nat);
        let q = m / pow10((s - 3) as nat);
        assert(q <= m) by (nonlinear_arith)
            requires q == m / pow10((s - 3) as nat), pow10((s - 3) as nat) >= 1;
        assert(q / 10 + 1 <= m) by (nonlinear_arith)
            requires q <= m, m >= 1;
    }
}

/// Rounding an amount that already has two fractional digits changes
/// nothing: rounding to cents twice is rounding once.
pub proof fn lemma_cents_idempotent(d: DecimalParts)
    requires
        d.wf(),
    ensures
        cents(cents(d)) == cents(d),
{
    lemma_cents_wf(d);
    let c = cents(d);
    let m = d.mantissa as nat;
    let s = d.scale as nat;
    assert(pow10(0) == 1);
    assert(pow10(1) == 10) by {
        reveal_with_fuel(pow10, 2);
    }
    assert(pow10(2) == 100) by {
        reveal_with_fuel(pow10, 3);
    }
    if c.scale == 2 && c.mantissa != 0 {
        let mc = c.mantissa as nat;
        assert(pow10((2 - 2) as nat) == 1);
        assert(mc * pow10((2 - 2) as nat) == mc) by (nonlinear_arith)
            requires pow10((2 - 2) as nat) == 1;
        assert(mc < mantissa_bound());
    } else if m != 0 && s < 1 && m * 10 < mantissa_bound()
        && !(m * pow10((2 - s) as nat) < mantissa_bound()) {
        assert((m * 10) * 10 == m * 100) by (nonlinear_arith);
        assert(m * 10 != 0) by (nonlinear_arith)
            requires m != 0;
    }
}

} // verus!
