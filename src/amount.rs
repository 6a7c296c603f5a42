//! Amounts of Tari: whole `Tari` and its millionth part, `MicroTari`.
use vstd::prelude::*;

use crate::text::{
    chars_to_string, decimal, format_currency_spec, padded, pow10, push_decimal,
    push_format_currency, push_padded, push_zeros, zeros,
};

verus! {

/// The number of `MicroTari` in one `Tari`.
pub const MICRO_PER_TARI: u64 = 1_000_000;

/// The number of decimals of a `Tari` amount.
pub const TARI_DECIMALS: i16 = 6;

/// The characters ` µT`.
pub open spec fn micro_suffix() -> Seq<char> {
    seq![' ', '\u{b5}', 'T']
}

/// The characters ` T`.
pub open spec fn tari_suffix() -> Seq<char> {
    seq![' ', 'T']
}

/// An amount in `MicroTari`, the smallest unit.
#[derive(Debug, Clone, Copy, Default, PartialEq, Eq, Structural, PartialOrd, Ord, Hash)]
pub struct MicroTari(pub u64);

/// An amount in whole `Tari`, held as `MicroTari`.
#[derive(Debug, Clone, Copy, PartialEq, Eq, Structural)]
pub struct Tari(pub MicroTari);

impl From<u64> for MicroTari {
    fn from(v: u64) -> (r: MicroTari) {
        MicroTari(v)
    }
}

impl vstd::std_specs::convert::FromSpecImpl<u64> for MicroTari {
    open spec fn obeys_from_spec() -> bool {
        true
    }

    open spec fn from_spec(v: u64) -> MicroTari {
        MicroTari(v)
    }
}

impl From<MicroTari> for Tari {
    fn from(v: MicroTari) -> (r: Tari) {
        Tari(v)
    }
}

impl vstd::std_specs::convert::FromSpecImpl<MicroTari> for Tari {
    open spec fn obeys_from_spec() -> bool {
        true
    }

    open spec fn from_spec(v: MicroTari) -> Tari {
        Tari(v)
    }
}

impl From<Tari> for MicroTari {
    fn from(v: Tari) -> (r: MicroTari) {
        v.0
    }
}

impl vstd::std_specs::convert::FromSpecImpl<Tari> for MicroTari {
    open spec fn obeys_from_spec() -> bool {
        true
    }

    open spec fn from_spec(v: Tari) -> MicroTari {
        v.0
    }
}

/// `n` rounded to a multiple of `d`, halves to the even multiple, counted
/// in units of `d`.
pub open spec fn rounded_units(n: nat, d: nat) -> nat
    recommends
        d > 0,
{
    let q = n / d;
    let r = n % d;
    if r * 2 > d || (r * 2 == d && q % 2 == 1) {
        q + 1
    } else {
        q
    }
}

proof fn lemma_total_prefix_monotone(amounts: Seq<MicroTari>, k: int)
    requires
        0 <= k <= amounts.len(),
    ensures
        total(amounts.take(k)) <= total(amounts),
    decreases amounts.len(),
{
    if k < amounts.len() {
        assert(amounts.drop_last().take(k) =~= amounts.take(k));
        lemma_total_prefix_monotone(amounts.drop_last(), k);
    } else {
        assert(amounts.take(k) =~= amounts);
    }
}

/// A `MicroTari` amount `n` as `Tari` with `precision` decimals: rounded
/// half to even below six decimals, padded with zeros above six.
pub open spec fn tari_text(n: nat, precision: nat) -> Seq<char> {
    if precision >= 6 {
        decimal(n / 1_000_000) + seq!['.'] + padded(n % 1_000_000, 6) + zeros((precision - 6) as nat)
            + tari_suffix()
    } else {
        let units = rounded_units(n, pow10((6 - precision) as nat));
        let whole = units / pow10(precision);
        let frac = units % pow10(precision);
        decimal(whole) + (if precision > 0 {
            seq!['.'] + padded(frac, precision)
        } else {
            Seq::empty()
        }) + tari_suffix()
    }
}

/// A `MicroTari` amount `n` as text: in `µT` below one `Tari`, else in
/// `Tari` with `precision` decimals.
pub open spec fn micro_tari_text(n: nat, precision: nat) -> Seq<char> {
    if n < 1_000_000 {
        decimal(n) + micro_suffix()
    } else {
        tari_text(n, precision)
    }
}

/// `s` without its trailing zeros.
pub open spec fn trim_trailing_zeros(s: Seq<char>) -> Seq<char>
    decreases s.len(),
{
    if s.len() > 0 && s.last() == '0' {
        trim_trailing_zeros(s.drop_last())
    } else {
        s
    }
}

/// The text of the decimal `n / 10^scale`: `0` for zero; below one, `0.`
/// and `scale` digits; else the whole part, then `.` and the fractional
/// digits without trailing zeros where there are any.
pub open spec fn scaled_decimal_text(n: nat, scale: nat) -> Seq<char> {
    if n == 0 {
        seq!['0']
    } else if n < pow10(scale) {
        seq!['0', '.'] + padded(n, scale)
    } else {
        decimal(n / pow10(scale)) + (if n % pow10(scale) == 0 {
            Seq::empty()
        } else {
            seq!['.'] + trim_trailing_zeros(padded(n % pow10(scale), scale))
        })
    }
}

/// Relies on `decimal_rs::Decimal::from_parts` and its `Display`: a
/// non-negative value with `scale` digits after the point is written as
/// [`scaled_decimal_text`] says. `from_parts` fails only for values beyond
/// 38 digits or scales outside -126 to 167, which these arguments never
/// reach.
#[verifier::external_body]
fn decimal_string(int_val: u64, scale: i16) -> (r: String)
    requires
        0 <= scale <= 18,
    ensures
        r@ == scaled_decimal_text(int_val as nat, scale as nat),
{
    match decimal_rs::Decimal::from_parts(u128::from(int_val), scale, false) {
        Ok(d) => d.to_string(),
        Err(_) => String::new(),
    }
}

fn pow10_exec(k: u32) -> (r: u64)
    requires
        k <= 6,
    ensures
        r == pow10(k as nat),
        k >= 1 ==> r >= 10,
        r <= 1_000_000,
{
    proof {
        reveal_with_fuel(pow10, 7);
    }
    if k == 0 {
        1
    } else if k == 1 {
        10
    } else if k == 2 {
        100
    } else if k == 3 {
        1000
    } else if k == 4 {
        10_000
    } else if k == 5 {
        100_000
    } else {
        1_000_000
    }
}

fn push_tari_text(n: u64, precision: usize, out: &mut Vec<char>)
    ensures
        final(out)@ == old(out)@ + tari_text(n as nat, precision as nat),
{
    if precision >= 6 {
        push_decimal(n / 1_000_000, out);
        out.push('.');
        push_padded(n % 1_000_000, 6, out);
        push_zeros(precision - 6, out);
        out.push(' ');
        out.push('T');
        assert(out@ =~= old(out)@ + tari_text(n as nat, precision as nat));
    } else {
        let d = pow10_exec((6 - precision) as u32);
        let p = pow10_exec(precision as u32);
        let q = n / d;
        let r = n % d;
        let up = r * 2 > d || (r * 2 == d && q % 2 == 1);
        assert(q < u64::MAX) by (nonlinear_arith)
            requires
                q == n / d,
                d >= 10,
        ;
        let units: u64 = if up {
            q + 1
        } else {
            q
        };
        let whole = units / p;
        let frac = units % p;
        push_decimal(whole, out);
        if precision > 0 {
            out.push('.');
            push_padded(frac, precision, out);
        }
        out.push(' ');
        out.push('T');
        assert(out@ =~= old(out)@ + tari_text(n as nat, precision as nat));
    }
}

/// The total of `amounts` in `MicroTari`.
pub open spec fn total(amounts: Seq<MicroTari>) -> nat
    decreases amounts.len(),
{
    if amounts.len() == 0 {
        0
    } else {
        (total(amounts.drop_last()) + amounts.last().0) as nat
    }
}

impl MicroTari {
    /// The total of `amounts`, or `None` where it overflows.
    pub fn checked_sum(amounts: &[MicroTari]) -> (r: Option<MicroTari>)
        ensures
            r == (if total(amounts@) <= u64::MAX {
                Some(MicroTari(total(amounts@) as u64))
            } else {
                None::<MicroTari>
            }),
    {
        let mut acc: u64 = 0;
        let mut i: usize = 0;
        while i < amounts.len()
            invariant
                i <= amounts@.len(),
                acc == total(amounts@.take(i as int)),
            decreases amounts@.len() - i,
        {
            assert(amounts@.take(i + 1).drop_last() =~= amounts@.take(i as int));
            match acc.checked_add(amounts[i].0) {
                Some(next) => {
                    acc = next;
                },
                None => {
                    proof {
                        lemma_total_prefix_monotone(amounts@, i + 1);
                    }
                    return None;
                },
            }
            i = i + 1;
        }
        assert(amounts@.take(i as int) =~= amounts@);
        Some(MicroTari(acc))
    }

    /// The sum, or `None` on overflow.
    pub fn checked_add(self, v: MicroTari) -> (r: Option<MicroTari>)
        ensures
            r == (if self.0 + v.0 <= u64::MAX {
                Some(MicroTari((self.0 + v.0) as u64))
            } else {
                None
            }),
    {
        match self.as_u64().checked_add(v.as_u64()) {
            Some(x) => Some(MicroTari::from(x)),
            None => None,
        }
    }

    /// The difference, or `None` where `v` is larger.
    pub fn checked_sub(self, v: MicroTari) -> (r: Option<MicroTari>)
        ensures
            r == (if self.0 >= v.0 {
                Some(MicroTari((self.0 - v.0) as u64))
            } else {
                None
            }),
    {
        if self.0 >= v.0 {
            return Some(MicroTari(self.0 - v.0));
        }
        None
    }

    /// The product, or `None` on overflow.
    pub fn checked_mul(self, v: MicroTari) -> (r: Option<MicroTari>)
        ensures
            r == (if self.0 * v.0 <= u64::MAX {
                Some(MicroTari((self.0 * v.0) as u64))
            } else {
                None
            }),
    {
        match self.as_u64().checked_mul(v.as_u64()) {
            Some(x) => Some(MicroTari::from(x)),
            None => None,
        }
    }

    /// The quotient, or `None` where `v` is zero.
    pub fn checked_div(self, v: MicroTari) -> (r: Option<MicroTari>)
        ensures
            r == (if v.0 != 0 {
                Some(MicroTari((self.0 / v.0) as u64))
            } else {
                None
            }),
    {
        match self.as_u64().checked_div(v.as_u64()) {
            Some(x) => Some(MicroTari::from(x)),
            None => None,
        }
    }

    /// The remainder, or `None` where `v` is zero.
    pub fn checked_rem(self, v: MicroTari) -> (r: Option<MicroTari>)
        ensures
            r == (if v.0 != 0 {
                Some(MicroTari((self.0 % v.0) as u64))
            } else {
                None
            }),
    {
        if v.0 != 0 {
            Some(MicroTari(self.0 % v.0))
        } else {
            None
        }
    }

    /// The difference, or zero where `v` is larger.
    pub fn saturating_sub(self, v: MicroTari) -> (r: MicroTari)
        ensures
            r.0 == (if self.0 >= v.0 {
                self.0 - v.0
            } else {
                0
            }),
    {
        if self.0 >= v.0 {
            return MicroTari(self.0 - v.0);
        }
        MicroTari(0)
    }

    /// The amount in `MicroTari`.
    pub fn as_u64(&self) -> (r: u64)
        ensures
            r == self.0,
    {
        self.0
    }

    /// The amount with `sep` between groups of three digits, in `µT`.
    pub fn to_currency_string(&self, sep: char) -> (r: String)
        ensures
            r@ == format_currency_spec(decimal(self.0 as nat), sep) + micro_suffix(),
    {
        let mut digits: Vec<char> = Vec::new();
        push_decimal(self.0, &mut digits);
        assert(digits@ =~= decimal(self.0 as nat));
        let mut out: Vec<char> = Vec::new();
        push_format_currency(&digits, sep, &mut out);
        out.push(' ');
        out.push('\u{b5}');
        out.push('T');
        assert(out@ =~= format_currency_spec(decimal(self.0 as nat), sep) + micro_suffix());
        chars_to_string(&out)
    }

    /// The amount as text: in `µT` below one `Tari`, else in `Tari` with six
    /// decimals.
    pub fn to_display_string(&self) -> (r: String)
        ensures
            r@ == micro_tari_text(self.0 as nat, 6),
    {
        self.to_display_string_with_precision(6)
    }

    /// The amount as text: in `µT` below one `Tari`, else in `Tari` with
    /// `precision` decimals.
    pub fn to_display_string_with_precision(&self, precision: usize) -> (r: String)
        ensures
            r@ == micro_tari_text(self.0 as nat, precision as nat),
    {
        let mut out: Vec<char> = Vec::new();
        if self.0 < 1_000_000 {
            push_decimal(self.0, &mut out);
            out.push(' ');
            out.push('\u{b5}');
            out.push('T');
        } else {
            push_tari_text(self.0, precision, &mut out);
        }
        assert(out@ =~= micro_tari_text(self.0 as nat, precision as nat));
        chars_to_string(&out)
    }
}

impl Tari {
    /// The amount in `MicroTari`.
    pub open spec fn micro(&self) -> u64 {
        self.0.0
    }

    /// `v` whole `Tari`.
    pub fn from_whole_tari(v: u64) -> (r: Tari)
        requires
            v * 1_000_000 <= u64::MAX,
        ensures
            r.micro() == v * 1_000_000,
    {
        Tari(MicroTari(v * MICRO_PER_TARI))
    }

    /// The sum, or `None` on overflow.
    pub fn checked_add(self, other: Tari) -> (r: Option<Tari>)
        ensures
            r == (if self.micro() + other.micro() <= u64::MAX {
                Some(Tari(MicroTari((self.micro() + other.micro()) as u64)))
            } else {
                None
            }),
    {
        match self.0.checked_add(other.0) {
            Some(m) => Some(Tari::from(m)),
            None => None,
        }
    }

    /// The difference, or `None` where `other` is larger.
    pub fn checked_sub(self, other: Tari) -> (r: Option<Tari>)
        ensures
            r == (if self.micro() >= other.micro() {
                Some(Tari(MicroTari((self.micro() - other.micro()) as u64)))
            } else {
                None
            }),
    {
        match self.0.checked_sub(other.0) {
            Some(m) => Some(Tari::from(m)),
            None => None,
        }
    }

    /// The product of the two amounts in `MicroTari`, or `None` on overflow.
    pub fn checked_mul(self, other: Tari) -> (r: Option<Tari>)
        ensures
            r == (if self.micro() * other.micro() <= u64::MAX {
                Some(Tari(MicroTari((self.micro() * other.micro()) as u64)))
            } else {
                None
            }),
    {
        match self.0.checked_mul(other.0) {
            Some(m) => Some(Tari::from(m)),
            None => None,
        }
    }

    /// The quotient of the two amounts in `MicroTari`, or `None` where
    /// `other` is zero.
    pub fn checked_div(self, other: Tari) -> (r: Option<Tari>)
        ensures
            r == (if other.micro() != 0 {
                Some(Tari(MicroTari((self.micro() / other.micro()) as u64)))
            } else {
                None
            }),
    {
        match self.0.checked_div(other.0) {
            Some(m) => Some(Tari::from(m)),
            None => None,
        }
    }

    /// The amount as a decimal number of `Tari`, with `sep` between groups
    /// of three digits of its whole part.
    pub fn to_currency_string(&self, sep: char) -> (r: String)
        ensures
            r@ == format_currency_spec(scaled_decimal_text(self.micro() as nat, 6), sep) + tari_suffix(),
    {
        let text = decimal_string(self.0.as_u64(), TARI_DECIMALS);
        let digits = crate::text::str_to_chars(text.as_str());
        let mut out: Vec<char> = Vec::new();
        push_format_currency(&digits, sep, &mut out);
        out.push(' ');
        out.push('T');
        assert(out@ =~= format_currency_spec(text@, sep) + tari_suffix());
        chars_to_string(&out)
    }

    /// The amount as text in `Tari` with six decimals.
    pub fn to_display_string(&self) -> (r: String)
        ensures
            r@ == tari_text(self.micro() as nat, 6),
    {
        self.to_display_string_with_precision(6)
    }

    /// The amount as text in `Tari` with `precision` decimals.
    pub fn to_display_string_with_precision(&self, precision: usize) -> (r: String)
        ensures
            r@ == tari_text(self.micro() as nat, precision as nat),
    {
        let mut out: Vec<char> = Vec::new();
        push_tari_text(self.0.0, precision, &mut out);
        assert(out@ =~= tari_text(self.micro() as nat, precision as nat));
        chars_to_string(&out)
    }
}

} // verus!
