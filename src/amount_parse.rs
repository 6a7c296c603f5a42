//! Reading an amount from text: in `µT` (also written `uT`) or, with a
//! `T` suffix, in whole `Tari` with up to six decimals.
use vstd::prelude::*;
use vstd::string::StringExecFns;

use crate::amount::{MicroTari, Tari, MICRO_PER_TARI};
use crate::text::{chars_to_string, str_to_chars};

verus! {

/// A number too large for an amount.
#[derive(Debug, Clone, Copy, PartialEq, Eq, Structural)]
pub enum AmountConvertError {
    Overflow,
}

/// Why text did not read as an amount.
#[derive(Debug, Clone, PartialEq)]
pub enum MicroTariError {
    /// The text is no amount; the message says why.
    ParseError(String),
    /// The amount does not fit.
    ConversionError(AmountConvertError),
}

/// Why text did not read as an unsigned integer.
#[derive(Debug, Clone, Copy, PartialEq, Eq, Structural)]
pub enum IntErrorKind {
    Empty,
    InvalidDigit,
    PosOverflow,
}

/// `c` with ASCII upper case letters made lower case.
pub open spec fn ascii_lower(c: char) -> char {
    if 'A' <= c && c <= 'Z' {
        ((c as u32) + 32) as char
    } else {
        c
    }
}

fn ascii_lower_exec(c: char) -> (r: char)
    ensures
        r == ascii_lower(c),
{
    if 'A' <= c && c <= 'Z' {
        (((c as u32) + 32) as u8) as char
    } else {
        c
    }
}

/// `s` without commas and spaces, in ASCII lower case.
pub open spec fn cleaned(s: Seq<char>) -> Seq<char>
    decreases s.len(),
{
    if s.len() == 0 {
        s
    } else {
        let r = cleaned(s.drop_last());
        if s.last() == ',' || s.last() == ' ' {
            r
        } else {
            r.push(ascii_lower(s.last()))
        }
    }
}

/// `s` without the character `c`.
pub open spec fn without_char(s: Seq<char>, c: char) -> Seq<char>
    decreases s.len(),
{
    if s.len() == 0 {
        s
    } else {
        let r = without_char(s.drop_last(), c);
        if s.last() == c {
            r
        } else {
            r.push(s.last())
        }
    }
}

/// `s` with each occurrence of the pair `a b` taken out, scanning from the
/// left.
pub open spec fn without_pair(s: Seq<char>, a: char, b: char) -> Seq<char>
    decreases s.len(),
{
    if s.len() < 2 {
        s
    } else if s[0] == a && s[1] == b {
        without_pair(s.skip(2), a, b)
    } else {
        seq![s[0]] + without_pair(s.skip(1), a, b)
    }
}

/// Whether `s` ends with the pair `a b`.
pub open spec fn ends_with_pair(s: Seq<char>, a: char, b: char) -> bool {
    s.len() >= 2 && s[s.len() - 2] == a && s[s.len() - 1] == b
}

/// Whether cleaned text `p` is in `µT`: it ends in `ut` or `µt`, or does
/// not end in `t`.
pub open spec fn is_micro_text(p: Seq<char>) -> bool {
    ends_with_pair(p, 'u', 't') || ends_with_pair(p, '\u{b5}', 't') || !(p.len() >= 1 && p.last() == 't')
}

/// Cleaned text `p` without its unit: `ut`, then `µt`, then every `t` taken
/// out.
pub open spec fn without_unit(p: Seq<char>) -> Seq<char> {
    without_char(without_pair(without_pair(p, 'u', 't'), '\u{b5}', 't'), 't')
}

/// Reads decimal digits of `s` from index `i` on, `acc` being the value so
/// far, as `u64`'s `from_str` does.
pub open spec fn parse_digits_from(s: Seq<char>, i: int, acc: nat) -> Result<u64, IntErrorKind>
    decreases s.len() - i,
{
    if i >= s.len() {
        if acc <= u64::MAX {
            Ok(acc as u64)
        } else {
            Err(IntErrorKind::PosOverflow)
        }
    } else if !('0' <= s[i] && s[i] <= '9') {
        Err(IntErrorKind::InvalidDigit)
    } else if acc * 10 + (s[i] as u32 - '0' as u32) > u64::MAX {
        Err(IntErrorKind::PosOverflow)
    } else {
        parse_digits_from(s, i + 1, (acc * 10 + (s[i] as u32 - '0' as u32)) as nat)
    }
}

/// `s` read as a `u64`: decimal digits after an optional `+`.
pub open spec fn parse_u64_spec(s: Seq<char>) -> Result<u64, IntErrorKind> {
    if s.len() == 0 {
        Err(IntErrorKind::Empty)
    } else if s[0] == '+' {
        if s.len() == 1 {
            Err(IntErrorKind::InvalidDigit)
        } else {
            parse_digits_from(s, 1, 0)
        }
    } else {
        parse_digits_from(s, 0, 0)
    }
}

/// Reads `s` as a `u64`, as [`parse_u64_spec`] says.
pub fn parse_u64(s: &Vec<char>) -> (r: Result<u64, IntErrorKind>)
    ensures
        r == parse_u64_spec(s@),
{
    let len = s.len();
    if len == 0 {
        return Err(IntErrorKind::Empty);
    }
    let mut i: usize = 0;
    if s[0] == '+' {
        if len == 1 {
            return Err(IntErrorKind::InvalidDigit);
        }
        i = 1;
    }
    let mut acc: u64 = 0;
    while i < len
        invariant
            1 <= len == s@.len(),
            i <= len,
            parse_u64_spec(s@) == parse_digits_from(s@, i as int, acc as nat),
        decreases len - i,
    {
        let c = s[i];
        if !('0' <= c && c <= '9') {
            return Err(IntErrorKind::InvalidDigit);
        }
        let d: u64 = (c as u32 - '0' as u32) as u64;
        if acc > (u64::MAX - d) / 10 {
            assert(acc * 10 + d > u64::MAX) by (nonlinear_arith)
                requires
                    acc > (u64::MAX - d) / 10,
                    d <= 9,
            ;
            return Err(IntErrorKind::PosOverflow);
        }
        assert(acc * 10 + d <= u64::MAX) by (nonlinear_arith)
            requires
                acc <= (u64::MAX - d) / 10,
                d <= 9,
        ;
        acc = acc * 10 + d;
        i = i + 1;
    }
    Ok(acc)
}

fn cleaned_chars(s: &Vec<char>) -> (r: Vec<char>)
    ensures
        r@ == cleaned(s@),
{
    let mut out: Vec<char> = Vec::new();
    let mut i: usize = 0;
    while i < s.len()
        invariant
            i <= s@.len(),
            out@ == cleaned(s@.take(i as int)),
        decreases s@.len() - i,
    {
        let c = s[i];
        assert(s@.take(i + 1).drop_last() =~= s@.take(i as int));
        if c != ',' && c != ' ' {
            out.push(ascii_lower_exec(c));
        }
        i = i + 1;
    }
    assert(s@.take(i as int) =~= s@);
    out
}

fn without_char_chars(s: &Vec<char>, c: char) -> (r: Vec<char>)
    ensures
        r@ == without_char(s@, c),
{
    let mut out: Vec<char> = Vec::new();
    let mut i: usize = 0;
    while i < s.len()
        invariant
            i <= s@.len(),
            out@ == without_char(s@.take(i as int), c),
        decreases s@.len() - i,
    {
        assert(s@.take(i + 1).drop_last() =~= s@.take(i as int));
        if s[i] != c {
            out.push(s[i]);
        }
        i = i + 1;
    }
    assert(s@.take(i as int) =~= s@);
    out
}

fn without_pair_chars(s: &Vec<char>, a: char, b: char) -> (r: Vec<char>)
    ensures
        r@ == without_pair(s@, a, b),
{
    let mut out: Vec<char> = Vec::new();
    let mut i: usize = 0;
    let len = s.len();
    assert(s@.skip(0) =~= s@);
    assert(out@ + without_pair(s@, a, b) =~= without_pair(s@, a, b));
    while i < len
        invariant
            i <= len == s@.len(),
            out@ + without_pair(s@.skip(i as int), a, b) == without_pair(s@, a, b),
        decreases len - i,
    {
        let ghost t = s@.skip(i as int);
        if i + 1 < len && s[i] == a && s[i + 1] == b {
            assert(t.skip(2) =~= s@.skip(i + 2));
            i = i + 2;
        } else {
            let ghost before = out@;
            out.push(s[i]);
            assert(t.skip(1) =~= s@.skip(i + 1));
            proof {
                if t.len() >= 2 {
                    assert(without_pair(t, a, b) == seq![t[0]] + without_pair(t.skip(1), a, b));
                } else {
                    assert(without_pair(t, a, b) == t);
                    assert(without_pair(t.skip(1), a, b) == t.skip(1));
                    assert(t =~= seq![t[0]] + t.skip(1));
                }
            }
            assert(out@ + without_pair(s@.skip(i + 1), a, b) =~= before + without_pair(t, a, b));
            i = i + 1;
        }
    }
    assert(s@.skip(i as int) =~= Seq::<char>::empty());
    assert(out@ =~= without_pair(s@, a, b));
    out
}

/// The text of an integer error, as `u64`'s `from_str` words it.
fn int_error_text(kind: IntErrorKind) -> String {
    match kind {
        IntErrorKind::Empty => String::from_str("cannot parse integer from empty string"),
        IntErrorKind::InvalidDigit => String::from_str("invalid digit found in string"),
        IntErrorKind::PosOverflow => String::from_str("number too large to fit in target type"),
    }
}

/// What `decimal_rs` reads from a text: the parts of the decimal
/// `(int_val, scale, negative)`, or the text of its error.
pub uninterp spec fn decimal_parse_of(s: Seq<char>) -> Result<(u128, i16, bool), Seq<char>>;

/// The longest text, in characters, handed to the decimal parser.
pub const MAX_DECIMAL_TEXT_LEN: usize = 30_000;

/// Relies on `decimal_rs::Decimal`'s `FromStr` and `into_parts`: the result
/// depends on the text alone. The parser keeps digit counts in `i16`, so
/// longer texts could overflow it; they are not handed to it.
#[verifier::external_body]
fn parse_decimal(s: &str) -> (r: Result<(u128, i16, bool), String>)
    requires
        s@.len() <= MAX_DECIMAL_TEXT_LEN,
    ensures
        match (r, decimal_parse_of(s@)) {
            (Ok(p), Ok(q)) => p == q,
            (Err(e), Err(t)) => e@ == t,
            _ => false,
        },
{
    match s.parse::<decimal_rs::Decimal>() {
        Ok(d) => Ok(d.into_parts()),
        Err(e) => Err(e.to_string()),
    }
}

/// What `decimal_rs` gives for the decimal of the given parts multiplied by
/// `factor` and truncated to a whole number: its integer part, or `None`
/// where the parts are out of range or the product overflows.
pub uninterp spec fn scaled_units_of(int_val: u128, scale: i16, negative: bool, factor: u64) -> Option<u128>;

/// Relies on `decimal_rs::Decimal::from_parts`, `checked_mul`, `trunc` and
/// `into_parts`: the result depends on the arguments alone.
#[verifier::external_body]
fn decimal_scaled_units(int_val: u128, scale: i16, negative: bool, factor: u64) -> (r: Option<u128>)
    ensures
        r == scaled_units_of(int_val, scale, negative, factor),
{
    match decimal_rs::Decimal::from_parts(int_val, scale, negative) {
        Ok(d) => d.checked_mul(decimal_rs::Decimal::from(factor)).map(|p| p.trunc(0).into_parts().0),
        Err(_) => None,
    }
}

/// The `Tari` amount of a count of micro units that the decimal
/// multiplication gave: too large for `u64`, or missing because the
/// multiplication overflowed, it is a `ConversionError`.
pub fn tari_from_micro_units(units: Option<u128>) -> (r: Result<Tari, MicroTariError>)
    ensures
        match units {
            Some(u) => if u <= u64::MAX {
                r == Ok::<Tari, MicroTariError>(Tari(MicroTari(u as u64)))
            } else {
                r == Err::<Tari, MicroTariError>(MicroTariError::ConversionError(AmountConvertError::Overflow))
            },
            None => r == Err::<Tari, MicroTariError>(MicroTariError::ConversionError(AmountConvertError::Overflow)),
        },
{
    match units {
        Some(u) => {
            if u <= u64::MAX as u128 {
                Ok(Tari(MicroTari(u as u64)))
            } else {
                Err(MicroTariError::ConversionError(AmountConvertError::Overflow))
            }
        },
        None => Err(MicroTariError::ConversionError(AmountConvertError::Overflow)),
    }
}

impl Tari {
    /// The amount of a decimal number of `Tari` given by its parts: a
    /// negative value, or one with more than six decimals, is a
    /// `ParseError`; one that does not fit is a `ConversionError`.
    pub fn try_from_decimal_parts(int_val: u128, scale: i16, negative: bool) -> (r: Result<Tari, MicroTariError>)
        ensures
            negative ==> (r matches Err(MicroTariError::ParseError(_))),
            !negative && scale > 6 ==> (r matches Err(MicroTariError::ParseError(_))),
            !negative && scale <= 6 ==> match scaled_units_of(int_val, scale, negative, MICRO_PER_TARI) {
                Some(u) => if u <= u64::MAX {
                    r == Ok::<Tari, MicroTariError>(Tari(MicroTari(u as u64)))
                } else {
                    r matches Err(MicroTariError::ConversionError(AmountConvertError::Overflow))
                },
                None => r matches Err(MicroTariError::ConversionError(AmountConvertError::Overflow)),
            },
    {
        if negative {
            Err(MicroTariError::ParseError(String::from_str("value cannot be negative")))
        } else if scale > 6 {
            Err(MicroTariError::ParseError(String::from_str("too many decimals")))
        } else {
            tari_from_micro_units(decimal_scaled_units(int_val, scale, negative, MICRO_PER_TARI))
        }
    }

    /// Reads a decimal number of `Tari`; a text longer than
    /// `MAX_DECIMAL_TEXT_LEN` characters is a `ParseError`.
    pub fn from_str(s: &str) -> (r: Result<Tari, MicroTariError>)
        ensures
            s@.len() > MAX_DECIMAL_TEXT_LEN ==> (r matches Err(MicroTariError::ParseError(_))),
            s@.len() <= MAX_DECIMAL_TEXT_LEN ==> match decimal_parse_of(s@) {
                Err(_) => r matches Err(MicroTariError::ParseError(_)),
                Ok((int_val, scale, negative)) => {
                    &&& negative ==> (r matches Err(MicroTariError::ParseError(_)))
                    &&& !negative && scale > 6 ==> (r matches Err(MicroTariError::ParseError(_)))
                    &&& !negative && scale <= 6 ==> match scaled_units_of(int_val, scale, negative, MICRO_PER_TARI) {
                        Some(u) => if u <= u64::MAX {
                            r == Ok::<Tari, MicroTariError>(Tari(MicroTari(u as u64)))
                        } else {
                            r matches Err(MicroTariError::ConversionError(AmountConvertError::Overflow))
                        },
                        None => r matches Err(MicroTariError::ConversionError(AmountConvertError::Overflow)),
                    }
                },
            },
    {
        let chars = str_to_chars(s);
        if chars.len() > MAX_DECIMAL_TEXT_LEN {
            return Err(MicroTariError::ParseError(String::from_str("text too long")));
        }
        match parse_decimal(s) {
            Ok((int_val, scale, negative)) => Tari::try_from_decimal_parts(int_val, scale, negative),
            Err(e) => Err(MicroTariError::ParseError(e)),
        }
    }
}

impl MicroTari {
    /// Reads an amount: commas and spaces are ignored and letters may be of
    /// either case; text ending in `µT` or `uT`, or not in `T`, is a whole
    /// number of `µT`; text ending in `T` alone is a decimal number of
    /// `Tari`, of at most `MAX_DECIMAL_TEXT_LEN` characters without its unit.
    pub fn from_str(s: &str) -> (r: Result<MicroTari, MicroTariError>)
        ensures
            is_micro_text(cleaned(s@)) ==> match parse_u64_spec(without_unit(cleaned(s@))) {
                Ok(v) => r == Ok::<MicroTari, MicroTariError>(MicroTari(v)),
                Err(_) => r matches Err(MicroTariError::ParseError(_)),
            },
            !is_micro_text(cleaned(s@)) && without_unit(cleaned(s@)).len() > MAX_DECIMAL_TEXT_LEN ==> (
            r matches Err(MicroTariError::ParseError(_))),
            !is_micro_text(cleaned(s@)) && without_unit(cleaned(s@)).len() <= MAX_DECIMAL_TEXT_LEN
                ==> match decimal_parse_of(without_unit(cleaned(s@))) {
                Err(_) => r matches Err(MicroTariError::ParseError(_)),
                Ok((int_val, scale, negative)) => {
                    &&& negative ==> (r matches Err(MicroTariError::ParseError(_)))
                    &&& !negative && scale > 6 ==> (r matches Err(MicroTariError::ParseError(_)))
                    &&& !negative && scale <= 6 ==> match scaled_units_of(int_val, scale, negative, MICRO_PER_TARI) {
                        Some(u) => if u <= u64::MAX {
                            r == Ok::<MicroTari, MicroTariError>(MicroTari(u as u64))
                        } else {
                            r matches Err(MicroTariError::ConversionError(AmountConvertError::Overflow))
                        },
                        None => r matches Err(MicroTariError::ConversionError(AmountConvertError::Overflow)),
                    }
                },
            },
    {
        let chars = str_to_chars(s);
        let p = cleaned_chars(&chars);
        let len = p.len();
        let ends_t = len >= 1 && p[len - 1] == 't';
        let ends_ut = len >= 2 && p[len - 2] == 'u' && p[len - 1] == 't';
        let ends_mt = len >= 2 && p[len - 2] == '\u{b5}' && p[len - 1] == 't';
        let is_micro = ends_ut || ends_mt || !ends_t;
        let stripped = without_char_chars(
            &without_pair_chars(&without_pair_chars(&p, 'u', 't'), '\u{b5}', 't'),
            't',
        );
        if is_micro {
            match parse_u64(&stripped) {
                Ok(v) => Ok(MicroTari(v)),
                Err(kind) => Err(MicroTariError::ParseError(int_error_text(kind))),
            }
        } else {
            let text = chars_to_string(&stripped);
            match Tari::from_str(text.as_str()) {
                Ok(t) => Ok(t.0),
                Err(e) => Err(e),
            }
        }
    }
}

} // verus!
