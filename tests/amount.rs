use std::convert::TryFrom;

use decimal_rs::Decimal;
use tari_rpc_core::amount::{MicroTari, Tari};
use tari_rpc_core::amount_parse::{AmountConvertError, MicroTariError};

fn tari_from_decimal(d: Decimal) -> Result<Tari, MicroTariError> {
    let (int_val, scale, negative) = d.into_parts();
    Tari::try_from_decimal_parts(int_val, scale, negative)
}

fn tari_from_f32_lossy(v: f32) -> Result<Tari, MicroTariError> {
    tari_from_decimal(Decimal::try_from(v).unwrap().trunc(6))
}

#[test]
fn micro_tari_arithmetic() {
    let v = MicroTari(100)
        .checked_add(MicroTari::from(Tari::from_whole_tari(99)))
        .unwrap();
    assert_eq!(v, MicroTari(99_000_100));
    let v = Tari::from_whole_tari(99)
        .checked_sub(Tari::from(MicroTari(100)))
        .unwrap();
    assert_eq!(v, MicroTari(98_999_900).into());
    let v = Tari::from_whole_tari(99)
        .checked_mul(Tari::from(MicroTari(100)))
        .unwrap();
    assert_eq!(v, MicroTari(9_900_000_000).into());
    let v = Tari::from_whole_tari(990)
        .checked_div(Tari::from(MicroTari(100)))
        .unwrap();
    assert_eq!(v, MicroTari(9_900_000).into());

    let mut a = MicroTari::from(500);
    let b = MicroTari::from(50);
    assert_eq!(a.checked_add(b).unwrap(), MicroTari::from(550));
    assert_eq!(a.checked_sub(b).unwrap(), MicroTari::from(450));
    assert_eq!(a.checked_mul(MicroTari(5)).unwrap(), MicroTari::from(2_500));
    assert_eq!(a.checked_div(MicroTari(10)).unwrap(), MicroTari::from(50));
    a = a.checked_add(b).unwrap();
    assert_eq!(a, MicroTari::from(550));
    a = a.checked_sub(MicroTari::from(45)).unwrap();
    assert_eq!(a, MicroTari::from(505));
    assert_eq!(a.checked_rem(MicroTari(50)).unwrap(), MicroTari::from(5));
}

#[test]
fn micro_tari_display() {
    let s = MicroTari::from(1234).to_display_string();
    assert_eq!(s, "1234 µT");
    let s = Tari::from(MicroTari::from(1_000_000)).to_display_string();
    assert_eq!(s, "1.000000 T");
    let s = MicroTari::from(99_100_000).to_display_string();
    assert_eq!(s, "99.100000 T");
    let s = MicroTari::from(1_000_000_000).to_display_string();
    assert_eq!(s, "1000.000000 T");

    let s = MicroTari::from(1_000_000_000).to_display_string_with_precision(0);
    assert_eq!(s, "1000 T");
}

#[test]
fn formatted_micro_tari_display() {
    let s = MicroTari::from(99_100_000).to_currency_string(',');
    assert_eq!(s, "99,100,000 µT");
    let s = MicroTari::from(1_000_000_000).to_currency_string(',');
    assert_eq!(s, "1,000,000,000 µT");
    let s = tari_from_f32_lossy(1.234).unwrap().to_display_string_with_precision(2);
    assert_eq!(s, "1.23 T");
    let s = tari_from_f32_lossy(99_999.1).unwrap().to_display_string_with_precision(2);
    assert_eq!(s, "99999.10 T");
}

#[test]
fn micro_tari_from_string() {
    let micro_tari = MicroTari::from(99_100_000);
    let s = micro_tari.to_display_string();
    assert_eq!(micro_tari, MicroTari::from_str(s.as_str()).unwrap());
    let tari = tari_from_f32_lossy(1.12).unwrap();
    let s = tari.to_display_string();
    assert_eq!(MicroTari::from(tari), MicroTari::from_str(s.as_str()).unwrap());
    assert_eq!(MicroTari::from(5_000_000), MicroTari::from_str("5000000").unwrap());
    assert_eq!(MicroTari::from(5_000_000), MicroTari::from_str("5,000,000").unwrap());
    assert_eq!(MicroTari::from(5_000_000), MicroTari::from_str("5,000,000 uT").unwrap());
    assert_eq!(MicroTari::from(5_000_000), MicroTari::from_str("5000000 uT").unwrap());
    assert_eq!(MicroTari::from(5_000_000), MicroTari::from_str("5 T").unwrap());
    assert!(MicroTari::from_str("-5 T").is_err());
    assert!(MicroTari::from_str("-5 uT").is_err());
    assert!(MicroTari::from_str("5garbage T").is_err());
}

#[test]
fn add_tari_and_microtari() {
    let a = MicroTari::from(100_000);
    let b = tari_from_f32_lossy(0.23).unwrap();
    let sum: Tari = b.checked_add(Tari::from(a)).unwrap();
    assert_eq!(sum, tari_from_f32_lossy(0.33).unwrap());
}

#[test]
fn tari_arithmetic() {
    let mut a = tari_from_f32_lossy(1.5).unwrap();
    let b = tari_from_f32_lossy(2.25).unwrap();
    assert_eq!(a.checked_add(b).unwrap(), tari_from_f32_lossy(3.75).unwrap());
    assert_eq!(a.checked_sub(b), None);
    assert_eq!(a.checked_mul(Tari::from(MicroTari(10))).unwrap(), tari_from_f32_lossy(15.0).unwrap());
    assert_eq!(b.checked_div(Tari::from(MicroTari(2))).unwrap(), tari_from_f32_lossy(1.125).unwrap());
    a = a.checked_add(b).unwrap();
    assert_eq!(a, tari_from_f32_lossy(3.75).unwrap());
    a = a.checked_sub(tari_from_f32_lossy(0.75).unwrap()).unwrap();
    assert_eq!(a, tari_from_f32_lossy(3.0).unwrap());
}

#[test]
fn tari_display() {
    let s = tari_from_decimal(Decimal::try_from(1.234).unwrap().round(3)).unwrap().to_display_string();
    assert_eq!(s, "1.234000 T");
    let s = tari_from_decimal(Decimal::try_from(99.100).unwrap().round(3)).unwrap().to_display_string();
    assert_eq!(s, "99.100000 T");
}

#[test]
fn amount_parse_errors() {
    assert!(matches!(MicroTari::from_str(""), Err(MicroTariError::ParseError(_))));
    assert!(matches!(MicroTari::from_str("99999999999999999999"), Err(MicroTariError::ParseError(_))));
    assert!(matches!(MicroTari::from_str("1.0000001 T"), Err(MicroTariError::ParseError(_))));
    assert!(matches!(
        MicroTari::from_str("99999999999999 T"),
        Err(MicroTariError::ConversionError(AmountConvertError::Overflow))
    ));
    assert_eq!(MicroTari::from_str("1.5 t").unwrap(), MicroTari(1_500_000));
    assert_eq!(MicroTari::from_str("+42 µT").unwrap(), MicroTari(42));
    assert_eq!(Tari::from_str("2.000001").unwrap(), Tari::from(MicroTari(2_000_001)));
}

#[test]
fn formatted_tari_display() {
    let s = Tari::from_whole_tari(99_100_000).to_currency_string(',');
    assert_eq!(s, "99,100,000 T");
    let s = Tari::from_whole_tari(1_000_000_000).to_currency_string(',');
    assert_eq!(s, "1,000,000,000 T");
}

#[test]
fn tari_currency_string_keeps_fraction() {
    let s = Tari::from(MicroTari(1_234_500_000)).to_currency_string(',');
    assert_eq!(s, "1,234.5 T");
}

#[test]
fn checked_ops_fail_at_the_edges() {
    assert_eq!(MicroTari(u64::MAX).checked_add(MicroTari(1)), None);
    assert_eq!(MicroTari(1).checked_sub(MicroTari(2)), None);
    assert_eq!(MicroTari(u64::MAX).checked_mul(MicroTari(2)), None);
    assert_eq!(MicroTari(1).checked_div(MicroTari(0)), None);
    assert_eq!(MicroTari(1).saturating_sub(MicroTari(2)), MicroTari(0));
    assert_eq!(MicroTari(7).saturating_sub(MicroTari(2)), MicroTari(5));
    assert_eq!(Tari::from(MicroTari(1)).checked_sub(Tari::from(MicroTari(2))), None);
}

#[test]
fn display_rounds_half_to_even() {
    assert_eq!(Tari::from(MicroTari(1_500_000)).to_display_string_with_precision(0), "2 T");
    assert_eq!(Tari::from(MicroTari(2_500_000)).to_display_string_with_precision(0), "2 T");
    assert_eq!(Tari::from(MicroTari(2_500_001)).to_display_string_with_precision(0), "3 T");
    assert_eq!(Tari::from(MicroTari(1_000_000)).to_display_string_with_precision(8), "1.00000000 T");
    assert_eq!(MicroTari(999_999).to_display_string(), "999999 µT");
}

#[test]
fn currency_separators() {
    assert_eq!(tari_rpc_core::text::format_currency("1234567.891", ','), "1,234,567.891");
    assert_eq!(tari_rpc_core::text::format_currency("123", ','), "123");
    assert_eq!(tari_rpc_core::text::format_currency("1000", '_'), "1_000");
    assert_eq!(tari_rpc_core::text::format_currency("", ','), "");
}

#[test]
fn checked_sum_of_amounts() {
    let amounts = [MicroTari(500), MicroTari(50), MicroTari(5)];
    assert_eq!(MicroTari::checked_sum(&amounts), Some(MicroTari(555)));
    assert_eq!(MicroTari::checked_sum(&[]), Some(MicroTari(0)));
    assert_eq!(MicroTari::checked_sum(&[MicroTari(u64::MAX), MicroTari(1)]), None);
}

#[test]
fn tari_currency_string_below_one() {
    assert_eq!(Tari::from(MicroTari(500_000)).to_currency_string(','), "0.500000 T");
    assert_eq!(Tari::from(MicroTari(0)).to_currency_string(','), "0 T");
}

#[test]
fn over_long_decimal_text_is_refused() {
    let long = "1".repeat(32_768);
    assert!(matches!(Tari::from_str(&long), Err(MicroTariError::ParseError(_))));
    let with_unit = format!("{} T", long);
    assert!(matches!(MicroTari::from_str(&with_unit), Err(MicroTariError::ParseError(_))));
}
