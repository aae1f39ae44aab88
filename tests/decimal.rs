use rustex::graphics::{write_decimal, Scale};

fn decimal(mantissa: u64, exponent: u8) -> String {
    let mut out = String::from(">");
    write_decimal(Scale { mantissa, exponent }, &mut out);
    out
}

#[test]
fn decimal_whole_numbers() {
    assert_eq!(decimal(0, 0), ">0");
    assert_eq!(decimal(12, 0), ">12");
    assert_eq!(decimal(u64::MAX, 0), ">18446744073709551615");
}

#[test]
fn decimal_fractions() {
    assert_eq!(decimal(5, 1), ">0.5");
    assert_eq!(decimal(125, 1), ">12.5");
    assert_eq!(decimal(5, 2), ">0.05");
    assert_eq!(decimal(100, 2), ">1.00");
    assert_eq!(decimal(7, 4), ">0.0007");
}
