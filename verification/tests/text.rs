use teemlab::text::format_decimal;

#[test]
fn decimals_are_written_without_leading_zeros() {
    assert_eq!(format_decimal(0), "0");
    assert_eq!(format_decimal(7), "7");
    assert_eq!(format_decimal(1200), "1200");
    assert_eq!(format_decimal(u64::MAX), u64::MAX.to_string());
}
