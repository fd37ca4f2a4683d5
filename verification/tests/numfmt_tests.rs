use libcamera_cgen::numfmt::i64_to_dec;
use libcamera_cgen::numfmt::u64_to_dec;
use libcamera_cgen::numfmt::usize_to_dec;

#[test]
fn dec_zero() {
    assert_eq!(u64_to_dec(0), "0");
}

#[test]
fn dec_round_number() {
    assert_eq!(u64_to_dec(1000), "1000");
}

#[test]
fn dec_large() {
    assert_eq!(u64_to_dec(u64::MAX), "18446744073709551615");
}

#[test]
fn dec_negative() {
    assert_eq!(i64_to_dec(-45), "-45");
}

#[test]
fn dec_most_negative() {
    assert_eq!(i64_to_dec(i64::MIN), "-9223372036854775808");
}

#[test]
fn dec_most_positive() {
    assert_eq!(i64_to_dec(i64::MAX), "9223372036854775807");
}

#[test]
fn dec_usize() {
    assert_eq!(usize_to_dec(907), "907");
}
