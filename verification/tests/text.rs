use dbi_ftp::discovery::check_dotted_quad;
use dbi_ftp::discovery::parse_octet;
use dbi_ftp::discovery::parse_quad;
use dbi_ftp::text::fmt_u64;
use dbi_ftp::text::parse_dec_bounded;
use dbi_ftp::text::split_dots_exec;

#[test]
fn decimal_formatting_is_canonical() {
    assert_eq!(fmt_u64(0), "0");
    assert_eq!(fmt_u64(7), "7");
    assert_eq!(fmt_u64(10), "10");
    assert_eq!(fmt_u64(255), "255");
    assert_eq!(fmt_u64(5000), "5000");
    assert_eq!(fmt_u64(u64::MAX), "18446744073709551615");
}

#[test]
fn bounded_decimal_parsing() {
    assert_eq!(parse_dec_bounded("0", 255), Some(0));
    assert_eq!(parse_dec_bounded("042", 255), Some(42));
    assert_eq!(parse_dec_bounded("255", 255), Some(255));
    assert_eq!(parse_dec_bounded("256", 255), None);
    assert_eq!(parse_dec_bounded("", 255), None);
    assert_eq!(parse_dec_bounded("1a", 255), None);
    assert_eq!(parse_dec_bounded(" 1", 255), None);
    assert_eq!(parse_dec_bounded("99999999999999999999999999", u64::MAX), None);
    assert_eq!(parse_dec_bounded("18446744073709551615", u64::MAX), Some(u64::MAX));
}

#[test]
fn octets_are_bounded_bytes() {
    assert_eq!(parse_octet("0"), Some(0));
    assert_eq!(parse_octet("255"), Some(255));
    assert_eq!(parse_octet("256"), None);
    assert_eq!(parse_octet("-1"), None);
}

#[test]
fn splitting_keeps_every_piece() {
    assert_eq!(split_dots_exec("192.168.1.7"), vec!["192", "168", "1", "7"]);
    assert_eq!(split_dots_exec(""), vec![""]);
    assert_eq!(split_dots_exec("a"), vec!["a"]);
    assert_eq!(split_dots_exec(".a."), vec!["", "a", ""]);
    assert_eq!(split_dots_exec(".."), vec!["", "", ""]);
}

#[test]
fn quad_parsing_is_lenient_and_validation_is_strict() {
    assert_eq!(parse_quad("1.2.3.4"), Some((1, 2, 3, 4)));
    assert_eq!(parse_quad("1.2.3"), None);
    assert_eq!(parse_quad("1.2.3.4.5"), None);
    // The lenient reading drops pieces that are not octets, as long as
    // exactly four remain.
    assert_eq!(parse_quad("1.2.3.4.x"), Some((1, 2, 3, 4)));
    assert!(check_dotted_quad("1.2.3.4"));
    assert!(!check_dotted_quad("1.2.3.4.x"));
    assert!(!check_dotted_quad("1.2.3.256"));
    assert!(!check_dotted_quad("1.2.3."));
    assert!(!check_dotted_quad("localhost"));
}
