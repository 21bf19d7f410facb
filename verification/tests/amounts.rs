use quote_aggregator::amount::{amount_less, format_u128, parse_u128, parse_u64, significant_digits};
use quote_aggregator::fixed_point::{
    format_fixed, min_after_slippage, pow10_u128, scale_down, scale_nearest,
};
use quote_aggregator::text::{append_str, equal_ignoring_case, split_on, to_chars, to_lower};

#[test]
fn parse_u128_reads_digits() {
    assert_eq!(parse_u128("0"), Some(0));
    assert_eq!(parse_u128("2500000000"), Some(2_500_000_000));
    assert_eq!(parse_u128("007"), Some(7));
    assert_eq!(parse_u128(""), Some(0));
}

#[test]
fn parse_u128_refuses_other_text() {
    assert_eq!(parse_u128("none"), None);
    assert_eq!(parse_u128("12a"), None);
    assert_eq!(parse_u128("-1"), None);
    assert_eq!(parse_u128("1.5"), None);
    assert_eq!(parse_u128(" 1"), None);
}

#[test]
fn parse_u128_stops_at_the_largest_value() {
    assert_eq!(parse_u128("340282366920938463463374607431768211455"), Some(u128::MAX));
    assert_eq!(parse_u128("340282366920938463463374607431768211456"), None);
    assert_eq!(parse_u128("3402823669209384634633746074317682114550"), None);
}

#[test]
fn format_u128_writes_shortest_text() {
    assert_eq!(format_u128(0), "0");
    assert_eq!(format_u128(9), "9");
    assert_eq!(format_u128(10), "10");
    assert_eq!(format_u128(2_475_000_000), "2475000000");
    assert_eq!(format_u128(u128::MAX), "340282366920938463463374607431768211455");
}

#[test]
fn format_then_parse_gives_the_number_back() {
    for n in [0u128, 1, 9, 10, 99, 100, 12345678901234567890, u128::MAX] {
        assert_eq!(parse_u128(&format_u128(n)), Some(n));
    }
}

#[test]
fn parse_u64_follows_the_number_syntax() {
    assert_eq!(parse_u64("1"), Some(1));
    assert_eq!(parse_u64("+42"), Some(42));
    assert_eq!(parse_u64("18446744073709551615"), Some(u64::MAX));
    assert_eq!(parse_u64("18446744073709551616"), None);
    assert_eq!(parse_u64(""), None);
    assert_eq!(parse_u64("+"), None);
    assert_eq!(parse_u64("-1"), None);
    assert_eq!(parse_u64("1x"), None);
    assert_eq!(parse_u64("++1"), None);
}

#[test]
fn parse_u64_agrees_with_std() {
    for s in ["0", "00012", "+7", "324", "mainnet", "1 ", "9999999999999999999999"] {
        assert_eq!(parse_u64(s), s.parse::<u64>().ok(), "{}", s);
    }
}

#[test]
fn amounts_are_ordered_by_value_not_by_text() {
    assert!(amount_less("999", "1000"));
    assert!(!amount_less("1000", "999"));
    assert!(amount_less("9999", "10000"));
    assert!(!amount_less("10000", "9999"));
    assert!(!amount_less("5", "5"));
    assert!(amount_less("0005", "6"));
    assert!(!amount_less("0007", "6"));
}

#[test]
fn amounts_beyond_128_bits_are_ordered() {
    let big = "340282366920938463463374607431768211456";
    let bigger = "340282366920938463463374607431768211457";
    assert!(amount_less(big, bigger));
    assert!(!amount_less(bigger, big));
    assert!(amount_less("1", big));
}

#[test]
fn text_that_is_no_amount_counts_as_zero() {
    assert!(amount_less("none", "1"));
    assert!(!amount_less("none", "0"));
    assert!(!amount_less("0", "none"));
    assert!(!amount_less("", "0"));
    assert_eq!(significant_digits("000"), Vec::<char>::new());
    assert_eq!(significant_digits("0120"), vec!['1', '2', '0']);
    assert_eq!(significant_digits("12x"), Vec::<char>::new());
}

#[test]
fn min_after_slippage_takes_the_share_off() {
    assert_eq!(min_after_slippage(2_500_000_000, 100), 2_475_000_000);
    assert_eq!(min_after_slippage(1000, 0), 1000);
    assert_eq!(min_after_slippage(1000, 50), 995);
    assert_eq!(min_after_slippage(999, 50), 994);
    assert_eq!(min_after_slippage(1000, 10_000), 0);
    assert_eq!(min_after_slippage(1000, 20_000), 0);
    assert_eq!(min_after_slippage(0, 100), 0);
}

#[test]
fn min_after_slippage_is_exact_for_the_largest_amount() {
    // u128::MAX * 9900 / 10000, computed without overflow
    let q = u128::MAX / 10_000;
    let r = u128::MAX % 10_000;
    let expected = q * 9_900 + r * 9_900 / 10_000;
    assert_eq!(min_after_slippage(u128::MAX, 100), expected);
    assert_eq!(min_after_slippage(u128::MAX, 0), u128::MAX);
}

#[test]
fn scale_down_divides_the_product() {
    assert_eq!(scale_down(6, 7, 0), Some(42));
    assert_eq!(scale_down(1_000_000, 3, 2), Some(30_000));
    assert_eq!(scale_down(199, 1, 2), Some(1));
    assert_eq!(scale_down(u128::MAX, u128::MAX, 38), None);
    assert_eq!(scale_down(u128::MAX, 2, 0), None);
    assert_eq!(scale_down(u128::MAX, 10, 1), Some(u128::MAX));
    assert_eq!(scale_down(u128::MAX, 1, 39), Some(0));
    assert_eq!(scale_down(u128::MAX, 1000, 40), Some(34));
    assert_eq!(scale_down(5, 5, 200), Some(0));
}

#[test]
fn scale_nearest_rounds_halves_up() {
    assert_eq!(scale_nearest(149, 1, 2), Some(1));
    assert_eq!(scale_nearest(150, 1, 2), Some(2));
    assert_eq!(scale_nearest(250, 1, 2), Some(3));
    assert_eq!(scale_nearest(7, 3, 0), Some(21));
    assert_eq!(scale_nearest(4, 1, 1), Some(0));
    assert_eq!(scale_nearest(5, 1, 1), Some(1));
}

#[test]
fn pow10_counts_zeros() {
    assert_eq!(pow10_u128(0), 1);
    assert_eq!(pow10_u128(18), 1_000_000_000_000_000_000);
    assert_eq!(pow10_u128(38), 100_000_000_000_000_000_000_000_000_000_000_000_000);
}

#[test]
fn format_fixed_places_the_point() {
    assert_eq!(format_fixed(350012, 2), "3500.12");
    assert_eq!(format_fixed(5, 2), "0.05");
    assert_eq!(format_fixed(0, 2), "0.00");
    assert_eq!(format_fixed(100, 2), "1.00");
    assert_eq!(format_fixed(42, 0), "42");
    assert_eq!(format_fixed(21000, 8), "0.00021000");
    assert_eq!(format_fixed(123456789, 8), "1.23456789");
}

#[test]
fn text_helpers_keep_their_characters() {
    assert_eq!(to_chars("a:b"), vec!['a', ':', 'b']);
    assert_eq!(append_str("ab", "cd"), "abcd");
    assert_eq!(to_lower("0xA0b8EeZz"), "0xa0b8eezz");
    assert!(equal_ignoring_case("0xABCDEF", "0xabcdef"));
    assert!(!equal_ignoring_case("0xABCDEF", "0xabcdee"));
}

#[test]
fn split_on_keeps_empty_parts() {
    assert_eq!(split_on("a,b,c", ','), vec!["a", "b", "c"]);
    assert_eq!(split_on("", ','), vec![""]);
    assert_eq!(split_on(",", ','), vec!["", ""]);
    assert_eq!(split_on("a,,b,", ','), vec!["a", "", "b", ""]);
    for s in ["x:y", "::", "no separator", ":lead", "trail:"] {
        let expected: Vec<String> = s.split(':').map(|p| p.to_string()).collect();
        assert_eq!(split_on(s, ':'), expected);
    }
}
