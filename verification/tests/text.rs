use nyanpasu_core::text::{
    byte_len, chars, clip, contains, ends_with, hex_encode, i64_to_string, lines,
    parse_u32, parse_u64, replace, split_at_first, starts_with, str_lt, strip_prefix, strip_suffix,
    to_ascii_lowercase, trim, u64_to_hex, u64_to_string,
};
use nyanpasu_core::time::Duration;

#[test]
fn decimal_digits_of_a_number() {
    assert_eq!(u64_to_string(18446744073709551615), "18446744073709551615");
    assert_eq!(u64_to_string(0), "0");
    assert_eq!(i64_to_string(-1), "-1");
    assert_eq!(i64_to_string(i64::MIN), "-9223372036854775808");
    assert_eq!(chars("aé"), vec!['a', 'é']);
}

#[test]
fn numbers_are_read_like_the_standard_library_reads_them() {
    for s in ["0", "+7", "007", "18446744073709551615", "18446744073709551616", "-1", "", "+", "1 "] {
        assert_eq!(parse_u64(s), s.parse::<u64>().ok(), "{s:?}");
    }
    assert_eq!(parse_u32("4294967295"), Some(u32::MAX));
    assert_eq!(parse_u32("4294967296"), None);
}

#[test]
fn hexadecimal_digits_are_lower_case() {
    assert_eq!(hex_encode(&[0x00, 0xab, 0xff]), "00abff");
    assert_eq!(u64_to_hex(0x1f), "000000000000001f");
}

#[test]
fn clipping_keeps_whole_characters() {
    assert_eq!(clip("aéz", 2), "a");
    assert_eq!(clip("aéz", 3), "aé");
    assert_eq!(clip("aéz", 9), "aéz");
    assert_eq!(byte_len("aéz"), 4);
}

#[test]
fn searching_and_splitting() {
    assert_eq!(split_at_first("a:b:c", ":"), Some(("a".to_owned(), "b:c".to_owned())));
    assert_eq!(split_at_first("abc", ":"), None);
    assert_eq!(strip_prefix("core-1", "core-"), Some("1".to_owned()));
    assert_eq!(strip_suffix("1.pid", ".sock"), None);
    assert!(starts_with("core-1", "core-") && ends_with("core-1", "-1"));
    assert!(contains("a{epoch}b", "{epoch}") && !contains("ab", "{epoch}"));
    assert_eq!(replace("a{x}b{x}", "{x}", "7"), "a7b7");
    assert_eq!(trim(" \u{a0}x y\n"), "x y");
    assert_eq!(lines("a\r\nb\n\nc"), vec!["a", "b", "", "c"]);
    assert_eq!(to_ascii_lowercase("MiHoMoÉ"), "mihomoÉ");
    assert!(str_lt("a", "b") && !str_lt("b", "a") && str_lt("a", "ab"));
}

#[test]
fn durations_are_printed_like_the_standard_library_prints_them() {
    for nanos in [0u64, 1, 999, 1_000, 1_500, 2_000_000, 30_000_000_000, 1_500_000_000] {
        assert_eq!(
            Duration::from_nanos(nanos).text(),
            format!("{:?}", std::time::Duration::from_nanos(nanos)),
        );
    }
}

#[test]
fn durations_are_compared_and_multiplied() {
    let second = Duration::from_secs(1);
    assert!(Duration::from_millis(999).less(&second));
    assert_eq!(second.saturating_mul(3).as_secs(), 3);
    assert_eq!(Duration::from_secs(u64::MAX).saturating_mul(2).as_secs(), u64::MAX);
    assert!(Duration::zero().is_zero() && !second.is_zero());
}
