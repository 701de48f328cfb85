use boutique_bouquet_api::text::{parse_unsigned, push_int, push_nat, same_text, strip_prefix};

fn int_text(n: i32) -> String {
    let mut s = String::new();
    push_int(&mut s, n);
    s
}

#[test]
fn push_int_writes_decimal_text() {
    assert_eq!(int_text(0), "0");
    assert_eq!(int_text(7), "7");
    assert_eq!(int_text(10), "10");
    assert_eq!(int_text(-1), "-1");
    assert_eq!(int_text(1234567890), "1234567890");
    assert_eq!(int_text(i32::MAX), "2147483647");
    assert_eq!(int_text(i32::MIN), "-2147483648");
}

#[test]
fn push_int_agrees_with_the_standard_rendering() {
    for n in [-100000, -99, -10, -9, 0, 9, 10, 99, 100, 101, 65535, 1000000] {
        assert_eq!(int_text(n), format!("{}", n));
    }
}

#[test]
fn push_nat_appends_to_what_is_there() {
    let mut s = String::from("id = $");
    push_nat(&mut s, 12);
    assert_eq!(s, "id = $12");
    push_nat(&mut s, u64::MAX);
    assert_eq!(s, "id = $1218446744073709551615");
}

#[test]
fn same_text_compares_characters() {
    assert!(same_text("image", "image"));
    assert!(!same_text("image", "Image"));
    assert!(!same_text("image", "images"));
    assert!(same_text("", ""));
    assert!(same_text("naïve", "naïve"));
}

#[test]
fn strip_prefix_gives_the_rest() {
    assert_eq!(strip_prefix("Bearer abc", "Bearer "), Some("abc"));
    assert_eq!(strip_prefix("Bearer ", "Bearer "), Some(""));
    assert_eq!(strip_prefix("Bearer", "Bearer "), None);
    assert_eq!(strip_prefix("bearer abc", "Bearer "), None);
    assert_eq!(strip_prefix("", "Bearer "), None);
    assert_eq!(strip_prefix("anything", ""), Some("anything"));
    assert_eq!(strip_prefix("é-token", "é-"), Some("token"));
}

#[test]
fn strip_prefix_agrees_with_the_standard_one() {
    for text in ["Bearer x", "Bearer", "Bearer  y", " Bearer z", "Bearerz", "Bearer é"] {
        assert_eq!(strip_prefix(text, "Bearer "), text.strip_prefix("Bearer "));
    }
}

#[test]
fn parse_unsigned_reads_plain_numbers() {
    assert_eq!(parse_unsigned("0", u64::MAX), Some(0));
    assert_eq!(parse_unsigned("24", u64::MAX), Some(24));
    assert_eq!(parse_unsigned("+24", u64::MAX), Some(24));
    assert_eq!(parse_unsigned("007", u64::MAX), Some(7));
    assert_eq!(parse_unsigned("18446744073709551615", u64::MAX), Some(u64::MAX));
    assert_eq!(parse_unsigned("65535", 65535), Some(65535));
}

#[test]
fn parse_unsigned_rejects_everything_else() {
    assert_eq!(parse_unsigned("", u64::MAX), None);
    assert_eq!(parse_unsigned("+", u64::MAX), None);
    assert_eq!(parse_unsigned("-1", u64::MAX), None);
    assert_eq!(parse_unsigned("-0", u64::MAX), None);
    assert_eq!(parse_unsigned("++1", u64::MAX), None);
    assert_eq!(parse_unsigned(" 1", u64::MAX), None);
    assert_eq!(parse_unsigned("1 ", u64::MAX), None);
    assert_eq!(parse_unsigned("1a", u64::MAX), None);
    assert_eq!(parse_unsigned("１", u64::MAX), None);
    assert_eq!(parse_unsigned("18446744073709551616", u64::MAX), None);
    assert_eq!(parse_unsigned("99999999999999999999999", u64::MAX), None);
    assert_eq!(parse_unsigned("65536", 65535), None);
    assert_eq!(parse_unsigned("8", 7), None);
}

#[test]
fn parse_unsigned_agrees_with_the_standard_parser() {
    for text in ["0", "+0", "12", "+", "", "-5", "4294967296", "00012", "1_000", "0x10", "٣"] {
        assert_eq!(parse_unsigned(text, u64::MAX), text.parse::<u64>().ok());
        assert_eq!(
            parse_unsigned(text, 65535).map(|v| v as u16),
            text.parse::<u16>().ok()
        );
    }
}
