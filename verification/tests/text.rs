use uzi::text::parse_number;
use uzi::text::push_dec;
use uzi::text::push_each_after;
use uzi::text::push_signed_dec;
use uzi::text::same_text;
use uzi::text::space_char;
use uzi::tokens::TokenStream;

#[test]
fn decimal_numerals() {
    for (n, want) in [
        (0u128, "0"),
        (7, "7"),
        (10, "10"),
        (1234567890, "1234567890"),
        (18446744073709551615, "18446744073709551615"),
        (u128::MAX, "340282366920938463463374607431768211455"),
    ] {
        let mut s = String::new();
        push_dec(&mut s, n);
        assert_eq!(s, want);
    }
    for (n, want) in [(0i64, "0"), (-1, "-1"), (42, "42"), (i64::MIN, "-9223372036854775808"), (i64::MAX, "9223372036854775807")] {
        let mut s = String::from("x");
        push_signed_dec(&mut s, n);
        assert_eq!(s, format!("x{}", want));
    }
}

#[test]
fn numbers_read() {
    assert_eq!(parse_number("0", 10), Some(0));
    assert_eq!(parse_number("10", 10), Some(10));
    assert_eq!(parse_number("11", 10), None);
    assert_eq!(parse_number("0011", 11), Some(11));
    assert_eq!(parse_number("", 10), None);
    assert_eq!(parse_number("-1", 10), None);
    assert_eq!(parse_number("+1", 10), None);
    assert_eq!(parse_number("1a", 10), None);
    assert_eq!(parse_number("18446744073709551615", u64::MAX), Some(u64::MAX));
    assert_eq!(parse_number("18446744073709551616", u64::MAX), None);
    assert_eq!(parse_number("99999999999999999999999", u64::MAX), None);
    assert_eq!(parse_number("65535", 65535), Some(65535));
    assert_eq!(parse_number("65536", 65535), None);
}

#[test]
fn texts_compare() {
    assert!(same_text("go", "go"));
    assert!(!same_text("go", "gо"));
    assert!(!same_text("go", "goo"));
    assert!(same_text("", ""));
    assert!(space_char(' ') && space_char('\t') && space_char('\n') && space_char('\r'));
    assert!(!space_char('a') && !space_char('\u{a0}'));
}

#[test]
fn items_behind_a_separator() {
    let mut s = String::from("a");
    push_each_after(&mut s, ", ", &vec!["b".to_string(), "c".to_string()]);
    assert_eq!(s, "a, b, c");
    push_each_after(&mut s, ", ", &vec![]);
    assert_eq!(s, "a, b, c");
}

#[test]
fn stream_hands_out_tokens_once() {
    let mut ts = TokenStream::new("  go \t depth   12  ");
    assert_eq!(ts.next_token(), Some("go"));
    assert_eq!(ts.next_span(), Some((7, 12)));
    assert_eq!(ts.slice(7, 12), "depth");
    assert_eq!(ts.next_token(), Some("12"));
    assert_eq!(ts.next_token(), None);
    assert_eq!(ts.next_token(), None);
    assert_eq!(ts.remainder(), "");
}

#[test]
fn stream_remainder_is_verbatim() {
    let mut ts = TokenStream::new("info string  hello   wörld  again ");
    assert_eq!(ts.remainder(), "info string  hello   wörld  again ");
    assert_eq!(ts.next_token(), Some("info"));
    assert_eq!(ts.next_token(), Some("string"));
    assert_eq!(ts.remainder(), "hello   wörld  again ");
    assert_eq!(ts.remainder(), "hello   wörld  again ");
    assert_eq!(ts.next_token(), Some("hello"));
    assert_eq!(ts.rest_tokens(), vec!["wörld", "again"]);
    assert_eq!(ts.remainder(), "");
}

#[test]
fn stream_of_nothing() {
    assert_eq!(TokenStream::new("").next_token(), None);
    assert_eq!(TokenStream::new(" \t ").next_span(), None);
    assert_eq!(TokenStream::new("   ").rest_tokens(), Vec::<&str>::new());
}
