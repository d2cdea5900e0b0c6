use loveletter::text::{int_text, nat_text, parse_usize};

#[test]
fn decimal_of_naturals() {
    assert_eq!(nat_text(0), "0");
    assert_eq!(nat_text(7), "7");
    assert_eq!(nat_text(10), "10");
    assert_eq!(nat_text(1234567890), "1234567890");
    assert_eq!(nat_text(u64::MAX), "18446744073709551615");
}

#[test]
fn decimal_of_integers() {
    assert_eq!(int_text(0), "0");
    assert_eq!(int_text(42), "42");
    assert_eq!(int_text(-42), "-42");
    assert_eq!(int_text(i64::MIN), "-9223372036854775808");
}

#[test]
fn parse_accepts_what_the_standard_parser_accepts() {
    for s in ["0", "1", "2", "+7", "007", "18446744073709551615", "123"] {
        assert_eq!(parse_usize(s), s.parse::<usize>().ok(), "{}", s);
    }
}

#[test]
fn parse_refuses_what_the_standard_parser_refuses() {
    for s in ["", "+", "-", "-1", " 1", "1 ", "1\n", "a", "1a", "++1", "18446744073709551616", "٣"] {
        assert_eq!(parse_usize(s), None, "{:?}", s);
        assert_eq!(s.parse::<usize>().ok(), None, "{:?}", s);
    }
}

#[test]
fn printed_numbers_read_back() {
    for n in [0u64, 1, 9, 10, 99, 100, 65535, 4294967296] {
        assert_eq!(parse_usize(&nat_text(n)), Some(n as usize));
    }
}
