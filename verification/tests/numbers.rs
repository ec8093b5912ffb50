use yt_grab::numbers::{parse_u64, push_decimal, push_decimal2};

fn chars(s: &str) -> Vec<char> {
    s.chars().collect()
}

#[test]
fn decimal_text() {
    let mut v = Vec::new();
    push_decimal(&mut v, 0);
    assert_eq!(v.iter().collect::<String>(), "0");
    let mut w = vec!['x'];
    push_decimal(&mut w, 1234567890);
    assert_eq!(w.iter().collect::<String>(), "x1234567890");
}

#[test]
fn two_digit_text() {
    let mut v = Vec::new();
    push_decimal2(&mut v, 5);
    push_decimal2(&mut v, 42);
    push_decimal2(&mut v, 123);
    assert_eq!(v.iter().collect::<String>(), "0542123");
}

#[test]
fn printed_numbers_read_back() {
    for n in [0u64, 1, 9, 10, 99, 100, 65535, 4294967296, u64::MAX - 1, u64::MAX] {
        let mut v = Vec::new();
        push_decimal(&mut v, n);
        assert_eq!(parse_u64(&v), Some(n));
    }
}

#[test]
fn parse_matches_std_on_edge_cases() {
    for s in ["", "+", "-", "-0", "+0", "00", "1_000", " 1", "1 ", "١", "18446744073709551615", "18446744073709551616", "+18446744073709551615", "12a", "0x10"] {
        assert_eq!(parse_u64(&chars(s)), s.parse::<u64>().ok(), "input {:?}", s);
    }
}
