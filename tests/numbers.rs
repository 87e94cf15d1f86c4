use mail_capture::num::{parse_decimal, push_decimal};

fn chars(s: &str) -> Vec<char> {
    s.chars().collect()
}

#[test]
fn decimal_values() {
    assert_eq!(parse_decimal(&chars("0")), Some(0));
    assert_eq!(parse_decimal(&chars("10")), Some(10));
    assert_eq!(parse_decimal(&chars("+5")), Some(5));
    assert_eq!(parse_decimal(&chars("007")), Some(7));
    assert_eq!(parse_decimal(&chars(&usize::MAX.to_string())), Some(usize::MAX));
}

#[test]
fn decimal_rejections() {
    assert_eq!(parse_decimal(&chars("")), None);
    assert_eq!(parse_decimal(&chars("+")), None);
    assert_eq!(parse_decimal(&chars("-1")), None);
    assert_eq!(parse_decimal(&chars("1a")), None);
    assert_eq!(parse_decimal(&chars(" 1")), None);
    assert_eq!(parse_decimal(&chars("99999999999999999999999")), None);
}

#[test]
fn decimal_digits() {
    let mut out = b"n=".to_vec();
    push_decimal(0, &mut out);
    assert_eq!(out, b"n=0".to_vec());
    let mut out = Vec::new();
    push_decimal(1234, &mut out);
    assert_eq!(out, b"1234".to_vec());
}
