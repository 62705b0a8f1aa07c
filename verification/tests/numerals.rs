use agama_network::text::{
    chars_eq, clone_strings, decimal_digit_of, digit_str, hex_digit_of, parse_decimal,
    parse_hex_group, push_decimal, push_hex, split_fields, str_eq, to_chars,
};

fn chars(s: &str) -> Vec<char> {
    s.chars().collect()
}

#[test]
fn digits_are_read_by_their_value() {
    assert_eq!(decimal_digit_of('0'), Some(0));
    assert_eq!(decimal_digit_of('9'), Some(9));
    assert_eq!(decimal_digit_of('a'), None);
    assert_eq!(decimal_digit_of('/'), None);
    assert_eq!(decimal_digit_of(':'), None);
    assert_eq!(hex_digit_of('a'), Some(10));
    assert_eq!(hex_digit_of('F'), Some(15));
    assert_eq!(hex_digit_of('7'), Some(7));
    assert_eq!(hex_digit_of('g'), None);
    assert_eq!(hex_digit_of('G'), None);
    assert_eq!(hex_digit_of('@'), None);
    assert_eq!(hex_digit_of('`'), None);
    for d in 0..16u8 {
        let c = digit_str(d).chars().next().unwrap();
        assert_eq!(hex_digit_of(c), Some(d));
    }
}

#[test]
fn decimal_numerals_up_to_the_limit() {
    assert_eq!(parse_decimal(&chars("0")), Some(0));
    assert_eq!(parse_decimal(&chars("24")), Some(24));
    assert_eq!(parse_decimal(&chars("0000000000000000000000024")), Some(24));
    assert_eq!(parse_decimal(&chars("4294967295")), Some(4294967295));
    assert_eq!(parse_decimal(&chars("4294967296")), None);
    assert_eq!(parse_decimal(&chars("4294967300")), None);
    assert_eq!(parse_decimal(&chars("99999999999999999999")), None);
    assert_eq!(parse_decimal(&chars("")), None);
    assert_eq!(parse_decimal(&chars("12a")), None);
    assert_eq!(parse_decimal(&chars("-1")), None);
}

#[test]
fn hex_groups_of_one_to_four_digits() {
    assert_eq!(parse_hex_group(&chars("0")), Some(0));
    assert_eq!(parse_hex_group(&chars("ffff")), Some(0xffff));
    assert_eq!(parse_hex_group(&chars("FfFf")), Some(0xffff));
    assert_eq!(parse_hex_group(&chars("0db8")), Some(0xdb8));
    assert_eq!(parse_hex_group(&chars("")), None);
    assert_eq!(parse_hex_group(&chars("00000")), None);
    assert_eq!(parse_hex_group(&chars("12g")), None);
}

#[test]
fn numerals_are_written_without_leading_zeros() {
    let mut out = String::from("n=");
    push_decimal(&mut out, 0);
    push_decimal(&mut out, 4294967295);
    push_decimal(&mut out, 1050);
    assert_eq!(out, "n=042949672951050");
    let mut out = String::new();
    push_hex(&mut out, 0);
    push_hex(&mut out, 0xffff);
    push_hex(&mut out, 0x0a0);
    assert_eq!(out, "0ffffa0");
}

#[test]
fn splitting_keeps_empty_fields() {
    let fields = |s: &str| -> Vec<String> {
        split_fields(&chars(s), ':').into_iter().map(|f| f.into_iter().collect()).collect()
    };
    assert_eq!(fields(""), vec![""]);
    assert_eq!(fields("a"), vec!["a"]);
    assert_eq!(fields("a:b"), vec!["a", "b"]);
    assert_eq!(fields("::"), vec!["", "", ""]);
    assert_eq!(fields("a::b:"), vec!["a", "", "b", ""]);
}

#[test]
fn strings_compare_by_their_characters() {
    assert!(str_eq("auto", "auto"));
    assert!(!str_eq("auto", "Auto"));
    assert!(!str_eq("auto", "aut"));
    assert!(str_eq("", ""));
    assert!(chars_eq(&chars("é"), &chars("é")));
    assert_eq!(to_chars("a/é"), vec!['a', '/', 'é']);
    let list = vec!["x".to_string(), "".to_string(), "yz".to_string()];
    assert_eq!(clone_strings(&list), list);
}
