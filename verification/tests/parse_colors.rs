use buddhabrot::parse::parse_hex_color;

#[test]
fn six_digits_give_three_components() {
    assert_eq!(parse_hex_color("#ff8000"), Some((255, 128, 0)));
    assert_eq!(parse_hex_color("#000000"), Some((0, 0, 0)));
    assert_eq!(parse_hex_color("#FFFFFF"), Some((255, 255, 255)));
    assert_eq!(parse_hex_color("#AbCdEf"), Some((0xab, 0xcd, 0xef)));
}

#[test]
fn a_lone_fifth_digit_is_the_blue_component() {
    assert_eq!(parse_hex_color("#abcde"), Some((0xab, 0xcd, 0xe)));
}

#[test]
fn bytes_after_the_sixth_digit_are_ignored() {
    assert_eq!(parse_hex_color("#ffffffff"), Some((255, 255, 255)));
    assert_eq!(parse_hex_color("#123456zz"), Some((0x12, 0x34, 0x56)));
}

#[test]
fn wrong_shapes_are_rejected() {
    assert_eq!(parse_hex_color(""), None);
    assert_eq!(parse_hex_color("#"), None);
    assert_eq!(parse_hex_color("#abcd"), None);
    assert_eq!(parse_hex_color("ff8000"), None);
    assert_eq!(parse_hex_color("#ff80z0"), None);
    assert_eq!(parse_hex_color("#gggggg"), None);
}
