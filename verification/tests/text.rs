use codes_parser::text::{chars_of, decimal, join, str_eq, to_one_line};

#[test]
fn numbers_are_written_in_base_ten() {
    assert_eq!("0", decimal(0));
    assert_eq!("7", decimal(7));
    assert_eq!("10", decimal(10));
    assert_eq!("255", decimal(255));
    assert_eq!("1000000", decimal(1_000_000));
    assert_eq!("4294967295", decimal(4294967295));
    assert_eq!("18446744073709551615", decimal(u64::MAX));
}

#[test]
fn parts_are_joined_with_the_separator_between_them() {
    let parts = vec!["a".to_string(), "".to_string(), "bc".to_string()];
    assert_eq!("a, , bc", join(&parts, ", "));
    assert_eq!("abc", join(&parts, ""));
    assert_eq!("only", join(&vec!["only".to_string()], "--"));
    assert_eq!("", join(&Vec::new(), "--"));
}

#[test]
fn texts_are_equal_when_their_characters_are() {
    assert!(str_eq("", ""));
    assert!(str_eq("uint8", "uint8"));
    assert!(!str_eq("uint8", "uint16"));
    assert!(!str_eq("uint8", "uint9"));
    assert!(!str_eq("a", ""));
    assert!(str_eq("\u{e9}\u{20ac}", "\u{e9}\u{20ac}"));
    assert!(!str_eq("\u{e9}", "e"));
}

#[test]
fn a_text_is_its_characters() {
    assert_eq!(vec!['a', '\u{e9}', '\u{20ac}', '\n'], chars_of("a\u{e9}\u{20ac}\n"));
    assert_eq!(Vec::<char>::new(), chars_of(""));
}

#[test]
fn line_breaks_become_blanks() {
    assert_eq!("", to_one_line(""));
    assert_eq!("one line", to_one_line("one line"));
    assert_eq!("two lines", to_one_line("two\nlines"));
    assert_eq!(" a  b  ", to_one_line("\na\r\nb\r\n"));
    assert_eq!("\u{e9}t\u{e9} \u{20ac}", to_one_line("\u{e9}t\u{e9}\n\u{20ac}"));
    assert_eq!("   ", to_one_line("\n\r\n"));
}
