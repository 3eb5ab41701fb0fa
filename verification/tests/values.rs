use tcl_runtime::code::{parse_completion_int, Code, Numeral};
use tcl_runtime::number::{
    decimal_i64, decimal_u64, decimal_usize, opt_int, parse_i64, parse_limit_int,
    parse_recursion_limit, trim_bytes, Parsed,
};
use tcl_runtime::state::Interp;
use tcl_runtime::value_ops::{
    as_bool, as_int, bytes_to_str, int_add, str_to_bytes, string_compare_length, try_append_bytes_in_place,
    try_list_append_in_place, Addend, ValueError, WideCharacter,
};

/// An arbitrary invalid UTF-8 string gets one character per byte, not the
/// replacement character.
#[test]
fn bytes_to_str_falls_back_on_invalid_utf8() {
    let s = bytes_to_str(&[0x41, 0xFF, 0x42]);
    assert_eq!(s.chars().count(), 3);
    assert_eq!(s.chars().nth(1), Some('\u{00ff}'));
}

/// Genuine UTF-8 keeps its characters.
#[test]
fn bytes_to_str_preserves_valid_utf8() {
    let s = bytes_to_str("café".as_bytes());
    assert_eq!(&*s, "café");
    assert_eq!(s.chars().count(), 4);
    assert_eq!(s.chars().nth(3), Some('\u{00e9}'));
}

#[test]
fn str_to_bytes_keeps_unicode_string_representation() {
    assert_eq!(str_to_bytes("A\u{00ff}B"), "A\u{00ff}B".as_bytes());
}

#[test]
fn str_to_bytes_keeps_utf8_for_real_latin1_text() {
    assert_eq!(str_to_bytes("café"), "café".as_bytes());
}

#[test]
fn str_to_bytes_keeps_utf8_for_wide_chars() {
    assert_eq!(str_to_bytes("a\u{65e5}b"), "a\u{65e5}b".as_bytes().to_vec());
}

#[test]
fn every_byte_has_its_character() {
    let all: Vec<u8> = (0..=255u8).rev().collect();
    let s = bytes_to_str(&all);
    let back: Vec<u32> = s.chars().map(|c| c as u32).collect();
    let want: Vec<u32> = all.iter().map(|b| u32::from(*b)).collect();
    assert_eq!(back, want);
}

#[test]
fn strings_survive_the_way_to_bytes_and_back() {
    for s in ["", "plain", "caf\u{e9}", "\u{65e5}\u{672c}\u{8a9e}", "\u{10ffff}"] {
        assert_eq!(bytes_to_str(&str_to_bytes(s)), s);
    }
}

#[test]
fn integer_coercions() {
    assert!(matches!(as_int(Some(Numeral::Int(-3)), " -3 "), Ok(-3)));
    assert!(matches!(as_int(Some(Numeral::Big), "9e99"), Err(ValueError::NotInteger(t)) if t == "9e99"));
    assert!(matches!(as_bool(Some(true), "tru"), Ok(true)));
    assert!(matches!(as_bool(None, "o"), Err(ValueError::NotBoolean(t)) if t == "o"));
    assert!(matches!(as_int(None, "abc"), Err(ValueError::NotInteger(t)) if t == "abc"));
    assert!(matches!(string_compare_length(Some(Numeral::Int(5)), "5"), Ok(Some(5))));
    assert!(matches!(string_compare_length(Some(Numeral::Int(-1)), "-1"), Ok(None)));
    assert!(matches!(
        string_compare_length(Some(Numeral::Big), "99999999999999999999"),
        Err(ValueError::IntegerOverflow)
    ));
    assert!(matches!(
        string_compare_length(Some(Numeral::Double), "1.5"),
        Err(ValueError::NotInteger(t)) if t == "1.5"
    ));
}

fn addend(is_integer: bool, text: &str) -> Addend {
    Addend { is_integer, text: text.to_string() }
}

#[test]
fn adding_reads_the_current_value_first() {
    let bad = Some(addend(false, "x"));
    assert!(matches!(
        int_add(&bad, &addend(false, "y"), None),
        Err(ValueError::NotInteger(t)) if t == "x"
    ));
    assert!(matches!(
        int_add(&None, &addend(false, "y"), None),
        Err(ValueError::NotInteger(t)) if t == "y"
    ));
    assert!(matches!(
        int_add(&None, &addend(true, "1"), Some(b"1".to_vec())),
        Ok(v) if v == b"1"
    ));
    assert!(matches!(
        int_add(&Some(addend(true, "1")), &addend(true, "1"), None),
        Err(ValueError::IntegerOverflow)
    ));
}

#[test]
fn appending_in_place_needs_an_unshared_value() {
    let mut v = b"ab".to_vec();
    assert!(try_append_bytes_in_place(true, false, &mut v, b"cd"));
    assert_eq!(v, b"abcd");
    assert!(!try_append_bytes_in_place(true, true, &mut v, b"e"));
    assert!(!try_append_bytes_in_place(false, false, &mut v, b"e"));
    assert_eq!(v, b"abcd");

    let mut list = Some(vec![b"a".to_vec()]);
    assert!(try_list_append_in_place(false, &mut list, b"b"));
    assert_eq!(list, Some(vec![b"a".to_vec(), b"b".to_vec()]));
    assert!(!try_list_append_in_place(true, &mut list, b"c"));
    let mut none: Option<Vec<Vec<u8>>> = None;
    assert!(!try_list_append_in_place(false, &mut none, b"c"));
}

#[test]
fn a_wide_character_is_no_byte() {
    let mut i = Interp::new();
    let r = i.binary_bytes(Err(WideCharacter { byte_offset: 1, code_point: 0x178 }));
    assert_eq!(r, Err(Code::Error));
    assert_eq!(
        i.result_bytes(),
        b"expected code point values below 0xff but value at byte offset 1 was 0x178"
    );
    assert_eq!(i.error_code(), b"TCL VALUE BYTES");
    assert_eq!(i.binary_bytes(Ok(vec![0x41, 0xff, 0x42])), Ok(vec![0x41, 0xff, 0x42]));
}

#[test]
fn completion_codes_are_reduced_to_an_int() {
    let int = |n: i64| Some(Numeral::Int(n));
    assert_eq!(parse_completion_int(b"42", int(42)), Some(42));
    assert_eq!(parse_completion_int(b"+42", int(42)), Some(42));
    assert_eq!(parse_completion_int(b"-7", int(-7)), Some(-7));
    assert_eq!(parse_completion_int(b" 7 ", int(7)), Some(7));
    assert_eq!(parse_completion_int(b"0x1f", int(31)), Some(31));
    assert_eq!(parse_completion_int(b"-2147483648", int(-2147483648)), Some(i32::MIN));
    assert_eq!(parse_completion_int(b"0xFFFFFFFF", int(0xFFFF_FFFF)), Some(-1));
    assert_eq!(parse_completion_int(b"2147483648", int(2147483648)), Some(i32::MIN));
    assert_eq!(parse_completion_int(b"4294967296", int(4294967296)), None);
    assert_eq!(parse_completion_int(b"-2147483649", int(-2147483649)), None);
    assert_eq!(parse_completion_int(b"1.5", Some(Numeral::Double)), None);
    assert_eq!(parse_completion_int(b"99999999999999999999", Some(Numeral::Big)), None);
    assert_eq!(parse_completion_int(b"abc", None), None);
    assert_eq!(parse_completion_int(b"", None), None);
    // What is no text is no number.
    assert_eq!(parse_completion_int(b"7\xff", int(7)), None);
}

#[test]
fn codes_and_their_numbers() {
    for n in [-1, 0, 1, 2, 3, 4, 5, 37, i32::MAX, i32::MIN] {
        assert_eq!(Code::from_int(n).as_int(), i64::from(n));
    }
    assert_eq!(Code::from_int(2), Code::Return);
    assert_eq!(Code::from_int(37), Code::Other(37));
}

#[test]
fn integers_are_written_and_read() {
    assert_eq!(decimal_i64(i64::MIN), b"-9223372036854775808");
    assert_eq!(decimal_u64(u64::MAX), b"18446744073709551615");
    assert_eq!(decimal_usize(0), b"0");
    assert!(matches!(parse_i64(b"-9223372036854775808"), Parsed::Int(i64::MIN)));
    assert!(matches!(parse_i64(b"9223372036854775808"), Parsed::TooLarge));
    assert!(matches!(parse_i64(b"+5"), Parsed::Int(5)));
    assert!(matches!(parse_i64(b"--5"), Parsed::NotInteger));
    assert!(matches!(parse_i64(b""), Parsed::NotInteger));
    assert!(matches!(parse_i64(b"12x"), Parsed::NotInteger));
    assert_eq!(opt_int(None), b"");
    assert_eq!(opt_int(Some(-1)), b"-1");
}

#[test]
fn white_space_is_trimmed() {
    assert_eq!(trim_bytes(b" \t7\n "), Some(b"7".to_vec()));
    assert_eq!(trim_bytes("\u{a0}\u{3000}x y\u{2028}".as_bytes()), Some(b"x y".to_vec()));
    assert_eq!(trim_bytes(b"  "), Some(b"".to_vec()));
    assert_eq!(trim_bytes(&[0xff, b' ']), None);
}

#[test]
fn limits_are_integers() {
    assert_eq!(parse_limit_int(b" 12 "), Ok(12));
    assert_eq!(parse_limit_int(b"x"), Err(b"expected integer but got \"x\"".to_vec()));
    assert_eq!(parse_recursion_limit(b"250"), Ok(250));
    assert_eq!(
        parse_recursion_limit(b"abc"),
        Err(b"expected integer but got \"abc\"".to_vec())
    );
    assert_eq!(
        parse_recursion_limit(b"99999999999999999999"),
        Err(b"integer value too large to represent".to_vec())
    );
}
