use royal_api::list::{relative_label, space_run, take_chars};
use royal_api::persist::{parse_ids, render_ids, split_into_lines};
use royal_api::text::{fmt_u64, fmt_usize, parse_u64, parse_usize, split_words, str_is_blank, str_is_number, trim};

#[test]
fn formats_decimals() {
    assert_eq!(fmt_u64(0), "0");
    assert_eq!(fmt_u64(7), "7");
    assert_eq!(fmt_u64(40920), "40920");
    assert_eq!(fmt_u64(u64::MAX), "18446744073709551615");
    assert_eq!(fmt_usize(123456), "123456");
}

#[test]
fn parses_decimals() {
    assert_eq!(parse_u64("0"), Some(0));
    assert_eq!(parse_u64("40920"), Some(40920));
    assert_eq!(parse_u64("18446744073709551615"), Some(u64::MAX));
    assert_eq!(parse_u64("18446744073709551616"), None);
    assert_eq!(parse_u64(""), None);
    assert_eq!(parse_u64("12a"), None);
    assert_eq!(parse_u64("-4"), None);
    assert_eq!(parse_usize("987"), Some(987));
    assert_eq!(parse_usize(" 2"), None);
}

#[test]
fn decimal_round_trip() {
    for n in [0u64, 1, 9, 10, 99, 100, 65535, 1620051721] {
        assert_eq!(parse_u64(&fmt_u64(n)), Some(n));
    }
}

#[test]
fn trims_whitespace() {
    assert_eq!(trim("  hello \n"), "hello");
    assert_eq!(trim("hello"), "hello");
    assert_eq!(trim(" \t\r\n "), "");
    assert_eq!(trim(""), "");
    assert_eq!(trim(" a b "), "a b");
}

#[test]
fn splits_words() {
    assert_eq!(split_words("hello world"), vec!["hello", "world"]);
    assert_eq!(split_words("  a\t b  c \n"), vec!["a", "b", "c"]);
    assert_eq!(split_words(""), Vec::<String>::new());
    assert_eq!(split_words("   "), Vec::<String>::new());
    assert_eq!(split_words("one"), vec!["one"]);
}

#[test]
fn recognizes_blank_and_numeric_text() {
    assert!(str_is_blank(""));
    assert!(str_is_blank(" \t\n\r"));
    assert!(!str_is_blank(" x "));
    assert!(str_is_number("042"));
    assert!(!str_is_number(""));
    assert!(!str_is_number("Enter New Fiction ID"));
    assert!(!str_is_number("12 "));
}

#[test]
fn renders_id_lines() {
    assert_eq!(render_ids(&vec![40920, 12345]), "40920\n12345");
    assert_eq!(render_ids(&vec![7]), "7");
    assert_eq!(render_ids(&vec![]), "");
}

#[test]
fn splits_lines_like_a_split_does() {
    assert_eq!(split_into_lines("a\nb"), vec!["a", "b"]);
    assert_eq!(split_into_lines("a\n"), vec!["a", ""]);
    assert_eq!(split_into_lines(""), vec![""]);
    assert_eq!(split_into_lines("\n"), vec!["", ""]);
}

#[test]
fn parses_id_lines_skipping_bad_ones() {
    assert_eq!(parse_ids("12\nabc\n34"), vec![12, 34]);
    assert_eq!(parse_ids(""), Vec::<usize>::new());
    assert_eq!(parse_ids("40920"), vec![40920]);
    assert_eq!(parse_ids("4\n\n5"), vec![4, 5]);
}

#[test]
fn save_load_round_trip() {
    let ids: Vec<usize> = vec![40920, 1, 998877];
    assert_eq!(parse_ids(&render_ids(&ids)), ids);
    let none: Vec<usize> = vec![];
    assert_eq!(parse_ids(&render_ids(&none)), none);
}

#[test]
fn labels_elapsed_time() {
    assert_eq!(relative_label(0), "0 seconds");
    assert_eq!(relative_label(59), "59 seconds");
    assert_eq!(relative_label(60), "1 minutes");
    assert_eq!(relative_label(3600), "1 hours");
    assert_eq!(relative_label(2 * 86400), "2 days");
    assert_eq!(relative_label(7 * 86400), "1 weeks");
    assert_eq!(relative_label(31 * 86400), "1 months");
    assert_eq!(relative_label(366 * 86400), "1 years");
}

#[test]
fn pads_and_truncates() {
    assert_eq!(space_run(3), "   ");
    assert_eq!(space_run(0), "");
    assert_eq!(take_chars("hello", 2), "he");
    assert_eq!(take_chars("hello", 9), "hello");
    assert_eq!(take_chars("hello", 0), "");
}
