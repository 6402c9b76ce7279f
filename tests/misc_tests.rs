use rparse::c99::{escape_to_char, is_hex, is_identifier_prefix, is_identifier_suffix, is_octal};
use rparse::chars::{is_alpha, is_alphanum, is_digit, is_print, is_whitespace, lower_char};
use rparse::driver::{chars_with_eot, get_col};
use rparse::numbers::{from_base_10, from_base_16, from_base_8};
use rparse::text::{at_connect, munge_chars, repeat_char};

#[test]
fn character_classes() {
    assert!(is_alpha('a') && is_alpha('Z') && !is_alpha('1') && !is_alpha('_'));
    assert!(is_digit('0') && is_digit('9') && !is_digit('a'));
    assert!(is_alphanum('q') && is_alphanum('7') && !is_alphanum('-'));
    assert!(is_print(' ') && is_print('~') && !is_print('\n') && !is_print('\u{7f}'));
    assert!(is_whitespace('\t') && is_whitespace('\r') && !is_whitespace('x'));
    assert!(is_identifier_prefix('_') && !is_identifier_prefix('1'));
    assert!(is_identifier_suffix('1') && !is_identifier_suffix('$'));
    assert!(is_octal('7') && !is_octal('8'));
    assert!(is_hex('f') && is_hex('F') && !is_hex('g'));
}

#[test]
fn lower_char_folds_ascii_only() {
    assert_eq!(lower_char('A'), 'a');
    assert_eq!(lower_char('Z'), 'z');
    assert_eq!(lower_char('q'), 'q');
    assert_eq!(lower_char('É'), 'É');
}

#[test]
fn escapes() {
    assert_eq!(escape_to_char('n'), '\n');
    assert_eq!(escape_to_char('t'), '\t');
    assert_eq!(escape_to_char('a'), '\u{7}');
    assert_eq!(escape_to_char('\\'), '\\');
}

#[test]
fn numbers_in_bases() {
    assert_eq!(from_base_8(&"17".to_string()).ok(), Some(15));
    assert_eq!(from_base_16(&"fF".to_string()).ok(), Some(255));
    assert_eq!(from_base_10(&"9223372036854775807".to_string()).ok(), Some(i64::MAX));
    assert_eq!(from_base_10(&"9223372036854775808".to_string()).err(), Some("'9223372036854775808' is out of range".to_string()));
    assert_eq!(from_base_16(&"10000000000000000".to_string()).err(), Some("Hex number is too large".to_string()));
    assert_eq!(from_base_8(&"0000000000000000000000001".to_string()).ok(), Some(1));
}

#[test]
fn text_helpers() {
    assert_eq!(chars_with_eot("ab"), vec!['a', 'b', '\u{3}']);
    assert_eq!(munge_chars(&vec!['a', '\n', 'b', '\u{3}']), "a.b.");
    assert_eq!(repeat_char('-', 3), "---");
    assert_eq!(repeat_char('-', 0), "");
    let parts = vec!["a".to_string(), "b".to_string(), "c".to_string()];
    assert_eq!(at_connect(&parts, " or "), "a or b or c");
    assert_eq!(at_connect(&vec![], ", "), "");
}

#[test]
fn columns() {
    let text = chars_with_eot("ab\ncde\r\nfg");
    assert_eq!(get_col(&text, 0), 1);
    assert_eq!(get_col(&text, 1), 2);
    assert_eq!(get_col(&text, 3), 1);
    assert_eq!(get_col(&text, 5), 3);
    assert_eq!(get_col(&text, 9), 2);
}
