use dl_api::text::blank;
use dl_api::text::chars_of;
use dl_api::text::cut;
use dl_api::text::hits;
use dl_api::text::join_text;
use dl_api::text::keep_nonempty;
use dl_api::text::part;
use dl_api::text::same_text;
use dl_api::text::scan;
use dl_api::text::split_words;
use dl_api::text::string_of;
use dl_api::text::text_of;
use dl_api::text::to_decimal;
use dl_api::text::to_lower;
use dl_api::text::to_signed_decimal;
use dl_api::text::to_upper;

fn v(text: &str) -> Vec<char> {
    text.chars().collect()
}

fn vs(texts: &[&str]) -> Vec<Vec<char>> {
    texts.iter().map(|t| v(t)).collect()
}

#[test]
fn takes_strings_apart_and_puts_them_together() {
    assert_eq!(chars_of("aé\u{1F600}z"), vec!['a', 'é', '\u{1F600}', 'z']);
    assert_eq!(chars_of(""), Vec::<char>::new());
    assert_eq!(text_of(&v("aé\u{1F600}z")), "aé\u{1F600}z");
    assert_eq!(string_of(&v("hello"), 1, 4), "ell");
    assert_eq!(string_of(&v("hello"), 5, 5), "");
    assert_eq!(part(&v("hello"), 0, 2), v("he"));
}

#[test]
fn compares_strings() {
    assert!(same_text("abc", "abc"));
    assert!(same_text("", ""));
    assert!(!same_text("abc", "abd"));
    assert!(!same_text("abc", "ab"));
}

#[test]
fn knows_ascii_whitespace() {
    for c in [' ', '\t', '\n', '\u{0C}', '\r'] {
        assert!(blank(c));
    }
    for c in ['a', '\u{0B}', '\u{A0}', '\u{2003}', '0', '_'] {
        assert!(!blank(c));
    }
}

#[test]
fn scans_to_the_next_stop() {
    let stops = vec![',', ';'];
    assert!(hits(&stops, ';'));
    assert!(!hits(&stops, ':'));
    assert!(!hits(&vec![], ','));
    assert_eq!(scan(&v("ab,cd;e"), 0, &stops), 2);
    assert_eq!(scan(&v("ab,cd;e"), 2, &stops), 2);
    assert_eq!(scan(&v("ab,cd;e"), 3, &stops), 5);
    assert_eq!(scan(&v("ab,cd;e"), 6, &stops), 7);
    assert_eq!(scan(&v("ab,cd;e"), 7, &stops), 7);
}

#[test]
fn cuts_at_every_stop() {
    let comma = vec![','];
    assert_eq!(cut(&v("a,b,,c"), &comma), vs(&["a", "b", "", "c"]));
    assert_eq!(cut(&v(""), &comma), vs(&[""]));
    assert_eq!(cut(&v(","), &comma), vs(&["", ""]));
    assert_eq!(cut(&v("abc"), &comma), vs(&["abc"]));
    assert_eq!(cut(&v("a,b,"), &comma), vs(&["a", "b", ""]));
}

#[test]
fn splits_into_words() {
    assert_eq!(keep_nonempty(vs(&["", "a", "", "", "bc", ""])), vs(&["a", "bc"]));
    assert_eq!(split_words(&v("  unsigned\tlong \n int ")), vs(&["unsigned", "long", "int"]));
    assert_eq!(split_words(&v("")), vs(&[]));
    assert_eq!(split_words(&v(" \r\n")), vs(&[]));
    assert_eq!(split_words(&v("a\u{A0}b")), vs(&["a\u{A0}b"]));
}

#[test]
fn joins_with_a_separator() {
    let parts = vs(&["unsigned", "long", "int"]);
    assert_eq!(join_text(&parts, 3, " "), "unsigned long int");
    assert_eq!(join_text(&parts, 2, ", "), "unsigned, long");
    assert_eq!(join_text(&parts, 1, " "), "unsigned");
    assert_eq!(join_text(&parts, 0, " "), "");
}

#[test]
fn changes_the_case_of_ascii_letters() {
    assert_eq!(to_upper("glGetError_2"), "GLGETERROR_2");
    assert_eq!(to_lower("glGetError_2"), "glgeterror_2");
    assert_eq!(to_upper("az{`é"), "AZ{`é");
    assert_eq!(to_lower("AZ[@É"), "az[@É");
    assert_eq!(to_upper(""), "");
}

#[test]
fn writes_numbers_in_decimal() {
    assert_eq!(to_decimal(0), "0");
    assert_eq!(to_decimal(9), "9");
    assert_eq!(to_decimal(10), "10");
    assert_eq!(to_decimal(1234567890), "1234567890");
    assert_eq!(to_decimal(u64::MAX), "18446744073709551615");
    assert_eq!(to_signed_decimal(0), "0");
    assert_eq!(to_signed_decimal(-1), "-1");
    assert_eq!(to_signed_decimal(42), "42");
    assert_eq!(to_signed_decimal(i32::MAX), "2147483647");
    assert_eq!(to_signed_decimal(i32::MIN), "-2147483648");
}
