use tif2tiles::numbers::decimal_text;
use tif2tiles::numbers::parse_u8;
use tif2tiles::numbers::signed_text;
use tif2tiles::text::contains;
use tif2tiles::text::ends_with;
use tif2tiles::text::join_with;
use tif2tiles::text::replace_char;
use tif2tiles::text::same_text;
use tif2tiles::text::split;
use tif2tiles::text::split_on;
use tif2tiles::text::split_whitespace;
use tif2tiles::text::starts_with;
use tif2tiles::text::strip_start;
use tif2tiles::text::take_chars;
use tif2tiles::text::to_ascii_lower;
use tif2tiles::text::to_ascii_upper;
use tif2tiles::text::trim;
use tif2tiles::text::trim_both;
use tif2tiles::text::trim_end;
use tif2tiles::text::trim_start;
use tif2tiles::text::CharClass;
use tif2tiles::upload_context::sanitize_folder_segment;

fn white_space(c: char) -> bool {
    matches!(
        c,
        '\u{9}'..='\u{d}'
            | '\u{20}'
            | '\u{85}'
            | '\u{a0}'
            | '\u{1680}'
            | '\u{2000}'..='\u{200a}'
            | '\u{2028}'
            | '\u{2029}'
            | '\u{202f}'
            | '\u{205f}'
            | '\u{3000}'
    )
}

#[test]
fn white_space_is_the_unicode_property() {
    for c in '\0'..=char::MAX {
        assert_eq!(c.is_whitespace(), white_space(c), "{:?}", c);
    }
    assert_eq!(trim("\u{3000} \t层\u{a0}\n"), "层");
    assert_eq!(trim("\u{200b}x"), "\u{200b}x");
}

#[test]
fn control_codes_are_the_unicode_category() {
    for c in '\0'..=char::MAX {
        let stated = c <= '\u{1f}' || ('\u{7f}'..='\u{9f}').contains(&c);
        assert_eq!(c.is_control(), stated, "{:?}", c);
    }
    assert_eq!(sanitize_folder_segment("a\u{7}b\u{7f}c"), "a_b_c");
}

#[test]
fn trimming_agrees_with_std() {
    for s in ["", " ", "  a b  ", "a", "\t\n", "//a//", "/", "层 "] {
        assert_eq!(trim(s), s.trim());
        assert_eq!(trim_both(s, CharClass::Exactly('/')), s.trim_matches('/'));
        assert_eq!(trim_start(s, CharClass::Exactly('/')), s.trim_start_matches('/'));
        assert_eq!(trim_end(s, CharClass::Exactly('/')), s.trim_end_matches('/'));
    }
}

#[test]
fn searching_agrees_with_std() {
    for s in ["", "abc", "aabaab", "层层图", "..a..", "https://https://x"] {
        for p in ["", "a", "ab", "aab", "层图", "..", "https://", "zz"] {
            assert_eq!(contains(s, p), s.contains(p));
            assert_eq!(starts_with(s, p), s.starts_with(p));
            assert_eq!(ends_with(s, p), s.ends_with(p));
            assert_eq!(same_text(s, p), s == p);
            if !p.is_empty() {
                assert_eq!(strip_start(s, p), s.trim_start_matches(p));
                let parts: Vec<String> = s.split(p).map(|x| x.to_string()).collect();
                assert_eq!(split_on(s, p), parts);
            }
        }
    }
}

#[test]
fn splitting_and_joining_agree_with_std() {
    for s in ["", "/", "a/b", "/a//b/", "无"] {
        let parts: Vec<String> = s.split('/').map(|x| x.to_string()).collect();
        assert_eq!(split(s, CharClass::Exactly('/')), parts);
        assert_eq!(join_with(&parts, "/"), s);
    }
    assert_eq!(split_whitespace("  a\t b\n\nc "), vec!["a", "b", "c"]);
    assert!(split_whitespace(" \n").is_empty());
    assert_eq!(join_with(&vec![], "_"), "");
}

#[test]
fn case_and_replacement_touch_only_what_they_name() {
    assert_eq!(to_ascii_upper("Webp层é"), "WEBP层é");
    assert_eq!(to_ascii_lower("WebP层É"), "webp层É");
    assert_eq!(replace_char("a\\b\\c", '\\', '/'), "a/b/c");
    assert_eq!(take_chars("层图abc", 3), "层图a");
    assert_eq!(take_chars("层", 3), "层");
}

#[test]
fn numbers_in_decimal() {
    assert_eq!(decimal_text(0), "0");
    assert_eq!(decimal_text(u128::MAX), u128::MAX.to_string());
    assert_eq!(decimal_text(1730123456789), "1730123456789");
    for n in [0, 7, -1, i32::MIN, i32::MAX] {
        assert_eq!(signed_text(n), n.to_string());
    }
}

#[test]
fn small_numbers_are_read_as_std_reads_them() {
    for s in ["0", "255", "256", "+7", "-1", "", "+", "007", " 1", "1a", "１"] {
        assert_eq!(parse_u8(s), s.parse::<u8>().ok(), "{:?}", s);
    }
}

#[test]
fn digits_of_a_number_are_read_back() {
    for n in 0..=255u8 {
        assert_eq!(parse_u8(&decimal_text(n as u128)), Some(n));
    }
}
