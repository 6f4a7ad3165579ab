use rustconn::clock::{elapsed_seconds, Timestamp};
use rustconn::drawing::{choose_drawing, Drawing, Frame};
use rustconn::icon_render::{theme_has_icon, theme_icon_or};
use rustconn::scrub::SecretText;
use rustconn::sorting::{sort_entries, text_before};
use rustconn::text::{
    contains, decimal, find, first_and_last, lines, replace_char, same, signed_decimal,
    starts_with, strip_prefix, trim, trim_char, trim_end, trim_start, until_char, whitespace,
    words,
};

#[test]
fn spaces_are_those_of_unicode() {
    for code in 0..=0x10FFFF_u32 {
        if let Some(c) = char::from_u32(code) {
            assert_eq!(whitespace(c), c.is_whitespace(), "{code:x}");
        }
    }
}

#[test]
fn text_is_taken_apart_like_std_does() {
    for s in [
        "",
        " ",
        "a",
        " a b ",
        "\ta\r\n\u{a0}",
        "one\ntwo\r\nthree",
        "\n\n",
        "x\ry",
        "\u{2003}é ü\n",
        "end\r",
    ] {
        assert_eq!(trim(s), s.trim());
        assert_eq!(trim_start(s), s.trim_start());
        assert_eq!(trim_end(s), s.trim_end());
        assert_eq!(lines(s), s.lines().collect::<Vec<_>>());
        assert_eq!(words(s), s.split_whitespace().collect::<Vec<_>>());
        assert_eq!(replace_char(s, 'a', '_'), s.replace('a', "_"));
        assert_eq!(trim_char(s, '\n'), s.trim_matches('\n'));
        assert_eq!(until_char(s, ' '), s.split(' ').next().unwrap());
        for p in ["", "a", "wo", "\n"] {
            assert_eq!(contains(s, p), s.contains(p));
            assert_eq!(starts_with(s, p), s.starts_with(p));
            assert_eq!(strip_prefix(s, p), s.strip_prefix(p));
        }
    }
    assert_eq!(find("éab", "ab"), Some(1));
    assert_eq!(find("ab", "abc"), None);
    assert_eq!(first_and_last("a\"b\"c\"", '"'), Some((1, 5)));
    assert_eq!(first_and_last("abc", '"'), None);
    assert!(same("é", "é") && !same("e", "é"));
}

#[test]
fn numbers_are_written_in_decimal() {
    for n in [0, 9, 10, 99, 100, u64::MAX] {
        assert_eq!(decimal(n), n.to_string());
    }
    for n in [0, -1, 42, i32::MIN, i32::MAX] {
        assert_eq!(signed_decimal(n), n.to_string());
    }
}

#[test]
fn entries_are_sorted_by_label_and_note() {
    let entry = |a: &str, b: &str| (a.to_string(), b.to_string());
    let sorted =
        sort_entries(&vec![entry("b", "1"), entry("a", "2"), entry("ab", ""), entry("a", "1")]);
    assert_eq!(sorted, vec![entry("a", "1"), entry("a", "2"), entry("ab", ""), entry("b", "1")]);
    assert!(text_before("a", "ab") && !text_before("b", "ab") && text_before("x", "x"));
}

#[test]
fn seconds_are_whole_and_never_negative() {
    let at = |secs, nanos| Timestamp { secs, nanos };
    assert_eq!(elapsed_seconds(at(10, 0), at(8, 1)), 1);
    assert_eq!(elapsed_seconds(at(10, 5), at(8, 5)), 2);
    assert_eq!(elapsed_seconds(at(8, 0), at(10, 0)), 0);
    assert_eq!(elapsed_seconds(at(-1, 0), at(-3, 0)), 2);
}

#[test]
fn a_secret_is_lent_as_it_was_kept() {
    assert_eq!(SecretText::new("pässword").expose(), "pässword");
    assert_eq!(SecretText::new("").expose(), "");
}

#[test]
fn an_icon_is_swapped_only_where_the_theme_lacks_it() {
    assert!(theme_has_icon(None) && theme_has_icon(Some(true)) && !theme_has_icon(Some(false)));
    assert_eq!(theme_icon_or("a", "b", Some(false)), "b");
    assert_eq!(theme_icon_or("a", "b", Some(true)), "a");
    assert_eq!(theme_icon_or("a", "b", None), "a");
}

#[test]
fn an_old_picture_is_washed_out() {
    let live = Frame {
        embedded: true,
        connected: true,
        width: 2,
        height: 1,
        has_data: true,
        has_surface: true,
        stale: false,
    };
    assert_eq!(choose_drawing(live), Drawing::Picture { washed_out: false });
    assert_eq!(
        choose_drawing(Frame { stale: true, ..live }),
        Drawing::Picture { washed_out: true }
    );
    assert_eq!(choose_drawing(Frame { has_surface: false, ..live }), Drawing::Unchanged);
    for frame in [
        Frame { embedded: false, ..live },
        Frame { connected: false, ..live },
        Frame { width: 0, ..live },
        Frame { height: 0, ..live },
        Frame { has_data: false, ..live },
    ] {
        assert_eq!(choose_drawing(frame), Drawing::Status);
    }
}
