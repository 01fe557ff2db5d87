use audio_friend::text::{
    chars_of, decimal_text, is_blank_text, is_whitespace, join2, join3, parse_whole_number,
    same_text, string_of,
};

#[test]
fn strings_and_characters_convert_both_ways() {
    for s in ["", "a", "Gr\u{fc}\u{df}e", "\u{1f399} mic", "tab\tnewline\n"] {
        let chars = chars_of(s);
        assert_eq!(chars, s.chars().collect::<Vec<char>>());
        assert_eq!(string_of(&chars), s);
    }
}

#[test]
fn texts_are_compared_by_content() {
    assert!(same_text("", ""));
    assert!(same_text("clip", "clip"));
    assert!(!same_text("clip", "Clip"));
    assert!(!same_text("clip", "clips"));
    assert!(!same_text("clips", "clip"));
}

#[test]
fn texts_are_joined_in_order() {
    assert_eq!(join2("Error: ", "no device"), "Error: no device");
    assert_eq!(join2("", ""), "");
    assert_eq!(join3("Opening ", "a.wav", "..."), "Opening a.wav...");
}

#[test]
fn numbers_are_written_in_decimal() {
    for n in [0u64, 1, 9, 10, 99, 100, 1024, 48_000, u32::MAX as u64, u64::MAX] {
        assert_eq!(decimal_text(n), n.to_string());
    }
}

#[test]
fn whole_numbers_are_read_as_std_reads_them() {
    let texts = [
        "", "+", "-", "0", "3", "10", "+7", "++7", "-1", "007", " 3", "3 ", "1.5", "1e3", "abc",
        "12a", "\u{0663}", "4294967295", "4294967296", "18446744073709551615",
        "18446744073709551616", "00018446744073709551615", "99999999999999999999999",
    ];
    for text in texts {
        assert_eq!(parse_whole_number(text, u64::MAX), text.parse::<u64>().ok(), "{text:?}");
        assert_eq!(
            parse_whole_number(text, usize::MAX as u64),
            text.parse::<usize>().ok().map(|n| n as u64),
            "{text:?}"
        );
        assert_eq!(
            parse_whole_number(text, u32::MAX as u64),
            text.parse::<u32>().ok().map(|n| n as u64),
            "{text:?}"
        );
    }
    for n in 0..=300u64 {
        let text = n.to_string();
        assert_eq!(parse_whole_number(&text, 255), if n <= 255 { Some(n) } else { None });
    }
}

#[test]
fn white_space_is_that_of_unicode() {
    for n in 0..=0x10_ffffu32 {
        if let Some(c) = char::from_u32(n) {
            assert_eq!(is_whitespace(c), c.is_whitespace(), "{n:#x}");
        }
    }
}

#[test]
fn blank_texts_are_those_that_trim_to_nothing() {
    for s in ["", " ", " \t\n", "\u{a0}\u{3000}", "a", " a ", ".", " \u{200b}"] {
        assert_eq!(is_blank_text(s), s.trim().is_empty(), "{s:?}");
    }
}
