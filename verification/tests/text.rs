use lib::screen::{Position, TextAlign, TextPosition};
use lib::text::{from_utf16, into_utf16, is_whitespace, text_wrap};

#[test]
fn wrap_short_text_is_one_line() {
    assert_eq!(text_wrap("hello world", 20), "hello world");
}

#[test]
fn wrap_breaks_between_words() {
    assert_eq!(text_wrap("the quick brown fox", 10), "the quick\nbrown fox");
    assert_eq!(text_wrap("a b c", 3), "a\nb\nc");
}

#[test]
fn wrap_collapses_white_space() {
    assert_eq!(text_wrap("  a \t b\n\nc  ", 80), "a b c");
    assert_eq!(text_wrap("", 5), "");
    assert_eq!(text_wrap("   ", 5), "");
}

#[test]
fn wrap_long_first_word_leaves_an_empty_line() {
    assert_eq!(text_wrap("abcdefgh", 3), "\nabcdefgh");
    assert_eq!(text_wrap("ab cd", 0), "\nab\ncd");
}

#[test]
fn wrap_counts_bytes() {
    // "é" takes two bytes
    assert_eq!(text_wrap("éé é", 5), "éé\né");
}

#[test]
fn white_space_characters() {
    assert!(is_whitespace(' '));
    assert!(is_whitespace('\t'));
    assert!(is_whitespace('\u{3000}'));
    assert!(!is_whitespace('x'));
    assert!(!is_whitespace('\u{200b}'));
}

#[test]
fn utf16_with_terminator() {
    assert_eq!(into_utf16("ab"), vec![0x61, 0x62, 0]);
    assert_eq!(into_utf16(""), vec![0]);
    assert_eq!(into_utf16("é"), vec![0xe9, 0]);
    assert_eq!(into_utf16("😀"), vec![0xd83d, 0xde00, 0]);
    let s = "x😀é";
    let mut expected: Vec<u16> = s.encode_utf16().collect();
    expected.push(0);
    assert_eq!(into_utf16(s), expected);
}

#[test]
fn format_left_aligned() {
    let p = TextPosition { column: 4, row: 2, align: TextAlign::Left };
    assert_eq!(p.format("ab\ncd"), vec![("ab", 4, 2), ("cd", 4, 3)]);
}

#[test]
fn format_centred_and_right() {
    let p = TextPosition { column: 10, row: 0, align: TextAlign::Center };
    assert_eq!(p.format("abcd"), vec![("abcd", 8, 0)]);
    let p = TextPosition { column: 10, row: 0, align: TextAlign::Right };
    assert_eq!(p.format("abcd\nxy"), vec![("abcd", 6, 0), ("xy", 8, 1)]);
    let p = TextPosition { column: 1, row: 0, align: TextAlign::Right };
    assert_eq!(p.format("abcd"), vec![("abcd", 0, 0)]);
}

#[test]
fn format_empty_and_trailing_lines() {
    let p = TextPosition::default();
    assert_eq!(p.format(""), vec![("", 0, 0)]);
    assert_eq!(p.format("a\n"), vec![("a", 0, 0), ("", 0, 1)]);
}

#[test]
fn positions_from_tuples() {
    let p: TextPosition = (3, 4).into();
    assert_eq!(p, TextPosition { column: 3, row: 4, align: TextAlign::Left });
    let p: TextPosition = (3, 4, TextAlign::Right).into();
    assert_eq!(p.align, TextAlign::Right);
    assert_eq!(TextAlign::default(), TextAlign::Left);
    assert_eq!(Position::into(7u32, 100), 7);
}

#[test]
fn utf16_decoding() {
    assert_eq!(from_utf16(&[0x61, 0x62, 0, 0x63]), "ab");
    assert_eq!(from_utf16(&[0x61, 0x62]), "ab");
    assert_eq!(from_utf16(&[]), "");
    assert_eq!(from_utf16(&[0xd83d, 0xde00, 0]), "😀");
    // unpaired surrogates become U+FFFD
    assert_eq!(from_utf16(&[0xd83d, 0x61, 0]), "\u{fffd}a");
    assert_eq!(from_utf16(&[0xde00, 0]), "\u{fffd}");
    // at most 256 units are read
    let long = vec![0x78u16; 300];
    assert_eq!(from_utf16(&long).len(), 256);
}

#[test]
fn utf16_round_trip() {
    for s in ["", "plain", "é😀x", "\u{ffff}\u{10000}\u{10ffff}"] {
        assert_eq!(from_utf16(&into_utf16(s)), s);
    }
}

#[test]
fn wrap_keeps_words_and_fits_lines() {
    let text = "Lorem ipsum dolor sit amet, consectetur adipiscing elit, sed do eiusmod";
    for width in [0usize, 5, 11, 20, 80] {
        let out = text_wrap(text, width);
        let a: Vec<&str> = text.split_whitespace().collect();
        let b: Vec<&str> = out.split_whitespace().collect();
        assert_eq!(a, b);
        for line in out.split('\n') {
            assert!(line.len() < width || line.split_whitespace().count() <= 1);
        }
    }
}

#[test]
fn format_lines_join_back() {
    let p = TextPosition::default();
    for text in ["", "one", "a\nb", "\n\n", "x\ny\n", "é\n😀 z"] {
        let lines: Vec<&str> = p.format(text).into_iter().map(|(line, _, _)| line).collect();
        assert!(lines.iter().all(|line| !line.contains('\n')));
        assert_eq!(lines.join("\n"), text);
    }
}
