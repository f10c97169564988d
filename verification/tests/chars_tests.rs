use core_db::chars::{chars_of, is_whitespace, to_ascii_lowercase};
use core_db::numbers::decimal_chars;
use core_db::text::{split_words, trim_chars};

fn all_chars() -> impl Iterator<Item = char> {
    (0u32..=0x10FFFF).filter_map(char::from_u32)
}

#[test]
fn whitespace_matches_std() {
    for c in all_chars() {
        assert_eq!(is_whitespace(c), c.is_whitespace(), "character {:?}", c);
    }
}

#[test]
fn ascii_lowercase_matches_std() {
    for c in all_chars() {
        assert_eq!(to_ascii_lowercase(c), c.to_ascii_lowercase(), "character {:?}", c);
    }
}

#[test]
fn chars_of_keeps_every_character() {
    let s = "Řá b\u{3000}c";
    assert_eq!(chars_of(s), s.chars().collect::<Vec<char>>());
}

#[test]
fn trim_matches_std() {
    for s in ["", "  ", " a ", "\u{3000}x y\u{2028}", "\t\nab\r", "a", "\u{a0}b\u{85}"] {
        let chars: Vec<char> = s.chars().collect();
        let expected: Vec<char> = s.trim().chars().collect();
        assert_eq!(trim_chars(&chars), expected, "input {:?}", s);
    }
}

#[test]
fn split_words_matches_std() {
    for s in ["", "   ", "a", " a  b ", "Mírová 1 Říčany", "x\u{2003}y\tz\n", "17. listopadu 30/8"] {
        let chars: Vec<char> = s.chars().collect();
        let expected: Vec<Vec<char>> = s.split_whitespace().map(|w| w.chars().collect()).collect();
        assert_eq!(split_words(&chars), expected, "input {:?}", s);
    }
}

#[test]
fn decimal_matches_to_string() {
    for n in [0, 7, 10, 99, 100, 25101, -1, -42, i32::MAX, i32::MIN] {
        let expected: Vec<char> = n.to_string().chars().collect();
        assert_eq!(decimal_chars(n), expected, "number {}", n);
    }
}
