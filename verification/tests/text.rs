use nbmarch::text::{
    chars_of, has_infix, is_real_number_text, is_space_char, lowered, same_chars, string_of,
    trimmed,
};

fn chars(s: &str) -> Vec<char> {
    s.chars().collect()
}

#[test]
fn strings_and_their_characters() {
    assert_eq!(chars_of("a\u{e9}z"), vec!['a', '\u{e9}', 'z']);
    assert_eq!(chars_of(""), Vec::<char>::new());
    assert_eq!(string_of(&vec!['K', 'M', 'S', 'O']), "KMSO");
    assert_eq!(string_of(&chars_of("Missoula, MT \u{2603}")), "Missoula, MT \u{2603}");
}

#[test]
fn only_ascii_capitals_are_folded() {
    assert_eq!(lowered(&chars("KMSO")), chars("kmso"));
    assert_eq!(lowered(&chars("Kmso-12 [Z]@`")), chars("kmso-12 [z]@`"));
    assert_eq!(lowered(&chars("\u{c9}A")), chars("\u{c9}a"));
    assert_eq!(lowered(&chars("AZaz")), chars("AZaz".to_ascii_lowercase().as_str()));
}

#[test]
fn equal_and_unequal_character_runs() {
    assert!(same_chars(&chars("abc"), &chars("abc")));
    assert!(!same_chars(&chars("abc"), &chars("abd")));
    assert!(!same_chars(&chars("abc"), &chars("ab")));
    assert!(same_chars(&chars(""), &chars("")));
}

#[test]
fn runs_inside_runs() {
    assert!(has_infix(&chars("missoula"), &chars("sou")));
    assert!(has_infix(&chars("missoula"), &chars("missoula")));
    assert!(has_infix(&chars("missoula"), &chars("la")));
    assert!(has_infix(&chars("missoula"), &chars("")));
    assert!(has_infix(&chars(""), &chars("")));
    assert!(!has_infix(&chars("missoula"), &chars("missoulas")));
    assert!(!has_infix(&chars("missoula"), &chars("sol")));
    assert!(!has_infix(&chars(""), &chars("a")));
    assert!(has_infix(&chars("aab"), &chars("ab")));
}

#[test]
fn white_space_is_what_std_calls_white_space() {
    let mut n: u32 = 0;
    while n <= 0x3100 {
        if let Some(c) = char::from_u32(n) {
            assert_eq!(is_space_char(c), c.is_whitespace());
        }
        n += 1;
    }
    assert!(!is_space_char('\u{feff}'));
    assert!(!is_space_char('\u{200b}'));
}

#[test]
fn trimming_agrees_with_std() {
    for s in [
        "",
        " ",
        "  \t\n",
        "KMSO",
        " KMSO",
        "KMSO ",
        "  K M S O  ",
        "\u{a0}BUTTE\u{3000}",
        "\r\nx\r\n",
        "a \u{2003} b",
    ] {
        assert_eq!(string_of(&trimmed(&chars(s))), s.trim());
    }
}

#[test]
fn texts_of_real_numbers() {
    for s in [
        "46.92", "-114.09", "+1", "0", "5.", ".5", "-.5", "1e5", "1E5", "1e+5", "1e-5", "2.5E10",
        "2.5e-10", "1.e5", "inf", "-inf", "+infinity", "NaN", "nan", "INF", "Infinity", "-nAn",
        "007", "1e0005", "123456789012345678901234567890",
    ] {
        assert!(is_real_number_text(&chars(s)));
        assert!(s.parse::<f64>().is_ok());
    }
}

#[test]
fn texts_that_are_no_real_numbers() {
    for s in [
        "", " ", "+", "-", ".", "+.", "e5", ".e5", "1e", "1e+", "1e-", "1e5.0", "1.2.3", "--1",
        "+-1", " 46.92", "46.92 ", "46,92", "lat", "in", "infinit", "infinityy", "nane", "1_000",
        "0x10", "1f", "1e5e5", "\u{661}", "1 2", "N", "-", "1..", "..1",
    ] {
        assert!(!is_real_number_text(&chars(s)));
        assert!(s.parse::<f64>().is_err());
    }
}
