use yt_grab::text::{
    ascii_lower_chars, chars_of, contains_chars, ends_with_str, is_space_char, split_chars,
    split_once_chars, strip_trailing_chars, trim_chars,
};

fn string_of(v: &Vec<char>) -> String {
    v.iter().collect()
}

fn all_chars() -> impl Iterator<Item = char> {
    (0u32..=0x10FFFF).filter_map(char::from_u32)
}

#[test]
fn white_space_is_unicode_white_space() {
    for c in all_chars() {
        assert_eq!(is_space_char(c), c.is_whitespace(), "char {:?}", c);
    }
}

#[test]
fn only_two_non_ascii_characters_lower_case_to_ascii_letters() {
    for c in all_chars().filter(|c| !c.is_ascii()) {
        if c.to_lowercase().any(|l| l.is_ascii()) {
            assert!(c == '\u{130}' || c == '\u{212a}', "char {:?}", c);
        }
    }
}

#[test]
fn ascii_lowering() {
    let v = ascii_lower_chars(&chars_of("AbZ-Ä1"));
    assert_eq!(string_of(&v), "abz-Ä1");
}

#[test]
fn trim_agrees_with_str_trim() {
    for s in ["", "  ", " a ", "\u{2003}x\u{85}", "a b", "\n\t v\r\n", "\u{200b}x"] {
        assert_eq!(string_of(&trim_chars(&chars_of(s))), s.trim(), "text {:?}", s);
    }
}

#[test]
fn strip_trailing_agrees_with_trim_end_matches() {
    for s in ["", "%", "5%", "5%%", "%5", "5% "] {
        assert_eq!(string_of(&strip_trailing_chars(&chars_of(s), '%')), s.trim_end_matches('%'));
    }
}

#[test]
fn split_agrees_with_str_split() {
    for s in ["", "|", "a", "a|b", "|a|", "a||b", "downloaded:1|total:2"] {
        let ours: Vec<String> = split_chars(&chars_of(s), '|').iter().map(string_of).collect();
        let std: Vec<String> = s.split('|').map(str::to_string).collect();
        assert_eq!(ours, std, "text {:?}", s);
    }
}

#[test]
fn split_once_agrees_with_str_split_once() {
    for s in ["", ":", "a", "a:b", ":b", "a:", "a:b:c"] {
        let ours = split_once_chars(&chars_of(s), ':').map(|(k, v)| (string_of(&k), string_of(&v)));
        let std = s.split_once(':').map(|(k, v)| (k.to_string(), v.to_string()));
        assert_eq!(ours, std, "text {:?}", s);
    }
}

#[test]
fn substring_search() {
    assert!(contains_chars(&chars_of("abcabd"), &chars_of("abd")));
    assert!(contains_chars(&chars_of("abc"), &chars_of("")));
    assert!(!contains_chars(&chars_of("ab"), &chars_of("abc")));
    assert!(ends_with_str("/usr/bin/yt-dlp", "yt-dlp"));
    assert!(!ends_with_str("yt-dlp.exe", "yt-dlp"));
    assert!(ends_with_str("x", ""));
}
