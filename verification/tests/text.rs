use modular_agent_audio::text::{
    characters, concat2, concat6, contains, ends_with, find, matches_at, same, starts_with, trim,
};

#[test]
fn texts_are_trimmed_as_the_standard_library_does() {
    for text in ["", " ", "a", " a ", "\t\r\n a b \u{2003}", "\u{200b}x\u{200b}", "\u{85}あ\u{3000}"] {
        assert_eq!(trim(text), text.trim());
        assert_eq!(trim(trim(text)), trim(text));
    }
}

#[test]
fn texts_are_searched_as_the_standard_library_does() {
    let samples = ["", "a", "ab", "aab", "abab", "あいう", "いう", "b", "ba"];
    for s in samples {
        for p in samples {
            assert_eq!(same(s, p), s == p);
            assert_eq!(starts_with(s, p), s.starts_with(p));
            assert_eq!(ends_with(s, p), s.ends_with(p));
            assert_eq!(contains(s, p), s.contains(p));
            let place = s.find(p).map(|at| s[..at].chars().count());
            assert_eq!(find(&characters(s), &characters(p)), place);
        }
    }
}

#[test]
fn a_pattern_past_the_end_does_not_match() {
    let s = characters("abc");
    assert!(matches_at(&s, &characters("bc"), 1));
    assert!(!matches_at(&s, &characters("bc"), 2));
    assert!(matches_at(&s, &characters(""), 3));
    assert!(!matches_at(&s, &characters(""), 4));
}

#[test]
fn texts_are_joined() {
    assert_eq!(concat2("a", "い"), "aい");
    assert_eq!(concat6("1", "", "2", "3", "4", "5"), "12345");
}

#[test]
fn white_space_is_a_fixed_list() {
    let listed = |c: char| {
        matches!(
            c,
            '\u{9}'..='\u{d}'
                | '\u{20}'
                | '\u{85}'
                | '\u{a0}'
                | '\u{1680}'
                | '\u{2000}'..='\u{200a}'
                | '\u{2028}'
                | '\u{2029}'
                | '\u{202f}'
                | '\u{205f}'
                | '\u{3000}'
        )
    };
    for c in '\0'..=char::MAX {
        let mut buffer = [0u8; 4];
        let text: &str = c.encode_utf8(&mut buffer);
        assert_eq!(trim(text).is_empty(), listed(c), "{:?}", c);
    }
}
