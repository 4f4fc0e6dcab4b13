use escudo::text::{
    join_text, same_chars, same_text, space_char, split_chars, text_after, text_contains, to_chars,
    trim_chars,
};

fn chars(text: &str) -> Vec<char> {
    text.chars().collect()
}

fn split(text: &str, separator: &str) -> Vec<String> {
    split_chars(&chars(text), &chars(separator))
        .into_iter()
        .map(|piece| piece.into_iter().collect())
        .collect()
}

#[test]
fn characters_of_a_text() {
    assert_eq!(to_chars("ab"), vec!['a', 'b']);
    assert_eq!(to_chars("—é"), vec!['—', 'é']);
    assert!(to_chars("").is_empty());
}

#[test]
fn equal_texts() {
    assert!(same_text("serde", "serde"));
    assert!(same_text("", ""));
    assert!(!same_text("serde", "serde_json"));
    assert!(!same_text("serde", "serdE"));
    assert!(same_chars(&['a'], &['a']));
    assert!(!same_chars(&['a'], &['b']));
}

#[test]
fn containment_agrees_with_std() {
    for text in ["", "a", "registry+x", "xregistr", "aab", "ababac", "git+registry"] {
        for pattern in ["", "a", "ab", "aab", "registry", "abac"] {
            assert_eq!(text_contains(text, pattern), text.contains(pattern), "{text} {pattern}");
        }
    }
}

#[test]
fn prefixes_are_cut_off() {
    assert_eq!(text_after("git+https://x", "git+"), Some("https://x"));
    assert_eq!(text_after("git+", "git+"), Some(""));
    assert_eq!(text_after("path+x", "git+"), None);
    assert_eq!(text_after("gi", "git+"), None);
    assert_eq!(text_after("é+ü", "é+"), Some("ü"));
}

#[test]
fn splitting_agrees_with_std() {
    for text in ["", "a", "a/b", "/", "a//b", "MIT OR Apache-2.0 OR ISC", "x AND y", " OR  OR "] {
        for separator in ["/", " OR ", " AND ", "aa"] {
            let expected: Vec<String> = text.split(separator).map(str::to_string).collect();
            assert_eq!(split(text, separator), expected, "{text} {separator}");
        }
    }
    assert_eq!(split("aaa", "aa"), vec!["", "a"]);
}

#[test]
fn splitting_and_joining() {
    for text in ["", "a/b", "MIT OR ISC", "a//b/", "no separator"] {
        for separator in ["/", " OR "] {
            assert_eq!(join_text(&split(text, separator), separator), text);
        }
    }
    let parts = vec!["MIT".to_string(), "ISC".to_string(), "Zlib".to_string()];
    assert_eq!(join_text(&parts, " OR "), "MIT OR ISC OR Zlib");
    assert_eq!(split("MIT OR ISC OR Zlib", " OR "), parts);
    assert_eq!(join_text(&[], ", "), "");
}

#[test]
fn white_space_agrees_with_std() {
    for c in '\0'..=char::MAX {
        assert_eq!(space_char(c), c.is_whitespace(), "{:?}", c);
    }
}

#[test]
fn trimming_agrees_with_std() {
    for text in ["", " ", "MIT", " MIT", "MIT ", "\t MIT\u{3000}\n", " a b ", "\u{a0}x"] {
        let trimmed: String = trim_chars(&chars(text)).into_iter().collect();
        assert_eq!(trimmed, text.trim());
    }
}
