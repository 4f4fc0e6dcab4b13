use escudo::order::{insert_text, text_before};

#[test]
fn order_agrees_with_std() {
    let texts = ["", "a", "aa", "ab", "b", "A", "1.0.100", "1.0.210", "1.0.9", "é", "\u{10000}", "\u{ffff}"];
    for a in texts {
        for b in texts {
            assert_eq!(text_before(a, b), a < b, "{:?} {:?}", a, b);
        }
    }
}

#[test]
fn insertion_sorts_and_drops_repetitions() {
    let mut texts: Vec<String> = Vec::new();
    for text in ["serde", "anyhow", "tokio", "serde", "base64", "anyhow"] {
        insert_text(&mut texts, text);
    }
    assert_eq!(texts, vec!["anyhow", "base64", "serde", "tokio"]);
}
