use polymarket_rn2_bot::ai_client::{bearer_authorization, chat_completions_url, probability_candidates};
use polymarket_rn2_bot::text::{split_words, trim, white_space};

#[test]
fn trim_removes_unicode_whitespace() {
    assert_eq!(trim("  \t0.45\n"), "0.45");
    assert_eq!(trim("\u{3000}abc\u{2009}"), "abc");
    assert_eq!(trim(" \n\t "), "");
    assert_eq!(trim(""), "");
    assert_eq!(trim("a b"), "a b");
}

#[test]
fn whitespace_matches_std() {
    for c in ['a', ' ', '\t', '\u{85}', '\u{a0}', '\u{1680}', '\u{200b}', '\u{202f}', '\u{3000}', '0', '\u{feff}'] {
        assert_eq!(white_space(c), c.is_whitespace(), "{:?}", c);
    }
}

#[test]
fn split_words_matches_std() {
    for s in ["", "   ", "one", " two  words ", "a\u{2003}b\nc\td", "ends with space "] {
        let expected: Vec<String> = s.split_whitespace().map(|w| w.to_string()).collect();
        assert_eq!(split_words(s), expected);
    }
}

#[test]
fn candidates_of_plain_number() {
    assert_eq!(probability_candidates(" 0.45 "), vec!["0.45", "0.45", "0.45"]);
}

#[test]
fn candidates_of_sentence() {
    assert_eq!(
        probability_candidates("Probabilitas: 0.62."),
        vec!["Probabilitas: 0.62.", "Probabilitas:", "0.62.", "0.62"]
    );
}

#[test]
fn candidates_without_number() {
    assert_eq!(probability_candidates("tidak tahu"), vec!["tidak tahu", "tidak", "tahu"]);
}

#[test]
fn candidates_of_empty_reply() {
    assert_eq!(probability_candidates("   "), vec![""]);
}

#[test]
fn request_address_and_header() {
    assert_eq!(chat_completions_url("https://api.z.ai/api/v1"), "https://api.z.ai/api/v1/chat/completions");
    assert_eq!(bearer_authorization("k3y"), "Bearer k3y");
}
