use activity_digest::squeeze::{
    squeeze, squeeze_fit_post_texts, squeeze_fit_remove_quoted, squeeze_keeping_blocks,
};
use activity_digest::text::take_chars;

fn prose(tag: &str, words: usize) -> String {
    let mut s = String::new();
    for i in 0..words {
        s.push_str(&format!("{}{} ", tag, i % 10));
    }
    s
}

#[test]
fn squeeze_never_exceeds_target() {
    let text = "é".repeat(50) + &"abc ".repeat(100);
    for target in [0usize, 1, 7, 100, 449, 450, 1000] {
        for skew in [0u32, 400, 600, 1000] {
            let r = squeeze(&text, target, skew);
            assert!(r.chars().count() <= target, "target {} skew {}", target, skew);
        }
    }
}

#[test]
fn squeeze_keeps_text_that_fits() {
    let text = "short text with ```code``` inside";
    assert_eq!(squeeze(text, text.chars().count(), 600), text);
    assert_eq!(squeeze(text, 1000, 0), text);
    assert_eq!(squeeze_fit_post_texts(text, 1000, 400), text);
}

#[test]
fn squeeze_zero_target_is_empty() {
    assert_eq!(squeeze("something", 0, 600), "");
    assert_eq!(squeeze_fit_post_texts("something", 0, 600), "");
}

#[test]
fn head_tail_split_follows_skew() {
    // 20 characters, target 10, skew 0.6: six from the head, four from the tail.
    let text = "abcdefghijklmnopqrst";
    assert_eq!(squeeze_fit_post_texts(text, 10, 600), "abcdefqrst");
    assert_eq!(squeeze_fit_post_texts(text, 10, 1000), "abcdefghij");
    assert_eq!(squeeze_fit_post_texts(text, 10, 0), "klmnopqrst");
    // 0.45 of 5 is 2.25, rounded to 2.
    assert_eq!(squeeze_fit_post_texts(text, 5, 450), "abrst");
    // 0.5 of 5 is 2.5, rounded up to 3.
    assert_eq!(squeeze_fit_post_texts(text, 5, 500), "abcst");
}

#[test]
fn squeeze_respects_character_boundaries() {
    let text = "ééééééééééüüüüüüüüüü";
    let r = squeeze_fit_post_texts(text, 4, 500);
    assert_eq!(r, "ééüü");
}

#[test]
fn fenced_blocks_are_dropped_when_squeezing() {
    let text = "intro ```let x = 1;``` middle ```fn f() {}``` end";
    let r = squeeze_fit_remove_quoted(text, "```", 40, 500);
    assert_eq!(r, "intro  middle  end");
}

#[test]
fn unclosed_fence_is_plain_text() {
    let text = "keep this ```and all of this";
    let r = squeeze(text, 20, 500);
    assert_eq!(r, "keep this ll of this");
    let text = "a ```b``` c ```d";
    assert_eq!(squeeze(text, 10, 1000), "a  c ```d");
}

#[test]
fn squeeze_long_issue_body_with_two_fences() {
    let head = prose("head", 1000);
    let code1 = format!("```\n{}\n```", "let secret_one = 1;\n".repeat(150));
    let middle = prose("mid", 400);
    let code2 = format!("```\n{}\n```", "fn secret_two() {}\n".repeat(150));
    let tail = prose("tail", 900);
    let mut body = format!("{}{}{}{}{}", head, code1, middle, code2, tail);
    while body.chars().count() < 20_000 {
        body.push_str("tail9 ");
    }
    body.truncate(20_000);
    assert_eq!(body.chars().count(), 20_000);
    let r = squeeze(&body, 500, 600);
    assert!(r.chars().count() <= 500);
    assert_eq!(r.chars().count(), 500);
    assert!(r.starts_with("head0 head1 "));
    assert!(r.contains("tail"));
    assert!(r.ends_with(&body[body.len() - 20..]));
    assert!(!r.contains("secret_one"));
    assert!(!r.contains("secret_two"));
    assert!(!r.contains("```"));
    let head_part: String = r.chars().take(300).collect();
    assert!(!head_part.contains("tail"));
}

#[test]
fn take_chars_cuts_by_characters() {
    assert_eq!(take_chars("héllo", 2), "hé");
    assert_eq!(take_chars("héllo", 10), "héllo");
    assert_eq!(take_chars("", 3), "");
}

#[test]
fn first_blocks_can_be_kept() {
    let text = "a ```one``` b ```two``` c";
    assert_eq!(squeeze_keeping_blocks(text, "```", 1, 20, 500), "a ```one``` b  c");
    assert_eq!(squeeze_keeping_blocks(text, "```", 0, 20, 500), "a  b  c");
    assert_eq!(squeeze_keeping_blocks(text, "```", 5, 24, 1000), "a ```one``` b ```two``` ");
    assert_eq!(squeeze_keeping_blocks(text, "```", 0, 25, 500), text);
}
