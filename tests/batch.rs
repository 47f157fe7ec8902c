use activity_digest::batch::{count_words, SummaryBatch, COMMIT_BATCH_WORDS, ISSUE_BATCH_ITEMS};

#[test]
fn words_are_counted() {
    assert_eq!(count_words(""), 0);
    assert_eq!(count_words("   "), 0);
    assert_eq!(count_words("one"), 1);
    assert_eq!(count_words(" two  words\n"), 2);
    assert_eq!(count_words("a\tb\r\nc"), 3);
}

#[test]
fn batch_of_twenty_commits_stops_at_word_cap() {
    let mut b = SummaryBatch::for_commits();
    assert_eq!(COMMIT_BATCH_WORDS, 3_000);
    let summary = "word ".repeat(400);
    let mut attempted_calls = 0;
    for _ in 0..20 {
        if !b.is_open() {
            break;
        }
        attempted_calls += 1;
        b.record("2024-01-01", Some(summary.clone()));
    }
    // 8 summaries of 400 words make 3,200 words: the eighth crosses the cap.
    assert_eq!(b.processed, 8);
    assert_eq!(b.attempted, 8);
    assert_eq!(attempted_calls, 8);
    assert_eq!(b.words, 3_200);
    assert!(!b.is_open());
    let text_before = b.summaries.clone();
    b.record("2024-01-02", Some(summary.clone()));
    assert_eq!(b.summaries, text_before);
    assert_eq!(b.attempted, 8);
    assert_eq!(b.finish().unwrap().lines().count(), 8);
}

#[test]
fn failed_items_are_counted_but_skipped() {
    let mut b = SummaryBatch::for_commits();
    b.record("2024-01-01", None);
    b.record("2024-01-02", Some("fixed the parser".to_string()));
    b.record("2024-01-03", None);
    assert_eq!(b.attempted, 3);
    assert_eq!(b.processed, 1);
    assert_eq!(b.summaries, "2024-01-02 fixed the parser\n");
    assert_eq!(b.finish(), Some("2024-01-02 fixed the parser\n".to_string()));
}

#[test]
fn empty_batch_reports_nothing() {
    let mut b = SummaryBatch::for_issues();
    assert_eq!(b.finish(), None);
    b.record("2024-01-01", None);
    assert_eq!(b.finish(), None);
}

#[test]
fn issue_batch_stops_at_item_cap() {
    let mut b = SummaryBatch::for_issues();
    let mut n = 0;
    while b.is_open() && n < 100 {
        b.record("d", Some("s".to_string()));
        n += 1;
    }
    assert_eq!(n, ISSUE_BATCH_ITEMS);
    assert_eq!(b.processed, 50);
}

#[test]
fn batch_without_room_starts_closed() {
    let b = SummaryBatch::new(0, 10);
    assert!(!b.is_open());
}
