use activity_digest::model::{ModelTier, SelectorPolicy};
use activity_digest::patch::{prepare_commit_request, strip_commit_patch};

const PATCH: &str = "From abc Mon Sep 17 00:00:00 2001\nSubject: [PATCH] Fix parser\n\nBody text.\ndiff --git a/x.rs b/x.rs\n+fn f() {\n+    let v = [1, 2];\n+    g(v)\n+}\n\nafter {blank}\n";

#[test]
fn diff_lines_with_brackets_are_dropped() {
    let r = strip_commit_patch(PATCH, false);
    assert_eq!(
        r,
        "From abc Mon Sep 17 00:00:00 2001\nSubject: [PATCH] Fix parser\n\nBody text.\ndiff --git a/x.rs b/x.rs\n+    g(v)\n\nafter {blank}\n"
    );
}

#[test]
fn sparse_batch_keeps_patch_whole() {
    assert_eq!(strip_commit_patch(PATCH, true), PATCH);
}

#[test]
fn long_patch_keeps_only_its_message() {
    let mut text = String::from("Subject: message\n\nExplains it.\n");
    text.push_str("diff --git a/y b/y\n");
    for i in 0..700 {
        text.push_str(&format!("+line {}\n", i));
    }
    let r = strip_commit_patch(&text, false);
    assert_eq!(r, "Subject: message\n\nExplains it.\n");
    let r = strip_commit_patch(&text, true);
    assert_eq!(r, "Subject: message\n\nExplains it.\n");
}

#[test]
fn patch_of_exactly_six_hundred_lines_is_filtered() {
    let mut text = String::from("diff --git a b\n");
    for _ in 0..599 {
        text.push_str("x[0]\n");
    }
    let r = strip_commit_patch(&text, false);
    assert_eq!(r, "diff --git a b\n");
}

#[test]
fn commit_request_is_planned_on_stripped_patch() {
    let p = SelectorPolicy::for_commits();
    let plan = prepare_commit_request(&p, "commit-abcde".to_string(), "sys".to_string(), PATCH, false, false);
    assert_eq!(plan.profile.tier, ModelTier::Standard);
    assert_eq!(plan.text, strip_commit_patch(PATCH, false));
    assert_eq!(plan.profile.system_prompt, "sys");
    assert_eq!(plan.profile.request_id, "commit-abcde");
}

#[test]
fn crlf_ends_a_line() {
    assert_eq!(strip_commit_patch("a\r\n", false), "a\n");
    assert_eq!(strip_commit_patch("a\r\nb", false), "a\nb\n");
    assert_eq!(strip_commit_patch("a\rb\n", false), "a\rb\n");
}

#[test]
fn crlf_empty_line_closes_a_file_diff() {
    let patch = "diff --git x\r\nf{\r\n\r\nafter{\r\n";
    assert_eq!(strip_commit_patch(patch, false), "diff --git x\n\nafter{\n");
}
