use activity_digest::model::{
    commit_request_id, issue_request_id, plan_request, select, ModelTier, SelectorPolicy,
    SqueezeSetting,
};

#[test]
fn sparse_mode_relaxes_item_budget() {
    let p = SelectorPolicy::for_issues();
    let sparse = select(&p, "id".to_string(), "sys".to_string(), 2_000, true, false);
    let normal = select(&p, "id".to_string(), "sys".to_string(), 2_000, false, false);
    assert_eq!(sparse.tier, ModelTier::Standard);
    assert_eq!(normal.tier, ModelTier::Standard);
    assert!(sparse.post.target > normal.post.target);
    assert!(sparse.comment.target > normal.comment.target);
    assert_eq!(sparse.post, SqueezeSetting { target: 500, skew: 600 });
    assert_eq!(normal.post, SqueezeSetting { target: 400, skew: 700 });
    assert_eq!(sparse.comment, SqueezeSetting { target: 300, skew: 600 });
    assert_eq!(normal.comment, SqueezeSetting { target: 200, skew: 700 });
}

#[test]
fn large_input_selects_extended_tier() {
    let p = SelectorPolicy::for_issues();
    assert_eq!(select(&p, "id".to_string(), String::new(), 12_000, false, false).tier, ModelTier::Standard);
    assert_eq!(select(&p, "id".to_string(), String::new(), 12_001, false, false).tier, ModelTier::Extended);
    let turbo = select(&p, "id".to_string(), String::new(), 50_000, false, true);
    assert_eq!(turbo.tier, ModelTier::Standard);
    assert_eq!(turbo.context, SqueezeSetting { target: 3_000, skew: 400 });
}

#[test]
fn profile_carries_request_settings() {
    let p = SelectorPolicy::for_commits();
    let r = select(&p, "id".to_string(), "system prompt".to_string(), 10, false, false);
    assert_eq!(r.system_prompt, "system prompt");
    assert_eq!(r.request_id, "id");
    assert_eq!(r.max_output_size, 128);
    assert_eq!(r.temperature_pct, 70);
    assert!(r.restart);
    assert_eq!(r.context, SqueezeSetting { target: 12_000, skew: 600 });
}

#[test]
fn plan_squeezes_the_input() {
    let p = SelectorPolicy::for_issues();
    let input = "a".repeat(5_000) + &"b".repeat(5_000);
    let plan = plan_request(&p, "id".to_string(), String::new(), &input, false, true);
    assert_eq!(plan.profile.tier, ModelTier::Standard);
    assert_eq!(plan.text.len(), 3_000);
    assert_eq!(plan.text, "a".repeat(1_200) + &"b".repeat(1_800));
    let big = "c".repeat(13_000);
    let plan = plan_request(&p, "id".to_string(), String::new(), &big, false, false);
    assert_eq!(plan.profile.tier, ModelTier::Extended);
    assert_eq!(plan.text.len(), 12_000);
}

#[test]
fn request_ids_are_stable() {
    assert_eq!(issue_request_id(0), "issue_0");
    assert_eq!(issue_request_id(1234), "issue_1234");
    assert_eq!(issue_request_id(1234), issue_request_id(1234));
    assert_eq!(
        commit_request_id("https://github.com/o/r/commit/abcdef123456"),
        "commit-abcde"
    );
    assert_eq!(commit_request_id("abc"), "commit-abc");
    assert_eq!(commit_request_id("x/"), "commit-");
}
