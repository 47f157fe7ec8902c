use activity_digest::budget::{allocate, labelled_sections, Source};
use activity_digest::correlate::{
    activity_sections, squeeze_fit_commits_issues, trim_home_project_inputs,
};

fn src(name: &str, weight: u64, text: Option<&str>) -> Source {
    Source { name: name.to_string(), weight, text: text.map(|t| t.to_string()) }
}

#[test]
fn allocation_of_four_sources() {
    let long = "x".repeat(100_000);
    let sources = vec![
        src("profile", 1, Some(&long)),
        src("commits", 4, Some(&long)),
        src("issues", 4, Some(&long)),
        src("discussions", 2, Some(&long)),
    ];
    let r = allocate(16_000, &sources, 3);
    let sizes: Vec<u64> = r.iter().map(|a| a.size).collect();
    assert_eq!(sizes, vec![1454, 5818, 5818, 2909]);
    assert!(sizes.iter().sum::<u64>() <= 16_000);
    let names: Vec<&str> = r.iter().map(|a| a.name.as_str()).collect();
    assert_eq!(names, vec!["profile", "commits", "issues", "discussions"]);
    assert_eq!(r[0].text.chars().count(), 1454 * 3);
    assert_eq!(r[1].text.chars().count(), 5818 * 3);
}

#[test]
fn allocation_renormalises_over_present_sources() {
    let sources = vec![
        src("profile", 1, None),
        src("commits", 4, Some("abcdefghij")),
        src("issues", 4, None),
        src("discussions", 2, Some("0123456789")),
    ];
    let r = allocate(6, &sources, 1);
    assert_eq!(r.len(), 2);
    assert_eq!(r[0].name, "commits");
    assert_eq!(r[0].size, 4);
    assert_eq!(r[0].text, "abcd");
    assert_eq!(r[1].name, "discussions");
    assert_eq!(r[1].size, 2);
    assert_eq!(r[1].text, "01");
}

#[test]
fn allocation_sum_within_budget() {
    let sources = vec![
        src("a", 1, Some("t")),
        src("b", 1, Some("t")),
        src("c", 1, Some("t")),
    ];
    let r = allocate(10, &sources, 3);
    let sizes: Vec<u64> = r.iter().map(|a| a.size).collect();
    assert_eq!(sizes, vec![3, 3, 3]);
    assert!(sizes.iter().sum::<u64>() <= 10);
}

#[test]
fn allocation_with_no_present_source_is_empty() {
    let sources = vec![src("a", 1, None), src("b", 5, None)];
    assert!(allocate(16_000, &sources, 3).is_empty());
    assert!(allocate(16_000, &Vec::new(), 3).is_empty());
}

#[test]
fn allocation_with_zero_weights_gives_zero_sizes() {
    let sources = vec![src("a", 0, Some("abc")), src("b", 0, Some("def"))];
    let r = allocate(100, &sources, 3);
    assert_eq!(r.len(), 2);
    assert_eq!(r[0].size, 0);
    assert_eq!(r[0].text, "");
}

#[test]
fn short_texts_are_kept_whole() {
    let sources = vec![src("a", 1, Some("short")), src("b", 1, Some("tiny"))];
    let r = allocate(100, &sources, 3);
    assert_eq!(r[0].text, "short");
    assert_eq!(r[1].text, "tiny");
}

#[test]
fn labelled_sections_cover_every_source() {
    let sources = vec![src("one", 1, Some("abcdef")), src("two", 1, None)];
    let r = labelled_sections(2, &sources, 2);
    assert_eq!(r, vec!["one: abcd".to_string(), String::new()]);
}

#[test]
fn activity_sections_share_sixteen_thousand_tokens() {
    let long = "y".repeat(60_000);
    let r = activity_sections(
        Some(long.clone()),
        Some(long.clone()),
        Some(long.clone()),
        Some(long.clone()),
    );
    assert_eq!(r.len(), 4);
    assert_eq!(r[0].len(), "profile data: ".len() + 1454 * 3);
    assert_eq!(r[1].len(), "commit logs: ".len() + 5818 * 3);
    assert_eq!(r[2].len(), "issue post: ".len() + 5818 * 3);
    assert_eq!(r[3].len(), "discussion posts: ".len() + 2909 * 3);
    let only_commits = activity_sections(None, Some("c".repeat(10)), None, None);
    assert_eq!(only_commits[0], "");
    assert_eq!(only_commits[1], format!("commit logs: {}", "c".repeat(10)));
    assert_eq!(only_commits[3], "");
}

#[test]
fn commits_and_issues_fit_together() {
    let (c, i) = squeeze_fit_commits_issues("abc", "de", 10, 600);
    assert_eq!((c.as_str(), i.as_str()), ("abc", "de"));
    let (c, i) = squeeze_fit_commits_issues("abcdefghij", "0123456789", 10, 600);
    assert_eq!(c, "abcdef");
    assert_eq!(i, "0123");
}

#[test]
fn home_project_inputs_are_cut() {
    let long = "z".repeat(10_000);
    let r = trim_home_project_inputs(&long, &long, &long, &long, "short");
    assert_eq!(r.home_repo.len(), 6_000);
    assert_eq!(r.user_profile.len(), 4_000);
    assert_eq!(r.issues.len(), 9_000);
    assert_eq!(r.repos.len(), 6_000);
    assert_eq!(r.discussions, "short");
}
