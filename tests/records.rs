use activity_digest::issue::{
    issue_thread_text, join_labels, prepare_issue_request, IssueComment, IssuePost,
};
use activity_digest::memory::{
    community_profile_url, issue_memory, repo_memory, CalendarDate, MemoryType,
};
use activity_digest::model::SelectorPolicy;

fn date() -> CalendarDate {
    CalendarDate::new(2024, 2, 29).unwrap()
}

#[test]
fn dates_are_checked() {
    assert!(CalendarDate::new(2024, 2, 29).is_some());
    assert!(CalendarDate::new(2023, 2, 29).is_none());
    assert!(CalendarDate::new(1900, 2, 29).is_none());
    assert!(CalendarDate::new(2000, 2, 29).is_some());
    assert!(CalendarDate::new(2024, 4, 31).is_none());
    assert!(CalendarDate::new(2024, 13, 1).is_none());
    assert!(CalendarDate::new(2024, 1, 0).is_none());
}

#[test]
fn repo_memory_fills_from_either_side() {
    let url = community_profile_url("owner", "repo");
    assert_eq!(url, "https://api.github.com/repos/owner/repo/community/profile");
    let m = repo_memory("owner", "repo", url.clone(), String::new(), "summary".to_string(), date())
        .unwrap();
    assert_eq!(m.memory_type, MemoryType::Meta);
    assert_eq!(m.name, "owner/repo");
    assert_eq!(m.tag_line, "summary");
    assert_eq!(m.payload, "summary");
    assert_eq!(m.source_url, url);
    let m = repo_memory("o", "r", url.clone(), "desc".to_string(), String::new(), date()).unwrap();
    assert_eq!(m.tag_line, "desc");
    assert_eq!(m.payload, "desc");
    let m = repo_memory("o", "r", url.clone(), "desc".to_string(), "sum".to_string(), date())
        .unwrap();
    assert_eq!(m.tag_line, "desc");
    assert_eq!(m.payload, "sum");
    assert!(repo_memory("o", "r", url, String::new(), String::new(), date()).is_none());
}

#[test]
fn issue_memory_names_target_or_author() {
    let m = issue_memory("alice", None, "T".into(), "u".into(), "s".into(), date());
    assert_eq!(m.name, "alice");
    assert_eq!(m.memory_type, MemoryType::Issue);
    let m = issue_memory("alice", Some("bob".into()), "T".into(), "u".into(), "s".into(), date());
    assert_eq!(m.name, "bob");
    assert_eq!(m.tag_line, "T");
    assert_eq!(m.payload, "s");
}

#[test]
fn labels_are_joined() {
    assert_eq!(join_labels(&vec![]), "");
    assert_eq!(join_labels(&vec!["bug".to_string()]), "bug");
    assert_eq!(
        join_labels(&vec!["bug".to_string(), "help".to_string(), "ui".to_string()]),
        "bug, help, ui"
    );
}

#[test]
fn thread_text_presents_post_and_comments() {
    let post = IssuePost {
        author: "alice".to_string(),
        title: "Crash".to_string(),
        labels: vec!["bug".to_string(), "p1".to_string()],
        body: Some("It crashes.".to_string()),
    };
    let comments = vec![
        IssueComment { author: "bob".to_string(), body: Some("Same here.".to_string()) },
        IssueComment { author: "carol".to_string(), body: None },
        IssueComment { author: "dave".to_string(), body: Some("Fixed.".to_string()) },
    ];
    let p = SelectorPolicy::for_issues();
    let r = issue_thread_text(&post, &comments, &p, false);
    assert_eq!(
        r,
        "User 'alice', opened an issue titled 'Crash', labeled 'bug, p1', with the following post: 'It crashes.'.bob commented: Same here.dave commented: Fixed."
    );
    let plan = prepare_issue_request(&p, "issue_7".to_string(), "sys".to_string(), &post, &comments, false, false);
    assert_eq!(plan.text, r);
}

#[test]
fn thread_text_squeezes_long_posts() {
    let post = IssuePost {
        author: "a".to_string(),
        title: "t".to_string(),
        labels: vec![],
        body: Some("x".repeat(1_000)),
    };
    let comments = vec![IssueComment { author: "b".to_string(), body: Some("y".repeat(1_000)) }];
    let p = SelectorPolicy::for_issues();
    let sparse = issue_thread_text(&post, &comments, &p, true);
    let normal = issue_thread_text(&post, &comments, &p, false);
    assert_eq!(sparse.matches('x').count(), 500);
    assert_eq!(sparse.matches('y').count(), 300);
    assert_eq!(normal.matches('x').count(), 400);
    assert_eq!(normal.matches('y').count(), 200);
}
