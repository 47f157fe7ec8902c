//! Preparing the inputs of the calls that relate several summaries to one
//! another: shares of one budget for the activity sources of a week, and
//! fixed cuts for the comparison of a user with a home project.

use vstd::prelude::*;
use crate::budget::{Source, section_of, present_weight, labelled_sections, share};
use crate::squeeze::{SKEW_SCALE, head_share, head_size};
use crate::text::{prefix_of, take_chars};

verus! {

/// The budget of the activity sources of a week, in tokens.
pub const ACTIVITY_BUDGET: u64 = 16_000;

/// Characters counted per token when a text is cut to its share.
pub const CHARS_PER_TOKEN: u64 = 3;

/// The weights of the profile, commit, issue and discussion sources.
pub const PROFILE_WEIGHT: u64 = 1;
pub const COMMIT_WEIGHT: u64 = 4;
pub const ISSUE_WEIGHT: u64 = 4;
pub const DISCUSSION_WEIGHT: u64 = 2;

/// The weighted source named `name`.
pub open spec fn source_spec(s: Source, name: Seq<char>, weight: u64, text: Option<String>) -> bool {
    s.name@ == name && s.weight == weight && s.text == text
}

fn make_source(name: &str, weight: u64, text: Option<String>) -> (r: Source)
    ensures
        source_spec(r, name@, weight, text),
{
    Source { name: String::from_str(name), weight, text }
}

/// The four activity sources of a week, in order: profile data, commit
/// logs, issue posts and discussion posts, weighted 1, 4, 4 and 2.
pub fn activity_sources(
    profile: Option<String>,
    commits: Option<String>,
    issues: Option<String>,
    discussions: Option<String>,
) -> (r: Vec<Source>)
    ensures
        r.len() == 4,
        source_spec(r[0], "profile data"@, PROFILE_WEIGHT, profile),
        source_spec(r[1], "commit logs"@, COMMIT_WEIGHT, commits),
        source_spec(r[2], "issue post"@, ISSUE_WEIGHT, issues),
        source_spec(r[3], "discussion posts"@, DISCUSSION_WEIGHT, discussions),
{
    let mut v: Vec<Source> = Vec::new();
    v.push(make_source("profile data", PROFILE_WEIGHT, profile));
    v.push(make_source("commit logs", COMMIT_WEIGHT, commits));
    v.push(make_source("issue post", ISSUE_WEIGHT, issues));
    v.push(make_source("discussion posts", DISCUSSION_WEIGHT, discussions));
    v
}

/// The weight of `text` when present.
pub open spec fn weight_if_present(weight: u64, text: Option<String>) -> nat {
    if text is Some {
        weight as nat
    } else {
        0
    }
}

/// The sum of the weights of the activity sources that are present.
pub open spec fn activity_weight(
    profile: Option<String>,
    commits: Option<String>,
    issues: Option<String>,
    discussions: Option<String>,
) -> nat {
    weight_if_present(PROFILE_WEIGHT, profile) + weight_if_present(COMMIT_WEIGHT, commits)
        + weight_if_present(ISSUE_WEIGHT, issues) + weight_if_present(DISCUSSION_WEIGHT, discussions)
}

/// The section `label: text` of a present source, its text cut to its
/// share of `ACTIVITY_BUDGET` for a weight sum of `sum`; nothing for an
/// absent one.
pub open spec fn activity_section(label: Seq<char>, weight: u64, text: Option<String>, sum: nat) -> Seq<
    char,
> {
    match text {
        Some(t) => label + ": "@ + prefix_of(
            t@,
            share(ACTIVITY_BUDGET as nat, weight as nat, sum) * CHARS_PER_TOKEN as nat,
        ),
        None => Seq::empty(),
    }
}

/// The four labelled sections of a week's activity prompt, in the order of
/// `activity_sources`: each present source gets its share of
/// `ACTIVITY_BUDGET` tokens, at `CHARS_PER_TOKEN` characters a token; an
/// absent one gives an empty section.
pub fn activity_sections(
    profile: Option<String>,
    commits: Option<String>,
    issues: Option<String>,
    discussions: Option<String>,
) -> (r: Vec<String>)
    ensures
        r.len() == 4,
        ({
            let sum = activity_weight(profile, commits, issues, discussions);
            &&& r[0]@ == activity_section("profile data"@, PROFILE_WEIGHT, profile, sum)
            &&& r[1]@ == activity_section("commit logs"@, COMMIT_WEIGHT, commits, sum)
            &&& r[2]@ == activity_section("issue post"@, ISSUE_WEIGHT, issues, sum)
            &&& r[3]@ == activity_section("discussion posts"@, DISCUSSION_WEIGHT, discussions, sum)
        }),
{
    let ghost (p0, c0, i0, d0) = (profile, commits, issues, discussions);
    let sources = activity_sources(profile, commits, issues, discussions);
    let r = labelled_sections(ACTIVITY_BUDGET, &sources, CHARS_PER_TOKEN);
    proof {
        let s = sources@;
        assert(s.drop_last().drop_last().drop_last().drop_last() =~= Seq::<Source>::empty());
        assert(present_weight(s) == activity_weight(p0, c0, i0, d0)) by {
            reveal_with_fuel(present_weight, 5);
            assert(s.drop_last().last() == s[2]);
            assert(s.drop_last().drop_last().last() == s[1]);
            assert(s.drop_last().drop_last().drop_last().last() == s[0]);
        }
        assert(r[0]@ == section_of(
            s[0],
            ACTIVITY_BUDGET as nat,
            present_weight(s),
            CHARS_PER_TOKEN as nat,
        ));
        assert(r[1]@ == section_of(
            s[1],
            ACTIVITY_BUDGET as nat,
            present_weight(s),
            CHARS_PER_TOKEN as nat,
        ));
        assert(r[2]@ == section_of(
            s[2],
            ACTIVITY_BUDGET as nat,
            present_weight(s),
            CHARS_PER_TOKEN as nat,
        ));
        assert(r[3]@ == section_of(
            s[3],
            ACTIVITY_BUDGET as nat,
            present_weight(s),
            CHARS_PER_TOKEN as nat,
        ));
    }
    r
}

/// The commit and issue summaries cut to fit `total` characters together:
/// when they already fit both are kept; otherwise the commits keep their
/// first `split` thousandths of `total` (rounded) and the issues the first
/// rest of it.
pub open spec fn fitted_pair(commits: Seq<char>, issues: Seq<char>, total: nat, split: nat) -> (Seq<
    char,
>, Seq<char>) {
    if commits.len() + issues.len() <= total {
        (commits, issues)
    } else {
        let c = head_share(total, split);
        (prefix_of(commits, c), prefix_of(issues, (total - c) as nat))
    }
}

/// Cuts the commit and issue summaries to fit `total` characters together
/// (see `fitted_pair`).
pub fn squeeze_fit_commits_issues(commits: &str, issues: &str, total: usize, split: u32) -> (r: (
    String,
    String,
))
    requires
        split <= SKEW_SCALE,
    ensures
        (r.0@, r.1@) == fitted_pair(commits@, issues@, total as nat, split as nat),
        r.0@.len() + r.1@.len() <= total || commits@.len() + issues@.len() <= total,
{
    let lc = commits.unicode_len();
    let li = issues.unicode_len();
    if lc <= total && li <= total - lc {
        return (String::from_str(commits), String::from_str(issues));
    }
    let c = head_size(total, split);
    (take_chars(commits, c), take_chars(issues, total - c))
}

/// Characters of a README that are summarised.
pub const README_LIMIT: usize = 20_000;

/// Characters kept of each input when a user is compared with a home
/// project.
pub const HOME_REPO_LIMIT: usize = 6_000;
pub const USER_PROFILE_LIMIT: usize = 4_000;
pub const USER_ISSUES_LIMIT: usize = 9_000;
pub const USER_REPOS_LIMIT: usize = 6_000;
pub const USER_DISCUSSIONS_LIMIT: usize = 4_000;

/// The inputs of the comparison of a user with a home project.
pub struct HomeProjectInputs {
    pub home_repo: String,
    pub user_profile: String,
    pub issues: String,
    pub repos: String,
    pub discussions: String,
}

/// Cuts each input of the comparison of a user with a home project to its
/// fixed number of characters.
pub fn trim_home_project_inputs(
    home_repo: &str,
    user_profile: &str,
    issues: &str,
    repos: &str,
    discussions: &str,
) -> (r: HomeProjectInputs)
    ensures
        r.home_repo@ == prefix_of(home_repo@, HOME_REPO_LIMIT as nat),
        r.user_profile@ == prefix_of(user_profile@, USER_PROFILE_LIMIT as nat),
        r.issues@ == prefix_of(issues@, USER_ISSUES_LIMIT as nat),
        r.repos@ == prefix_of(repos@, USER_REPOS_LIMIT as nat),
        r.discussions@ == prefix_of(discussions@, USER_DISCUSSIONS_LIMIT as nat),
{
    HomeProjectInputs {
        home_repo: take_chars(home_repo, HOME_REPO_LIMIT),
        user_profile: take_chars(user_profile, USER_PROFILE_LIMIT),
        issues: take_chars(issues, USER_ISSUES_LIMIT),
        repos: take_chars(repos, USER_REPOS_LIMIT),
        discussions: take_chars(discussions, USER_DISCUSSIONS_LIMIT),
    }
}

} // verus!
