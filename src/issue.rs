//! The text of an issue thread as it is handed to the summariser: the
//! opening post and each comment, every one squeezed to its budget.

use vstd::prelude::*;
use crate::model::{
    SqueezeSetting, SelectorPolicy, RequestPlan, skews_in_scale, post_for, comment_for, tier_for,
    context_for, plan_request,
};
use crate::squeeze::{CODE_FENCE, keep_head_tail, squeezed, squeeze_fit_remove_quoted};

verus! {

/// The opening post of an issue.
pub struct IssuePost {
    pub author: String,
    pub title: String,
    pub labels: Vec<String>,
    pub body: Option<String>,
}

/// One comment on an issue.
pub struct IssueComment {
    pub author: String,
    pub body: Option<String>,
}

/// `items` joined with `sep` between each two.
pub open spec fn joined(items: Seq<Seq<char>>, sep: Seq<char>) -> Seq<char>
    decreases items.len(),
{
    if items.len() == 0 {
        Seq::empty()
    } else if items.len() == 1 {
        items[0]
    } else {
        joined(items.drop_last(), sep) + sep + items.last()
    }
}

/// The squeeze of `s` by `setting`, with code blocks dropped.
pub open spec fn squeezed_by(s: Seq<char>, setting: SqueezeSetting) -> Seq<char> {
    squeezed(s, CODE_FENCE@, setting.target as nat, setting.skew as nat)
}

/// The views of the labels of an issue.
pub open spec fn label_views(labels: Seq<String>) -> Seq<Seq<char>> {
    labels.map_values(|l: String| l@)
}

/// The sentence that presents the opening post.
pub open spec fn post_text(p: IssuePost, setting: SqueezeSetting) -> Seq<char> {
    let body = match p.body {
        Some(b) => squeezed_by(b@, setting),
        None => Seq::empty(),
    };
    "User '"@ + p.author@ + "', opened an issue titled '"@ + p.title@ + "', labeled '"@ + joined(
        label_views(p.labels@),
        ", "@,
    ) + "', with the following post: '"@ + body + "'."@
}

/// The comments that have a body, each as `author commented: body`.
pub open spec fn comments_text(cs: Seq<IssueComment>, setting: SqueezeSetting) -> Seq<char>
    decreases cs.len(),
{
    if cs.len() == 0 {
        Seq::empty()
    } else {
        let c = cs.last();
        comments_text(cs.drop_last(), setting) + match c.body {
            Some(b) => c.author@ + " commented: "@ + squeezed_by(b@, setting),
            None => Seq::empty(),
        }
    }
}

/// The labels joined with a comma and a space.
pub fn join_labels(labels: &Vec<String>) -> (r: String)
    ensures
        r@ == joined(label_views(labels@), ", "@),
{
    let mut out = String::new();
    let mut i: usize = 0;
    while i < labels.len()
        invariant
            i <= labels.len(),
            out@ == joined(label_views(labels@.take(i as int)), ", "@),
        decreases labels.len() - i,
    {
        let ghost before = label_views(labels@.take(i as int));
        let ghost after = label_views(labels@.take(i + 1));
        assert(after.drop_last() =~= before);
        assert(after.last() == labels@[i as int]@);
        if i > 0 {
            out.append(", ");
        }
        out.append(labels[i].as_str());
        proof {
            if i == 0 {
                assert(after.len() == 1);
                assert(out@ =~= after[0]);
            }
        }
        i = i + 1;
    }
    assert(labels@.take(labels.len() as int) =~= labels@);
    out
}

/// The text of a thread: the opening post followed by the comments that
/// have a body. The post and the comments are squeezed by the policy's
/// settings for a sparse batch or an ordinary one.
pub fn issue_thread_text(
    post: &IssuePost,
    comments: &Vec<IssueComment>,
    policy: &SelectorPolicy,
    sparse_mode: bool,
) -> (r: String)
    requires
        skews_in_scale(*policy),
    ensures
        r@ == post_text(*post, post_for(*policy, sparse_mode)) + comments_text(
            comments@,
            comment_for(*policy, sparse_mode),
        ),
{
    let ps = if sparse_mode {
        policy.sparse_post
    } else {
        policy.post
    };
    let cs = if sparse_mode {
        policy.sparse_comment
    } else {
        policy.comment
    };
    let body = match &post.body {
        Some(b) => squeeze_fit_remove_quoted(b.as_str(), CODE_FENCE, ps.target, ps.skew),
        None => String::new(),
    };
    let labels = join_labels(&post.labels);
    let mut out = String::from_str("User '");
    out.append(post.author.as_str());
    out.append("', opened an issue titled '");
    out.append(post.title.as_str());
    out.append("', labeled '");
    out.append(labels.as_str());
    out.append("', with the following post: '");
    out.append(body.as_str());
    out.append("'.");
    let ghost head = out@;
    assert(head =~= post_text(*post, ps));
    let mut i: usize = 0;
    while i < comments.len()
        invariant
            i <= comments.len(),
            cs == comment_for(*policy, sparse_mode),
            skews_in_scale(*policy),
            out@ == head + comments_text(comments@.take(i as int), cs),
        decreases comments.len() - i,
    {
        let ghost before = comments@.take(i as int);
        let ghost after = comments@.take(i + 1);
        assert(after.drop_last() =~= before);
        assert(after.last() == comments@[i as int]);
        let c = &comments[i];
        match &c.body {
            Some(b) => {
                let sq = squeeze_fit_remove_quoted(b.as_str(), CODE_FENCE, cs.target, cs.skew);
                out.append(c.author.as_str());
                out.append(" commented: ");
                out.append(sq.as_str());
            },
            None => {},
        }
        assert(out@ =~= head + comments_text(after, cs));
        i = i + 1;
    }
    assert(comments@.take(comments.len() as int) =~= comments@);
    out
}

/// The text of a whole thread (see `issue_thread_text`).
pub open spec fn thread_text(
    post: IssuePost,
    comments: Seq<IssueComment>,
    policy: SelectorPolicy,
    sparse_mode: bool,
) -> Seq<char> {
    post_text(post, post_for(policy, sparse_mode)) + comments_text(
        comments,
        comment_for(policy, sparse_mode),
    )
}

/// Plans the summarising request of an issue thread: the profile is chosen
/// from the length of the thread's text, which is squeezed by the
/// profile's context setting.
pub fn prepare_issue_request(
    policy: &SelectorPolicy,
    request_id: String,
    system_prompt: String,
    post: &IssuePost,
    comments: &Vec<IssueComment>,
    sparse_mode: bool,
    turbo: bool,
) -> (r: RequestPlan)
    requires
        skews_in_scale(*policy),
    ensures
        r.profile.tier == tier_for(
            *policy,
            thread_text(*post, comments@, *policy, sparse_mode).len(),
            turbo,
        ),
        r.profile.request_id == request_id,
        r.profile.system_prompt == system_prompt,
        r.profile.restart,
        r.profile.context == context_for(*policy, turbo),
        r.profile.max_output_size == policy.max_output_size,
        r.profile.temperature_pct == policy.temperature_pct,
        r.text@ == keep_head_tail(
            thread_text(*post, comments@, *policy, sparse_mode),
            context_for(*policy, turbo).target as nat,
            context_for(*policy, turbo).skew as nat,
        ),
{
    let text = issue_thread_text(post, comments, policy, sparse_mode);
    plan_request(policy, request_id, system_prompt, text.as_str(), sparse_mode, turbo)
}

} // verus!
