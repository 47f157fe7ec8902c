//! Choosing the request profile of a summarising call from the size of its
//! input and the size of the batch, and naming requests.

use vstd::prelude::*;
use crate::squeeze::{SKEW_SCALE, keep_head_tail, squeeze_fit_post_texts};
use crate::text::{chars_of, prefix_of, push_char};

verus! {

/// The two model profiles: a cheaper one with a smaller context window and
/// one with a larger context window.
#[derive(Clone, Copy, Debug, PartialEq, Eq, Structural)]
pub enum ModelTier {
    Standard,
    Extended,
}

/// How one text is squeezed: its target size in characters and its skew
/// in thousandths.
#[derive(Clone, Copy, Debug, PartialEq, Eq, Structural)]
pub struct SqueezeSetting {
    pub target: usize,
    pub skew: u32,
}

/// The numbers that one kind of call site is tuned by.
#[derive(Clone, Copy, Debug, PartialEq, Eq, Structural)]
pub struct SelectorPolicy {
    /// An input longer than this asks for the extended tier.
    pub extended_threshold: usize,
    /// The squeeze of the whole input in an ordinary batch.
    pub context: SqueezeSetting,
    /// The squeeze of the whole input in a turbo batch (too much input).
    pub turbo_context: SqueezeSetting,
    /// The squeeze of one post in an ordinary batch.
    pub post: SqueezeSetting,
    /// The squeeze of one post in a sparse batch (little input).
    pub sparse_post: SqueezeSetting,
    /// The squeeze of one comment in an ordinary batch.
    pub comment: SqueezeSetting,
    /// The squeeze of one comment in a sparse batch.
    pub sparse_comment: SqueezeSetting,
    /// The most the model may answer with, in tokens.
    pub max_output_size: u32,
    /// The sampling temperature, in hundredths.
    pub temperature_pct: u32,
}

/// The profile of one summarising request.
pub struct ChatRequestProfile {
    pub tier: ModelTier,
    /// Names the request, the same for the same item on every run, so that
    /// the chat client can recognise a repeated request.
    pub request_id: String,
    pub system_prompt: String,
    pub max_output_size: u32,
    pub temperature_pct: u32,
    /// Whether the request starts a fresh conversation.
    pub restart: bool,
    /// The squeeze of the whole input.
    pub context: SqueezeSetting,
    /// The squeeze of each post.
    pub post: SqueezeSetting,
    /// The squeeze of each comment.
    pub comment: SqueezeSetting,
}

/// Whether every skew of `p` is within the scale.
pub open spec fn skews_in_scale(p: SelectorPolicy) -> bool {
    &&& p.context.skew <= SKEW_SCALE
    &&& p.turbo_context.skew <= SKEW_SCALE
    &&& p.post.skew <= SKEW_SCALE
    &&& p.sparse_post.skew <= SKEW_SCALE
    &&& p.comment.skew <= SKEW_SCALE
    &&& p.sparse_comment.skew <= SKEW_SCALE
}

/// The tier for an input of `input_size` characters: the extended one when
/// the input passes the threshold, unless the batch is a turbo one, whose
/// input is squeezed to fit the standard tier.
pub open spec fn tier_for(p: SelectorPolicy, input_size: nat, turbo: bool) -> ModelTier {
    if !turbo && input_size > p.extended_threshold {
        ModelTier::Extended
    } else {
        ModelTier::Standard
    }
}

/// The squeeze of the whole input.
pub open spec fn context_for(p: SelectorPolicy, turbo: bool) -> SqueezeSetting {
    if turbo {
        p.turbo_context
    } else {
        p.context
    }
}

/// The squeeze of each post.
pub open spec fn post_for(p: SelectorPolicy, sparse: bool) -> SqueezeSetting {
    if sparse {
        p.sparse_post
    } else {
        p.post
    }
}

/// The squeeze of each comment.
pub open spec fn comment_for(p: SelectorPolicy, sparse: bool) -> SqueezeSetting {
    if sparse {
        p.sparse_comment
    } else {
        p.comment
    }
}

impl SelectorPolicy {
    /// The numbers used for issues: posts of 400 characters (500 in a
    /// sparse batch), comments of 200 (300), the whole thread squeezed to
    /// 12,000 characters (3,000 in a turbo batch), the extended tier past
    /// 12,000 characters.
    pub fn for_issues() -> (p: SelectorPolicy)
        ensures
            skews_in_scale(p),
            p.extended_threshold == 12_000,
            p.context == (SqueezeSetting { target: 12_000, skew: 400 }),
            p.turbo_context == (SqueezeSetting { target: 3_000, skew: 400 }),
            p.post == (SqueezeSetting { target: 400, skew: 700 }),
            p.sparse_post == (SqueezeSetting { target: 500, skew: 600 }),
            p.comment == (SqueezeSetting { target: 200, skew: 700 }),
            p.sparse_comment == (SqueezeSetting { target: 300, skew: 600 }),
            p.max_output_size == 128,
            p.temperature_pct == 70,
    {
        SelectorPolicy {
            extended_threshold: 12_000,
            context: SqueezeSetting { target: 12_000, skew: 400 },
            turbo_context: SqueezeSetting { target: 3_000, skew: 400 },
            post: SqueezeSetting { target: 400, skew: 700 },
            sparse_post: SqueezeSetting { target: 500, skew: 600 },
            comment: SqueezeSetting { target: 200, skew: 700 },
            sparse_comment: SqueezeSetting { target: 300, skew: 600 },
            max_output_size: 128,
            temperature_pct: 70,
        }
    }

    /// The numbers used for commit patches: as for issues, but the patch
    /// is squeezed with a skew of 600.
    pub fn for_commits() -> (p: SelectorPolicy)
        ensures
            skews_in_scale(p),
            p.extended_threshold == 12_000,
            p.context == (SqueezeSetting { target: 12_000, skew: 600 }),
            p.turbo_context == (SqueezeSetting { target: 3_000, skew: 600 }),
            p.post == (SqueezeSetting { target: 400, skew: 700 }),
            p.sparse_post == (SqueezeSetting { target: 500, skew: 600 }),
            p.comment == (SqueezeSetting { target: 200, skew: 700 }),
            p.sparse_comment == (SqueezeSetting { target: 300, skew: 600 }),
            p.max_output_size == 128,
            p.temperature_pct == 70,
    {
        SelectorPolicy {
            extended_threshold: 12_000,
            context: SqueezeSetting { target: 12_000, skew: 600 },
            turbo_context: SqueezeSetting { target: 3_000, skew: 600 },
            post: SqueezeSetting { target: 400, skew: 700 },
            sparse_post: SqueezeSetting { target: 500, skew: 600 },
            comment: SqueezeSetting { target: 200, skew: 700 },
            sparse_comment: SqueezeSetting { target: 300, skew: 600 },
            max_output_size: 128,
            temperature_pct: 70,
        }
    }
}

/// The profile of a request whose input has `input_size` characters, in a
/// sparse batch (little input) or a turbo batch (too much input) or
/// neither. Every request starts a fresh conversation.
pub fn select(
    policy: &SelectorPolicy,
    request_id: String,
    system_prompt: String,
    input_size: usize,
    sparse_mode: bool,
    turbo: bool,
) -> (r: ChatRequestProfile)
    ensures
        r.tier == tier_for(*policy, input_size as nat, turbo),
        r.request_id == request_id,
        r.system_prompt == system_prompt,
        r.max_output_size == policy.max_output_size,
        r.temperature_pct == policy.temperature_pct,
        r.restart,
        r.context == context_for(*policy, turbo),
        r.post == post_for(*policy, sparse_mode),
        r.comment == comment_for(*policy, sparse_mode),
{
    let tier = if !turbo && input_size > policy.extended_threshold {
        ModelTier::Extended
    } else {
        ModelTier::Standard
    };
    ChatRequestProfile {
        tier,
        request_id,
        system_prompt,
        max_output_size: policy.max_output_size,
        temperature_pct: policy.temperature_pct,
        restart: true,
        context: if turbo {
            policy.turbo_context
        } else {
            policy.context
        },
        post: if sparse_mode {
            policy.sparse_post
        } else {
            policy.post
        },
        comment: if sparse_mode {
            policy.sparse_comment
        } else {
            policy.comment
        },
    }
}

/// A request ready to send: its profile and its input squeezed to fit.
pub struct RequestPlan {
    pub profile: ChatRequestProfile,
    pub text: String,
}

/// Plans the request for `input`: the profile is chosen from the length of
/// `input` (see `select`), and `input` is squeezed to a head and a tail by
/// the profile's context setting.
pub fn plan_request(
    policy: &SelectorPolicy,
    request_id: String,
    system_prompt: String,
    input: &str,
    sparse_mode: bool,
    turbo: bool,
) -> (r: RequestPlan)
    requires
        skews_in_scale(*policy),
    ensures
        r.profile.tier == tier_for(*policy, input@.len(), turbo),
        r.profile.request_id == request_id,
        r.profile.system_prompt == system_prompt,
        r.profile.max_output_size == policy.max_output_size,
        r.profile.temperature_pct == policy.temperature_pct,
        r.profile.restart,
        r.profile.context == context_for(*policy, turbo),
        r.profile.post == post_for(*policy, sparse_mode),
        r.profile.comment == comment_for(*policy, sparse_mode),
        r.text@ == keep_head_tail(
            input@,
            context_for(*policy, turbo).target as nat,
            context_for(*policy, turbo).skew as nat,
        ),
{
    let size = input.unicode_len();
    let profile = select(policy, request_id, system_prompt, size, sparse_mode, turbo);
    let text = squeeze_fit_post_texts(input, profile.context.target, profile.context.skew);
    RequestPlan { profile, text }
}

/// In a sparse batch an input that stays under the threshold keeps the
/// standard tier and gets a larger squeeze budget per post and per comment
/// than the same input in an ordinary batch, when the policy says so.
pub proof fn lemma_sparse_relaxes_budget(p: SelectorPolicy, input_size: nat)
    requires
        input_size <= p.extended_threshold,
        p.sparse_post.target > p.post.target,
        p.sparse_comment.target > p.comment.target,
    ensures
        tier_for(p, input_size, false) == ModelTier::Standard,
        post_for(p, true).target > post_for(p, false).target,
        comment_for(p, true).target > comment_for(p, false).target,
{
}

/// The decimal digit for `d`.
pub open spec fn digit_char(d: nat) -> char {
    if d == 0 {
        '0'
    } else if d == 1 {
        '1'
    } else if d == 2 {
        '2'
    } else if d == 3 {
        '3'
    } else if d == 4 {
        '4'
    } else if d == 5 {
        '5'
    } else if d == 6 {
        '6'
    } else if d == 7 {
        '7'
    } else if d == 8 {
        '8'
    } else {
        '9'
    }
}

/// `n` written in decimal, without leading zeros.
pub open spec fn decimal(n: nat) -> Seq<char>
    decreases n,
{
    if n < 10 {
        seq![digit_char(n)]
    } else {
        decimal(n / 10).push(digit_char(n % 10))
    }
}

/// Appends `n` in decimal to `out`.
pub fn push_decimal(out: &mut String, n: u64)
    ensures
        final(out)@ == old(out)@ + decimal(n as nat),
    decreases n,
{
    if n >= 10 {
        push_decimal(out, n / 10);
    }
    let d = n % 10;
    let c = if d == 0 {
        '0'
    } else if d == 1 {
        '1'
    } else if d == 2 {
        '2'
    } else if d == 3 {
        '3'
    } else if d == 4 {
        '4'
    } else if d == 5 {
        '5'
    } else if d == 6 {
        '6'
    } else if d == 7 {
        '7'
    } else if d == 8 {
        '8'
    } else {
        '9'
    };
    let ghost mid = out@;
    push_char(out, c);
    if n >= 10 {
        assert(old(out)@ + decimal(n as nat) =~= (old(out)@ + decimal((n / 10) as nat)).push(c));
    } else {
        assert(old(out)@ + decimal(n as nat) =~= old(out)@.push(c));
    }
}

/// The prefix of the request identifier of an issue.
pub const ISSUE_ID_PREFIX: &'static str = "issue_";

/// The prefix of the request identifier of a commit.
pub const COMMIT_ID_PREFIX: &'static str = "commit-";

/// How many characters of a commit hash name its request.
pub const COMMIT_ID_LEN: usize = 5;

/// The request identifier of the issue numbered `number`: the same issue
/// always gets the same one.
pub fn issue_request_id(number: u64) -> (r: String)
    ensures
        r@ == ISSUE_ID_PREFIX@ + decimal(number as nat),
{
    let mut out = String::from_str(ISSUE_ID_PREFIX);
    push_decimal(&mut out, number);
    out
}

/// The index just past the last `'/'` of `s` before index `end`, or 0.
pub open spec fn segment_start(s: Seq<char>, end: nat) -> nat
    decreases end,
{
    if end == 0 || end > s.len() {
        0
    } else if s[end - 1] == '/' {
        end
    } else {
        segment_start(s, (end - 1) as nat)
    }
}

/// What follows the last `'/'` of `s` (all of `s` when it has none).
pub open spec fn last_segment(s: Seq<char>) -> Seq<char> {
    s.skip(segment_start(s, s.len()) as int)
}

proof fn lemma_segment_start_bound(s: Seq<char>, end: nat)
    ensures
        segment_start(s, end) <= s.len(),
        end <= s.len() ==> segment_start(s, end) <= end,
    decreases end,
{
    if end > 0 && end <= s.len() && s[end - 1] != '/' {
        lemma_segment_start_bound(s, (end - 1) as nat);
    }
}

/// The request identifier of the commit at `url`: the first characters of
/// the last path segment of the URL (its hash), after a fixed prefix.
pub fn commit_request_id(url: &str) -> (r: String)
    ensures
        r@ == COMMIT_ID_PREFIX@ + prefix_of(last_segment(url@), COMMIT_ID_LEN as nat),
{
    let s = chars_of(url);
    let mut start: usize = s.len();
    while start > 0 && s[start - 1] != '/'
        invariant
            start <= s.len(),
            segment_start(s@, start as nat) == segment_start(s@, s.len() as nat),
        decreases start,
    {
        start = start - 1;
    }
    proof {
        lemma_segment_start_bound(s@, s.len() as nat);
    }
    let mut out = String::from_str(COMMIT_ID_PREFIX);
    let ghost base = out@;
    let ghost seg = s@.skip(start as int);
    let mut k: usize = start;
    while k < s.len() && k - start < COMMIT_ID_LEN
        invariant
            start <= k <= s.len(),
            k - start <= COMMIT_ID_LEN,
            seg == s@.skip(start as int),
            out@ == base + seg.take(k - start),
        decreases s.len() - k,
    {
        assert(seg.take(k - start).push(seg[k - start]) =~= seg.take(k + 1 - start));
        push_char(&mut out, s[k]);
        k = k + 1;
    }
    proof {
        if seg.len() <= COMMIT_ID_LEN as nat {
            assert(seg.take(k - start) =~= seg);
        }
    }
    out
}

} // verus!
