//! Trimming a commit patch before it is summarised: a long patch keeps only
//! its message (what precedes the first file diff); a shorter one loses the
//! lines of its file diffs that hold brackets or braces.

use vstd::prelude::*;
use crate::model::{
    RequestPlan, SelectorPolicy, skews_in_scale, tier_for, context_for, plan_request,
};
use crate::squeeze::{occurs_at, matches_at, keep_head_tail, first_occurrence_from, find_from};
use crate::text::{chars_of, string_of};

verus! {

/// The line that opens the diff of one file.
pub const DIFF_MARKER: &'static str = "diff --git";

/// A patch with more lines than this keeps only its message.
pub const MAX_PATCH_LINES: usize = 600;

/// The length of the line ending at index `i` of `s`: 1 for `"\n"`, 2 for
/// `"\r\n"`, 0 where no line ends.
pub open spec fn line_break_len(s: Seq<char>, i: int) -> nat {
    if 0 <= i < s.len() && s[i] == '\n' {
        1
    } else if 0 <= i && i + 1 < s.len() && s[i] == '\r' && s[i + 1] == '\n' {
        2
    } else {
        0
    }
}

/// The lines of `s` from index `i` on, where `cur` is the part of the
/// current line already read. Lines end at `"\n"` or `"\r\n"`, which they
/// do not hold; a text that ends with a line ending has no empty line after
/// it.
pub open spec fn lines_from(s: Seq<char>, i: nat, cur: Seq<char>) -> Seq<Seq<char>>
    decreases s.len() - i,
{
    if i >= s.len() {
        if cur.len() == 0 {
            Seq::empty()
        } else {
            seq![cur]
        }
    } else if line_break_len(s, i as int) > 0 {
        seq![cur] + lines_from(s, i + line_break_len(s, i as int), Seq::empty())
    } else {
        lines_from(s, i + 1, cur.push(s[i as int]))
    }
}

/// The lines of `s`.
pub open spec fn lines(s: Seq<char>) -> Seq<Seq<char>> {
    lines_from(s, 0, Seq::empty())
}

/// Characters that mark a line of a file diff as code rather than prose.
pub open spec fn is_structural(c: char) -> bool {
    c == '[' || c == ']' || c == '{' || c == '}'
}

/// Whether line `l` holds a structural character.
pub open spec fn has_structural(l: Seq<char>) -> bool {
    exists|k: int| 0 <= k < l.len() && is_structural(#[trigger] l[k])
}

/// What one line of a patch contributes, and whether the next line is
/// inside a file diff. A marker line opens a file diff; inside one, lines
/// with a structural character are dropped; an empty line closes it.
pub open spec fn patch_line(l: Seq<char>, inside: bool) -> (Seq<char>, bool) {
    if occurs_at(l, 0, DIFF_MARKER@) {
        (l.push('\n'), true)
    } else if inside && has_structural(l) {
        (Seq::empty(), inside)
    } else {
        (l.push('\n'), inside && l.len() > 0)
    }
}

/// The kept lines of `ls`, each followed by `'\n'`.
pub open spec fn filter_patch_lines(ls: Seq<Seq<char>>, inside: bool) -> Seq<char>
    decreases ls.len(),
{
    if ls.len() == 0 {
        Seq::empty()
    } else {
        let (e, next) = patch_line(ls[0], inside);
        e + filter_patch_lines(ls.drop_first(), next)
    }
}

/// `s` up to the first diff marker (all of `s` when there is none).
pub open spec fn patch_message(s: Seq<char>) -> Seq<char> {
    s.take(first_occurrence_from(s, DIFF_MARKER@, 0) as int)
}

/// The patch text that is handed on for summarising.
pub open spec fn stripped_patch(s: Seq<char>, sparse: bool) -> Seq<char> {
    if lines(s).len() > MAX_PATCH_LINES {
        patch_message(s)
    } else if sparse {
        s
    } else {
        filter_patch_lines(lines(s), false)
    }
}

/// Splitting a line off the front of the rest of the text.
proof fn lemma_lines_step(s: Seq<char>, i: nat, cur: Seq<char>)
    requires
        i < s.len(),
    ensures
        line_break_len(s, i as int) > 0 ==> lines_from(s, i, cur) == seq![cur] + lines_from(
            s,
            i + line_break_len(s, i as int),
            Seq::empty(),
        ),
        line_break_len(s, i as int) == 0 ==> lines_from(s, i, cur) == lines_from(
            s,
            i + 1,
            cur.push(s[i as int]),
        ),
{
}

/// The length of the line ending at index `i` (see `line_break_len`).
fn break_len(s: &Vec<char>, i: usize) -> (r: usize)
    requires
        i < s.len(),
    ensures
        r == line_break_len(s@, i as int),
        r <= 2,
        i + r <= s.len(),
{
    if s[i] == '\n' {
        1
    } else if s[i] == '\r' && i + 1 < s.len() && s[i + 1] == '\n' {
        2
    } else {
        0
    }
}

/// Filtering a sequence of lines whose first line is `l`.
proof fn lemma_filter_cons(l: Seq<char>, rest: Seq<Seq<char>>, inside: bool)
    ensures
        filter_patch_lines(seq![l] + rest, inside) == patch_line(l, inside).0 + filter_patch_lines(
            rest,
            patch_line(l, inside).1,
        ),
{
    let ls = seq![l] + rest;
    assert(ls[0] == l);
    assert(ls.drop_first() =~= rest);
}

/// The number of lines of `s`.
pub fn line_count(s: &Vec<char>) -> (n: usize)
    ensures
        n == lines(s@).len(),
{
    let mut n: usize = 0;
    let mut i: usize = 0;
    let mut cur_len: usize = 0;
    let ghost mut cur: Seq<char> = Seq::empty();
    while i < s.len()
        invariant
            i <= s.len(),
            n + cur.len() <= i,
            cur_len == cur.len(),
            n + lines_from(s@, i as nat, cur).len() == lines(s@).len(),
        decreases s.len() - i,
    {
        proof {
            lemma_lines_step(s@, i as nat, cur);
        }
        let brk = break_len(s, i);
        if brk > 0 {
            n = n + 1;
            cur_len = 0;
            proof {
                cur = Seq::empty();
            }
            i = i + brk;
        } else {
            proof {
                cur = cur.push(s@[i as int]);
            }
            cur_len = cur_len + 1;
            i = i + 1;
        }
    }
    if cur_len > 0 {
        n = n + 1;
    }
    n
}

/// Whether line `l` holds a structural character.
pub fn line_has_structural(l: &Vec<char>) -> (r: bool)
    ensures
        r == has_structural(l@),
{
    let mut k: usize = 0;
    while k < l.len()
        invariant
            k <= l.len(),
            forall|j: int| 0 <= j < k ==> !is_structural(l@[j]),
        decreases l.len() - k,
    {
        let c = l[k];
        if c == '[' || c == ']' || c == '{' || c == '}' {
            assert(is_structural(l@[k as int]));
            return true;
        }
        k = k + 1;
    }
    false
}

/// Appends the characters of `l` and a line break to `out`.
fn push_line(out: &mut Vec<char>, l: &Vec<char>)
    ensures
        final(out)@ == old(out)@ + l@.push('\n'),
{
    let ghost start = out@;
    let mut k: usize = 0;
    while k < l.len()
        invariant
            k <= l.len(),
            out@ == start + l@.take(k as int),
        decreases l.len() - k,
    {
        out.push(l[k]);
        assert(l@.take(k as int).push(l@[k as int]) =~= l@.take(k + 1));
        assert(start + l@.take(k + 1) =~= (start + l@.take(k as int)).push(l@[k as int]));
        k = k + 1;
    }
    out.push('\n');
    assert(l@.take(l.len() as int) =~= l@);
    assert(start + l@.push('\n') =~= (start + l@).push('\n'));
}

/// Handles one line of a patch (see `patch_line`): appends what it
/// contributes to `out` and returns whether the next line is inside a
/// file diff.
fn filter_one_line(out: &mut Vec<char>, l: &Vec<char>, marker: &Vec<char>, inside: bool) -> (next:
    bool)
    requires
        marker@ == DIFF_MARKER@,
    ensures
        final(out)@ == old(out)@ + patch_line(l@, inside).0,
        next == patch_line(l@, inside).1,
{
    if matches_at(l, 0, marker) {
        push_line(out, l);
        true
    } else if inside && line_has_structural(l) {
        assert(old(out)@ + Seq::<char>::empty() =~= old(out)@);
        inside
    } else {
        push_line(out, l);
        inside && l.len() > 0
    }
}

/// The kept lines of a patch of at most `MAX_PATCH_LINES` lines (see
/// `filter_patch_lines`).
pub fn filter_patch(s: &Vec<char>) -> (r: Vec<char>)
    ensures
        r@ == filter_patch_lines(lines(s@), false),
{
    let marker = chars_of(DIFF_MARKER);
    let mut out: Vec<char> = Vec::new();
    let mut cur: Vec<char> = Vec::new();
    let mut inside = false;
    let mut i: usize = 0;
    while i < s.len()
        invariant
            marker@ == DIFF_MARKER@,
            i <= s.len(),
            out@ + filter_patch_lines(lines_from(s@, i as nat, cur@), inside) == filter_patch_lines(
                lines(s@),
                false,
            ),
        decreases s.len() - i,
    {
        proof {
            lemma_lines_step(s@, i as nat, cur@);
        }
        let brk = break_len(s, i);
        if brk > 0 {
            let ghost rest = lines_from(s@, (i + brk) as nat, Seq::empty());
            let ghost before = out@;
            proof {
                lemma_filter_cons(cur@, rest, inside);
            }
            let next = filter_one_line(&mut out, &cur, &marker, inside);
            assert(before + (patch_line(cur@, inside).0 + filter_patch_lines(rest, next)) =~= out@
                + filter_patch_lines(rest, next));
            inside = next;
            cur = Vec::new();
            assert(cur@ =~= Seq::<char>::empty());
            i = i + brk;
        } else {
            cur.push(s[i]);
            i = i + 1;
        }
    }
    if cur.len() > 0 {
        let ghost before = out@;
        proof {
            lemma_filter_cons(cur@, Seq::empty(), inside);
            assert(seq![cur@] + Seq::<Seq<char>>::empty() =~= seq![cur@]);
        }
        let next = filter_one_line(&mut out, &cur, &marker, inside);
        assert(before + (patch_line(cur@, inside).0 + Seq::<char>::empty()) =~= out@);
    } else {
        assert(out@ + Seq::<char>::empty() =~= out@);
    }
    out
}

/// Trims a commit patch for summarising: a patch of more than
/// `MAX_PATCH_LINES` lines keeps only what precedes its first diff marker;
/// otherwise a sparse batch keeps it whole, and any other batch drops the
/// lines of its file diffs that hold brackets or braces.
pub fn strip_commit_patch(text: &str, sparse: bool) -> (r: String)
    ensures
        r@ == stripped_patch(text@, sparse),
{
    let s = chars_of(text);
    if line_count(&s) > MAX_PATCH_LINES {
        let marker = chars_of(DIFF_MARKER);
        let end = find_from(&s, &marker, 0);
        let mut head: Vec<char> = Vec::new();
        let mut k: usize = 0;
        while k < end
            invariant
                end == first_occurrence_from(s@, DIFF_MARKER@, 0),
                end <= s.len(),
                k <= end,
                head@ == s@.take(k as int),
            decreases end - k,
        {
            head.push(s[k]);
            assert(s@.take(k as int).push(s@[k as int]) =~= s@.take(k + 1));
            k = k + 1;
        }
        string_of(&head)
    } else if sparse {
        string_of(&s)
    } else {
        let kept = filter_patch(&s);
        string_of(&kept)
    }
}

/// Plans the summarising request of a commit patch: the patch is trimmed
/// (see `strip_commit_patch`), the profile is chosen from the length of
/// what is left, and that is squeezed by the profile's context setting.
pub fn prepare_commit_request(
    policy: &SelectorPolicy,
    request_id: String,
    system_prompt: String,
    patch: &str,
    sparse_mode: bool,
    turbo: bool,
) -> (r: RequestPlan)
    requires
        skews_in_scale(*policy),
    ensures
        r.profile.tier == tier_for(*policy, stripped_patch(patch@, sparse_mode).len(), turbo),
        r.profile.request_id == request_id,
        r.profile.system_prompt == system_prompt,
        r.profile.restart,
        r.profile.context == context_for(*policy, turbo),
        r.profile.max_output_size == policy.max_output_size,
        r.profile.temperature_pct == policy.temperature_pct,
        r.text@ == keep_head_tail(
            stripped_patch(patch@, sparse_mode),
            context_for(*policy, turbo).target as nat,
            context_for(*policy, turbo).skew as nat,
        ),
{
    let stripped = strip_commit_patch(patch, sparse_mode);
    plan_request(policy, request_id, system_prompt, stripped.as_str(), sparse_mode, turbo)
}

} // verus!
