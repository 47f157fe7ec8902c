//! Trimming one text to a size budget: fenced blocks (all of them, or all
//! but the first few) are dropped and the rest is cut down to a head part
//! and a tail part.
//!
//! Sizes are counted in characters. A skew is given in thousandths: a skew
//! of 600 keeps 60% of the budget from the head and 40% from the tail.

use vstd::prelude::*;
use crate::text::{chars_of, string_of};

verus! {

/// The scale of a skew: a skew of `SKEW_SCALE` keeps the head only.
pub const SKEW_SCALE: u32 = 1000;

/// The fence that opens and closes a quoted code block in markdown.
pub const CODE_FENCE: &'static str = "```";

/// How much of `target` goes to the head: `target * skew / 1000`, rounded
/// to the nearest integer (halves round up).
pub open spec fn head_share(target: nat, skew: nat) -> nat {
    (target * skew + 500) / 1000
}

/// `s` cut down to `target` characters: the first `head_share` characters
/// followed by the last `target - head_share` ones. Text that fits is kept.
pub open spec fn keep_head_tail(s: Seq<char>, target: nat, skew: nat) -> Seq<char> {
    if s.len() <= target {
        s
    } else {
        let h = head_share(target, skew);
        s.take(h as int) + s.skip(s.len() - (target - h))
    }
}

/// Whether `m` occurs in `s` starting at index `i`.
pub open spec fn occurs_at(s: Seq<char>, i: int, m: Seq<char>) -> bool {
    0 <= i && i + m.len() <= s.len() && s.subrange(i, i + m.len()) == m
}

/// The index of the first occurrence of `m` in `s` at or after `i`, or the
/// length of `s` when there is none.
pub open spec fn first_occurrence_from(s: Seq<char>, m: Seq<char>, i: nat) -> nat
    decreases s.len() - i,
{
    if i >= s.len() || i + m.len() > s.len() {
        s.len()
    } else if occurs_at(s, i as int, m) {
        i
    } else {
        first_occurrence_from(s, m, i + 1)
    }
}

/// The first occurrence lies within the text.
pub proof fn lemma_first_occurrence_bound(s: Seq<char>, m: Seq<char>, i: nat)
    ensures
        first_occurrence_from(s, m, i) <= s.len(),
    decreases s.len() - i,
{
    if !(i >= s.len() || i + m.len() > s.len()) && !occurs_at(s, i as int, m) {
        lemma_first_occurrence_bound(s, m, i + 1);
    }
}

/// What is left of `s` from index `i` on once the fenced blocks after the
/// first `keep` are removed, fences included. `inside` tells whether index
/// `i` lies inside a fenced block, and `opened` counts the blocks opened
/// before `i`. A fenced block runs from a fence to the next one; a fence
/// that no later fence closes is plain text, as is all that follows it.
pub open spec fn unfenced_from(
    s: Seq<char>,
    fence: Seq<char>,
    keep: nat,
    i: nat,
    inside: bool,
    opened: nat,
) -> Seq<char>
    decreases s.len() - i,
{
    if fence.len() == 0 {
        s.skip(i as int)
    } else if i >= s.len() {
        Seq::empty()
    } else if occurs_at(s, i as int, fence) {
        if !inside && first_occurrence_from(s, fence, i + fence.len()) >= s.len() {
            fence + unfenced_from(s, fence, keep, i + fence.len(), inside, opened)
        } else {
            let now_opened = if inside {
                opened
            } else {
                opened + 1
            };
            (if now_opened <= keep {
                fence
            } else {
                Seq::empty()
            }) + unfenced_from(s, fence, keep, i + fence.len(), !inside, now_opened)
        }
    } else if inside && opened > keep {
        unfenced_from(s, fence, keep, i + 1, inside, opened)
    } else {
        seq![s[i as int]] + unfenced_from(s, fence, keep, i + 1, inside, opened)
    }
}

/// `s` with its fenced blocks after the first `keep` removed.
pub open spec fn unfenced(s: Seq<char>, fence: Seq<char>, keep: nat) -> Seq<char> {
    unfenced_from(s, fence, keep, 0, false, 0)
}

/// The squeeze of `s`: unchanged when it fits in `target`, else the text
/// left once the fenced blocks after the first `keep` are removed, cut to
/// a head and a tail.
pub open spec fn squeezed_keeping(
    s: Seq<char>,
    fence: Seq<char>,
    keep: nat,
    target: nat,
    skew: nat,
) -> Seq<char> {
    if s.len() <= target {
        s
    } else {
        keep_head_tail(unfenced(s, fence, keep), target, skew)
    }
}

/// The squeeze of `s` that drops every fenced block.
pub open spec fn squeezed(s: Seq<char>, fence: Seq<char>, target: nat, skew: nat) -> Seq<char> {
    squeezed_keeping(s, fence, 0, target, skew)
}

/// The first occurrence at or after `a` is at `c` when `c` is one and none
/// starts before it.
proof fn lemma_first_occurrence_at(s: Seq<char>, m: Seq<char>, a: nat, c: nat)
    requires
        a <= c,
        occurs_at(s, c as int, m),
        forall|p: int| a <= p < c ==> !occurs_at(s, p, m),
    ensures
        first_occurrence_from(s, m, a) == c,
    decreases c - a,
{
    if a < c {
        assert(!occurs_at(s, a as int, m));
        lemma_first_occurrence_at(s, m, a + 1, c);
    }
}

/// Inside a dropped block, text with no fence in it is skipped.
proof fn lemma_skip_inside(s: Seq<char>, fence: Seq<char>, keep: nat, a: nat, j: nat, opened: nat)
    requires
        fence.len() > 0,
        opened > keep,
        a <= j <= s.len(),
        forall|p: int| a <= p < j ==> !occurs_at(s, p, fence),
    ensures
        unfenced_from(s, fence, keep, a, true, opened) == unfenced_from(
            s,
            fence,
            keep,
            j,
            true,
            opened,
        ),
    decreases j - a,
{
    if a < j {
        assert(!occurs_at(s, a as int, fence));
        lemma_skip_inside(s, fence, keep, a + 1, j, opened);
    }
}

/// Outside the fenced blocks, text with no fence in it is kept as it is.
pub proof fn lemma_plain_text_kept(
    s: Seq<char>,
    fence: Seq<char>,
    keep: nat,
    a: nat,
    j: nat,
    opened: nat,
)
    requires
        fence.len() > 0,
        a <= j <= s.len(),
        forall|p: int| a <= p < j ==> !occurs_at(s, p, fence),
    ensures
        unfenced_from(s, fence, keep, a, false, opened) == s.subrange(a as int, j as int)
            + unfenced_from(s, fence, keep, j, false, opened),
    decreases j - a,
{
    if a < j {
        assert(!occurs_at(s, a as int, fence));
        lemma_plain_text_kept(s, fence, keep, a + 1, j, opened);
        assert(seq![s[a as int]] + s.subrange(a + 1 as int, j as int) =~= s.subrange(a as int, j as int));
        assert(seq![s[a as int]] + (s.subrange(a + 1 as int, j as int) + unfenced_from(
            s,
            fence,
            keep,
            j,
            false,
            opened,
        )) =~= s.subrange(a as int, j as int) + unfenced_from(s, fence, keep, j, false, opened));
    } else {
        assert(s.subrange(a as int, j as int) =~= Seq::<char>::empty());
        assert(Seq::<char>::empty() + unfenced_from(s, fence, keep, j, false, opened) =~= unfenced_from(
            s,
            fence,
            keep,
            j,
            false,
            opened,
        ));
    }
}

/// A fenced block past the kept ones leaves nothing: a fence at `i`, the
/// next fence at `j`, and all that stands between them are dropped.
pub proof fn lemma_fenced_block_dropped(
    s: Seq<char>,
    fence: Seq<char>,
    keep: nat,
    i: nat,
    j: nat,
    opened: nat,
)
    requires
        fence.len() > 0,
        opened >= keep,
        occurs_at(s, i as int, fence),
        occurs_at(s, j as int, fence),
        i + fence.len() <= j,
        forall|p: int| i + fence.len() <= p < j ==> !occurs_at(s, p, fence),
    ensures
        unfenced_from(s, fence, keep, i, false, opened) == unfenced_from(
            s,
            fence,
            keep,
            j + fence.len(),
            false,
            opened + 1,
        ),
{
    lemma_first_occurrence_at(s, fence, i + fence.len(), j);
    lemma_skip_inside(s, fence, keep, i + fence.len(), j, opened + 1);
    let after_open = unfenced_from(s, fence, keep, i + fence.len(), true, opened + 1);
    assert(Seq::<char>::empty() + after_open =~= after_open);
    let after_close = unfenced_from(s, fence, keep, j + fence.len(), false, opened + 1);
    assert(Seq::<char>::empty() + after_close =~= after_close);
}

/// The head never takes more than the whole budget.
pub proof fn lemma_head_share_bound(target: nat, skew: nat)
    requires
        skew <= SKEW_SCALE,
    ensures
        head_share(target, skew) <= target,
{
    assert((target * skew + 500) / 1000 <= target) by (nonlinear_arith)
        requires
            skew <= 1000,
    ;
}

/// A text cut to a head and a tail has exactly `target` characters when it
/// did not fit, and never more than `target` or its own length.
pub proof fn lemma_head_tail_len(s: Seq<char>, target: nat, skew: nat)
    requires
        skew <= SKEW_SCALE,
    ensures
        keep_head_tail(s, target, skew).len() <= target,
        s.len() > target ==> keep_head_tail(s, target, skew).len() == target,
        keep_head_tail(s, target, skew).len() <= s.len(),
{
    lemma_head_share_bound(target, skew);
}

/// A squeeze never yields more than the target size, whatever the text,
/// fence, number of kept blocks and skew.
pub proof fn lemma_squeeze_within_target(
    s: Seq<char>,
    fence: Seq<char>,
    keep: nat,
    target: nat,
    skew: nat,
)
    requires
        skew <= SKEW_SCALE,
    ensures
        squeezed_keeping(s, fence, keep, target, skew).len() <= target,
{
    lemma_head_tail_len(unfenced(s, fence, keep), target, skew);
}

/// A text that already fits is left exactly as it is.
pub proof fn lemma_squeeze_keeps_fitting_text(
    s: Seq<char>,
    fence: Seq<char>,
    keep: nat,
    target: nat,
    skew: nat,
)
    requires
        s.len() <= target,
    ensures
        squeezed_keeping(s, fence, keep, target, skew) == s,
        keep_head_tail(s, target, skew) == s,
{
}

/// Whether `m` occurs in `s` at index `i`.
pub fn matches_at(s: &Vec<char>, i: usize, m: &Vec<char>) -> (r: bool)
    ensures
        r == occurs_at(s@, i as int, m@),
{
    if m.len() > s.len() || i > s.len() - m.len() {
        return false;
    }
    let mut j: usize = 0;
    while j < m.len()
        invariant
            j <= m.len(),
            i + m.len() <= s.len(),
            forall|k: int| 0 <= k < j ==> s@[i + k] == m@[k],
        decreases m.len() - j,
    {
        if s[i + j] != m[j] {
            assert(s@.subrange(i as int, i + m.len())[j as int] != m@[j as int]);
            return false;
        }
        j = j + 1;
    }
    assert(s@.subrange(i as int, i + m.len()) =~= m@);
    true
}

/// The index of the first occurrence of `m` in `s` at or after `start`,
/// or the length of `s` when there is none.
pub fn find_from(s: &Vec<char>, m: &Vec<char>, start: usize) -> (r: usize)
    requires
        start <= s.len(),
    ensures
        r == first_occurrence_from(s@, m@, start as nat),
        r <= s.len(),
{
    proof {
        lemma_first_occurrence_bound(s@, m@, start as nat);
    }
    let mut i: usize = start;
    while i < s.len() && m.len() <= s.len() - i
        invariant
            start <= i <= s.len(),
            first_occurrence_from(s@, m@, i as nat) == first_occurrence_from(s@, m@, start as nat),
        decreases s.len() - i,
    {
        if matches_at(s, i, m) {
            return i;
        }
        i = i + 1;
    }
    s.len()
}

/// `s` with its fenced blocks after the first `keep` removed (see
/// `unfenced`).
pub fn remove_fenced(s: &Vec<char>, fence: &Vec<char>, keep: usize) -> (r: Vec<char>)
    ensures
        r@ == unfenced(s@, fence@, keep as nat),
{
    if fence.len() == 0 {
        assert(s@.skip(0) =~= s@);
        return s.clone();
    }
    let mut out: Vec<char> = Vec::new();
    let mut i: usize = 0;
    let mut inside = false;
    let mut opened: usize = 0;
    while i < s.len()
        invariant
            fence@.len() > 0,
            i <= s.len(),
            opened <= i,
            out@ + unfenced_from(s@, fence@, keep as nat, i as nat, inside, opened as nat)
                == unfenced(s@, fence@, keep as nat),
        decreases s.len() - i,
    {
        if matches_at(s, i, fence) {
            let unmatched = !inside && find_from(s, fence, i + fence.len()) >= s.len();
            let now_opened = if inside || unmatched {
                opened
            } else {
                opened + 1
            };
            let next_inside = if unmatched {
                inside
            } else {
                !inside
            };
            let ghost rest = unfenced_from(
                s@,
                fence@,
                keep as nat,
                (i + fence.len()) as nat,
                next_inside,
                now_opened as nat,
            );
            let ghost before = out@;
            if unmatched || now_opened <= keep {
                let mut k: usize = 0;
                while k < fence.len()
                    invariant
                        k <= fence.len(),
                        out@ == before + fence@.take(k as int),
                    decreases fence.len() - k,
                {
                    assert(fence@.take(k as int).push(fence@[k as int]) =~= fence@.take(k + 1));
                    out.push(fence[k]);
                    k = k + 1;
                }
                assert(fence@.take(fence.len() as int) =~= fence@);
                assert(before + (fence@ + rest) =~= out@ + rest);
            } else {
                assert(before + (Seq::<char>::empty() + rest) =~= out@ + rest);
            }
            inside = next_inside;
            opened = now_opened;
            i = i + fence.len();
        } else if inside && opened > keep {
            i = i + 1;
        } else {
            let ghost rest = unfenced_from(s@, fence@, keep as nat, (i + 1) as nat, inside, opened as nat);
            assert(out@.push(s@[i as int]) + rest =~= out@ + (seq![s@[i as int]] + rest));
            out.push(s[i]);
            i = i + 1;
        }
    }
    assert(out@ + Seq::<char>::empty() =~= out@);
    out
}

/// The number of characters that go to the head; never more than `target`.
pub fn head_size(target: usize, skew: u32) -> (h: usize)
    requires
        skew <= SKEW_SCALE,
    ensures
        h == head_share(target as nat, skew as nat),
        h <= target,
{
    assert((target as u128) * (skew as u128) <= 0xffff_ffff_ffff_ffffu128 * 1000) by (
    nonlinear_arith)
        requires
            target <= 0xffff_ffff_ffff_ffffu128,
            skew <= 1000,
    ;
    let p: u128 = (target as u128) * (skew as u128) + 500;
    proof {
        lemma_head_share_bound(target as nat, skew as nat);
    }
    (p / 1000) as usize
}

/// `s` cut to a head and a tail (see `keep_head_tail`).
pub fn head_and_tail(s: &Vec<char>, target: usize, skew: u32) -> (r: Vec<char>)
    requires
        skew <= SKEW_SCALE,
    ensures
        r@ == keep_head_tail(s@, target as nat, skew as nat),
{
    if s.len() <= target {
        return s.clone();
    }
    let h = head_size(target, skew);
    let start = s.len() - (target - h);
    let mut out: Vec<char> = Vec::new();
    let mut i: usize = 0;
    while i < h
        invariant
            h <= target < s.len(),
            i <= h,
            out@ == s@.take(i as int),
        decreases h - i,
    {
        assert(s@.take(i as int).push(s@[i as int]) =~= s@.take(i + 1));
        out.push(s[i]);
        i = i + 1;
    }
    let mut j: usize = start;
    while j < s.len()
        invariant
            h <= target < s.len(),
            start == s.len() - (target - h),
            start <= j <= s.len(),
            out@ == s@.take(h as int) + s@.subrange(start as int, j as int),
        decreases s.len() - j,
    {
        assert(s@.subrange(start as int, j as int).push(s@[j as int]) =~= s@.subrange(
            start as int,
            j + 1,
        ));
        out.push(s[j]);
        j = j + 1;
    }
    assert(s@.subrange(start as int, s.len() as int) =~= s@.skip(start as int));
    out
}

/// Cuts `text` to `max_len` characters keeping a head and a tail by
/// `skew`; text that fits is returned unchanged.
pub fn squeeze_fit_post_texts(text: &str, max_len: usize, skew: u32) -> (r: String)
    requires
        skew <= SKEW_SCALE,
    ensures
        r@ == keep_head_tail(text@, max_len as nat, skew as nat),
        r@.len() <= max_len,
{
    let v = chars_of(text);
    let cut = head_and_tail(&v, max_len, skew);
    proof {
        lemma_head_tail_len(text@, max_len as nat, skew as nat);
    }
    string_of(&cut)
}

/// Squeezes `text` to `max_len` characters: text that fits is returned
/// unchanged; otherwise the blocks between `quote_mark` fences after the
/// first `keep_blocks` are dropped and what remains is cut to a head and a
/// tail by `skew`.
pub fn squeeze_keeping_blocks(
    text: &str,
    quote_mark: &str,
    keep_blocks: usize,
    max_len: usize,
    skew: u32,
) -> (r: String)
    requires
        skew <= SKEW_SCALE,
    ensures
        r@ == squeezed_keeping(text@, quote_mark@, keep_blocks as nat, max_len as nat, skew as nat),
        r@.len() <= max_len,
{
    let v = chars_of(text);
    if v.len() <= max_len {
        return string_of(&v);
    }
    let fence = chars_of(quote_mark);
    let body = remove_fenced(&v, &fence, keep_blocks);
    let cut = head_and_tail(&body, max_len, skew);
    proof {
        lemma_head_tail_len(body@, max_len as nat, skew as nat);
    }
    string_of(&cut)
}

/// Squeezes `text` to `max_len` characters: text that fits is returned
/// unchanged; otherwise every block between `quote_mark` fences is
/// dropped and what remains is cut to a head and a tail by `skew`.
pub fn squeeze_fit_remove_quoted(text: &str, quote_mark: &str, max_len: usize, skew: u32) -> (r:
    String)
    requires
        skew <= SKEW_SCALE,
    ensures
        r@ == squeezed(text@, quote_mark@, max_len as nat, skew as nat),
        r@.len() <= max_len,
{
    squeeze_keeping_blocks(text, quote_mark, 0, max_len, skew)
}

/// Squeezes `text` to `target_size` characters, dropping code blocks
/// fenced with three backquotes when it does not fit.
pub fn squeeze(text: &str, target_size: usize, skew: u32) -> (r: String)
    requires
        skew <= SKEW_SCALE,
    ensures
        r@ == squeezed(text@, CODE_FENCE@, target_size as nat, skew as nat),
        r@.len() <= target_size,
{
    squeeze_fit_remove_quoted(text, CODE_FENCE, target_size, skew)
}

} // verus!
