//! Sharing one size budget among several optional text sources in
//! proportion to their weights, and cutting each text to its share.

use vstd::prelude::*;
use vstd::arithmetic::div_mod::{lemma_fundamental_div_mod, lemma_div_is_ordered};
use crate::text::{chars_of, prefix_of, take_chars};

verus! {

/// One text source: its name, its weight, and its text when it has any.
pub struct Source {
    pub name: String,
    pub weight: u64,
    pub text: Option<String>,
}

/// The share of the budget given to one present source, and its text cut
/// to that share.
pub struct Allocation {
    pub name: String,
    pub size: u64,
    pub text: String,
}

/// What an allocation holds: name, size and text.
pub type AllocationView = (Seq<char>, nat, Seq<char>);

impl View for Allocation {
    type V = AllocationView;

    open spec fn view(&self) -> AllocationView {
        (self.name@, self.size as nat, self.text@)
    }
}

/// The sum of the weights of the sources that have a text.
pub open spec fn present_weight(srcs: Seq<Source>) -> nat
    decreases srcs.len(),
{
    if srcs.len() == 0 {
        0
    } else {
        present_weight(srcs.drop_last()) + if srcs.last().text is Some {
            srcs.last().weight as nat
        } else {
            0nat
        }
    }
}

/// The size given to a source of weight `weight` when the present weights
/// sum to `sum`: `total * weight / sum`, rounded down (nothing when no
/// present source has any weight).
pub open spec fn share(total: nat, weight: nat, sum: nat) -> nat {
    if sum == 0 {
        0
    } else {
        total * weight / sum
    }
}

/// The allocation of one present source: its text keeps the first
/// `size * chars_per_unit` characters.
pub open spec fn allocation_of(src: Source, total: nat, sum: nat, chars_per_unit: nat) -> AllocationView {
    let size = share(total, src.weight as nat, sum);
    (src.name@, size, prefix_of(src.text->0@, size * chars_per_unit))
}

/// The allocations of the present sources among `srcs`, in order, for a
/// weight sum of `sum`.
pub open spec fn allocations(srcs: Seq<Source>, total: nat, sum: nat, chars_per_unit: nat) -> Seq<
    AllocationView,
>
    decreases srcs.len(),
{
    if srcs.len() == 0 {
        Seq::empty()
    } else {
        let rest = allocations(srcs.drop_last(), total, sum, chars_per_unit);
        if srcs.last().text is Some {
            rest.push(allocation_of(srcs.last(), total, sum, chars_per_unit))
        } else {
            rest
        }
    }
}

/// What `allocate` returns for `srcs`: the present sources share `total`.
pub open spec fn allocated(srcs: Seq<Source>, total: nat, chars_per_unit: nat) -> Seq<AllocationView> {
    allocations(srcs, total, present_weight(srcs), chars_per_unit)
}

/// The sum of the sizes of `a`.
pub open spec fn total_size(a: Seq<AllocationView>) -> nat
    decreases a.len(),
{
    if a.len() == 0 {
        0
    } else {
        total_size(a.drop_last()) + a.last().1
    }
}

/// The views of a sequence of allocations.
pub open spec fn views(a: Seq<Allocation>) -> Seq<AllocationView> {
    a.map_values(|x: Allocation| x@)
}

/// Rounding down each part never gives more than rounding down the whole.
proof fn lemma_floor_sum(a: nat, b: nat, d: nat)
    requires
        d > 0,
    ensures
        a / d + b / d <= (a + b) / d,
{
    lemma_fundamental_div_mod(a as int, d as int);
    lemma_fundamental_div_mod(b as int, d as int);
    lemma_fundamental_div_mod((a + b) as int, d as int);
    let qa = a / d;
    let qb = b / d;
    let q = (a + b) / d;
    let ra = a % d;
    let rb = b % d;
    let r = (a + b) % d;
    assert(qa + qb <= q) by (nonlinear_arith)
        requires
            a == d * qa + ra,
            b == d * qb + rb,
            a + b == d * q + r,
            0 <= ra,
            0 <= rb,
            0 <= r < d,
            d > 0,
    ;
}

/// The sizes given to the present sources of a prefix sum to no more than
/// the budget scaled by that prefix's weight.
proof fn lemma_allocations_bounded(srcs: Seq<Source>, total: nat, sum: nat, cpu: nat)
    requires
        sum > 0,
    ensures
        total_size(allocations(srcs, total, sum, cpu)) <= total * present_weight(srcs) / sum,
    decreases srcs.len(),
{
    if srcs.len() > 0 {
        let init = srcs.drop_last();
        lemma_allocations_bounded(init, total, sum, cpu);
        let rest = allocations(init, total, sum, cpu);
        if srcs.last().text is Some {
            let a = allocation_of(srcs.last(), total, sum, cpu);
            assert(rest.push(a).drop_last() =~= rest);
            let w = srcs.last().weight as nat;
            lemma_floor_sum(total * present_weight(init), total * w, sum);
            assert(total * present_weight(init) + total * w == total * present_weight(srcs)) by (
            nonlinear_arith)
                requires
                    present_weight(srcs) == present_weight(init) + w,
            ;
        }
    }
}

/// The number of allocations never exceeds the number of sources, and a
/// source list with no text gives none.
proof fn lemma_allocations_len(srcs: Seq<Source>, total: nat, sum: nat, cpu: nat)
    ensures
        allocations(srcs, total, sum, cpu).len() <= srcs.len(),
        (forall|i: int| 0 <= i < srcs.len() ==> srcs[i].text is None) ==> allocations(
            srcs,
            total,
            sum,
            cpu,
        ).len() == 0,
    decreases srcs.len(),
{
    if srcs.len() > 0 {
        let init = srcs.drop_last();
        assert forall|i: int| 0 <= i < init.len() implies init[i] == srcs[i] by {}
        lemma_allocations_len(init, total, sum, cpu);
    }
}

/// The weight of each present source is part of the present weight.
proof fn lemma_weight_within_sum(srcs: Seq<Source>, i: int)
    requires
        0 <= i < srcs.len(),
        srcs[i].text is Some,
    ensures
        srcs[i].weight <= present_weight(srcs),
    decreases srcs.len(),
{
    if i < srcs.len() - 1 {
        lemma_weight_within_sum(srcs.drop_last(), i);
    }
}

/// Conservation: the sizes handed out never add up to more than the total
/// budget.
pub proof fn lemma_allocation_within_budget(srcs: Seq<Source>, total: nat, chars_per_unit: nat)
    ensures
        total_size(allocated(srcs, total, chars_per_unit)) <= total,
{
    let sum = present_weight(srcs);
    if sum > 0 {
        lemma_allocations_bounded(srcs, total, sum, chars_per_unit);
        assert(total * sum / sum == total) by (nonlinear_arith)
            requires
                sum > 0,
        ;
    } else {
        lemma_zero_sum_total(srcs, total, chars_per_unit);
    }
}

/// With no present weight every share is zero.
proof fn lemma_zero_sum_total(srcs: Seq<Source>, total: nat, cpu: nat)
    ensures
        total_size(allocations(srcs, total, 0, cpu)) == 0,
    decreases srcs.len(),
{
    if srcs.len() > 0 {
        let rest = allocations(srcs.drop_last(), total, 0, cpu);
        lemma_zero_sum_total(srcs.drop_last(), total, cpu);
        if srcs.last().text is Some {
            let a = allocation_of(srcs.last(), total, 0, cpu);
            assert(rest.push(a).drop_last() =~= rest);
        }
    }
}

/// Proportionality: each size is the total scaled by its source's share of
/// the present weight, within one unit of rounding down.
pub proof fn lemma_allocation_proportional(srcs: Seq<Source>, total: nat, chars_per_unit: nat, i: int)
    requires
        0 <= i < srcs.len(),
        srcs[i].text is Some,
        present_weight(srcs) > 0,
    ensures
        ({
            let size = allocation_of(srcs[i], total, present_weight(srcs), chars_per_unit).1;
            let w = srcs[i].weight as nat;
            &&& size * present_weight(srcs) <= total * w
            &&& total * w < (size + 1) * present_weight(srcs)
        }),
{
    let sum = present_weight(srcs);
    let w = srcs[i].weight as nat;
    let size = total * w / sum;
    lemma_fundamental_div_mod((total * w) as int, sum as int);
    assert(size * sum <= total * w && total * w < (size + 1) * sum) by (nonlinear_arith)
        requires
            total * w == sum * size + (total * w) % sum,
            0 <= (total * w) % sum < sum,
    ;
}

/// Emptiness: when no source has a text, nothing is allocated.
pub proof fn lemma_allocation_empty(srcs: Seq<Source>, total: nat, chars_per_unit: nat)
    requires
        forall|i: int| 0 <= i < srcs.len() ==> srcs[i].text is None,
    ensures
        allocated(srcs, total, chars_per_unit).len() == 0,
{
    lemma_allocations_len(srcs, total, present_weight(srcs), chars_per_unit);
}

/// The sum of the weights of the sources that have a text.
pub fn total_present_weight(sources: &Vec<Source>) -> (w: u128)
    ensures
        w == present_weight(sources@),
        w <= sources.len() * 0xffff_ffff_ffff_ffffu128,
{
    let mut w: u128 = 0;
    let mut i: usize = 0;
    while i < sources.len()
        invariant
            i <= sources.len(),
            w == present_weight(sources@.take(i as int)),
            w <= i * 0xffff_ffff_ffff_ffffu128,
        decreases sources.len() - i,
    {
        assert(sources@.take(i + 1).drop_last() =~= sources@.take(i as int));
        if sources[i].text.is_some() {
            assert(w + sources[i as int].weight <= (i + 1) * 0xffff_ffff_ffff_ffffu128) by (
            nonlinear_arith)
                requires
                    w <= i * 0xffff_ffff_ffff_ffffu128,
                    sources[i as int].weight <= 0xffff_ffff_ffff_ffffu128,
            ;
            assert(i * 0xffff_ffff_ffff_ffffu128 <= 0xffff_ffff_ffff_ffffu128
                * 0xffff_ffff_ffff_ffffu128) by (nonlinear_arith)
                requires
                    i < 0x1_0000_0000_0000_0000,
            ;
            w = w + sources[i].weight as u128;
        }
        i = i + 1;
    }
    assert(sources@.take(sources.len() as int) =~= sources@);
    w
}

/// The share of `total` for a weight of `weight` out of `sum` (see
/// `share`).
pub fn share_size(total: u64, weight: u64, sum: u128) -> (r: u64)
    requires
        sum > 0 ==> weight <= sum,
    ensures
        r == share(total as nat, weight as nat, sum as nat),
        r <= total,
{
    if sum == 0 {
        return 0;
    }
    let w = weight as u128;
    assert((total as u128) * w <= 0xffff_ffff_ffff_ffffu128 * 0xffff_ffff_ffff_ffffu128) by (
    nonlinear_arith)
        requires
            total <= 0xffff_ffff_ffff_ffffu128,
            w <= 0xffff_ffff_ffff_ffffu128,
    ;
    let p = (total as u128) * w;
    assert(p / sum <= total) by {
        assert(p <= total * sum) by (nonlinear_arith)
            requires
                p == total * w,
                w <= sum,
        ;
        lemma_div_is_ordered(p as int, (total * sum) as int, sum as int);
        assert((total as int) * (sum as int) / (sum as int) == total) by (nonlinear_arith)
            requires
                sum > 0,
        ;
    }
    (p / sum) as u64
}

/// The first `size * chars_per_unit` characters of `t`.
pub fn cut_to_size(t: &str, size: u64, chars_per_unit: u64) -> (r: String)
    ensures
        r@ == prefix_of(t@, size as nat * chars_per_unit as nat),
{
    let len = chars_of(t).len();
    assert((size as u128) * (chars_per_unit as u128) <= 0xffff_ffff_ffff_ffffu128
        * 0xffff_ffff_ffff_ffffu128) by (nonlinear_arith)
        requires
            size <= 0xffff_ffff_ffff_ffffu128,
            chars_per_unit <= 0xffff_ffff_ffff_ffffu128,
    ;
    let limit: u128 = (size as u128) * (chars_per_unit as u128);
    let n: usize = if limit >= len as u128 {
        len
    } else {
        limit as usize
    };
    take_chars(t, n)
}

/// One labelled section of a prompt: `name: text` with the text cut to its
/// share, or nothing for a source without text.
pub open spec fn section_of(src: Source, total: nat, sum: nat, chars_per_unit: nat) -> Seq<char> {
    if src.text is Some {
        let a = allocation_of(src, total, sum, chars_per_unit);
        a.0 + ": "@ + a.2
    } else {
        Seq::empty()
    }
}

/// The labelled sections of `sources`, one per source and in order, with
/// `total_budget` shared as `allocate` shares it.
pub fn labelled_sections(total_budget: u64, sources: &Vec<Source>, chars_per_unit: u64) -> (r: Vec<
    String,
>)
    ensures
        r.len() == sources.len(),
        forall|i: int|
            0 <= i < sources.len() ==> #[trigger] r[i]@ == section_of(
                sources[i],
                total_budget as nat,
                present_weight(sources@),
                chars_per_unit as nat,
            ),
{
    let allocs = allocate(total_budget, sources, chars_per_unit);
    let ghost total = total_budget as nat;
    let ghost cpu = chars_per_unit as nat;
    let ghost sum = present_weight(sources@);
    let ghost full = allocations(sources@, total, sum, cpu);
    let mut out: Vec<String> = Vec::new();
    let mut i: usize = 0;
    let mut j: usize = 0;
    while i < sources.len()
        invariant
            i <= sources.len(),
            views(allocs@) == full,
            full == allocations(sources@, total, sum, cpu),
            sum == present_weight(sources@),
            total == total_budget,
            cpu == chars_per_unit,
            j == allocations(sources@.take(i as int), total, sum, cpu).len(),
            out.len() == i,
            forall|k: int|
                0 <= k < i ==> #[trigger] out[k]@ == section_of(sources[k], total, sum, cpu),
        decreases sources.len() - i,
    {
        let ghost before = allocations(sources@.take(i as int), total, sum, cpu);
        proof {
            let t = sources@.take(i + 1);
            assert(t.drop_last() =~= sources@.take(i as int));
            assert(t.last() == sources@[i as int]);
            lemma_allocations_prefix(sources@, i + 1, total, sum, cpu);
        }
        let src = &sources[i];
        let section = match &src.text {
            Some(_) => {
                let ghost x = allocation_of(sources@[i as int], total, sum, cpu);
                assert(allocations(sources@.take(i + 1), total, sum, cpu) == before.push(x));
                assert(full.take(j + 1)[j as int] == x);
                assert(j + 1 <= allocs.len());
                let a = &allocs[j];
                assert(a@ == views(allocs@)[j as int]);
                let mut s = a.name.clone();
                s.append(": ");
                s.append(a.text.as_str());
                j = j + 1;
                s
            },
            None => String::new(),
        };
        out.push(section);
        i = i + 1;
    }
    out
}

/// The allocations of a prefix of the sources are a prefix of those of all
/// the sources.
proof fn lemma_allocations_prefix(srcs: Seq<Source>, i: int, total: nat, sum: nat, cpu: nat)
    requires
        0 <= i <= srcs.len(),
    ensures
        allocations(srcs.take(i), total, sum, cpu).len() <= allocations(srcs, total, sum, cpu).len(),
        allocations(srcs.take(i), total, sum, cpu) == allocations(srcs, total, sum, cpu).take(
            allocations(srcs.take(i), total, sum, cpu).len() as int,
        ),
    decreases srcs.len(),
{
    let p = allocations(srcs.take(i), total, sum, cpu);
    if i == srcs.len() {
        assert(srcs.take(i) =~= srcs);
        assert(p.take(p.len() as int) =~= p);
    } else {
        let init = srcs.drop_last();
        assert(srcs.take(i) =~= init.take(i));
        lemma_allocations_prefix(init, i, total, sum, cpu);
        let a = allocations(init, total, sum, cpu);
        if srcs.last().text is Some {
            let x = allocation_of(srcs.last(), total, sum, cpu);
            assert(a.push(x).take(p.len() as int) =~= a.take(p.len() as int));
        }
    }
}

/// Shares `total_budget` among the sources that have a text, in
/// proportion to their weights (each share rounded down), and cuts each
/// text to its first `size * chars_per_unit` characters. Sources without
/// text get no entry; the order of the sources is kept.
pub fn allocate(total_budget: u64, sources: &Vec<Source>, chars_per_unit: u64) -> (r: Vec<
    Allocation,
>)
    ensures
        views(r@) == allocated(sources@, total_budget as nat, chars_per_unit as nat),
{
    let sum = total_present_weight(sources);
    let ghost total = total_budget as nat;
    let ghost cpu = chars_per_unit as nat;
    let mut out: Vec<Allocation> = Vec::new();
    let mut i: usize = 0;
    while i < sources.len()
        invariant
            i <= sources.len(),
            sum == present_weight(sources@),
            total == total_budget,
            cpu == chars_per_unit,
            views(out@) == allocations(sources@.take(i as int), total, sum as nat, cpu),
        decreases sources.len() - i,
    {
        let ghost prefix = sources@.take(i as int);
        assert(sources@.take(i + 1).drop_last() =~= prefix);
        assert(sources@.take(i + 1).last() == sources@[i as int]);
        let src = &sources[i];
        match &src.text {
            Some(t) => {
                proof {
                    if sum > 0 {
                        lemma_weight_within_sum(sources@, i as int);
                    }
                }
                let size = share_size(total_budget, src.weight, sum);
                let kept = cut_to_size(t.as_str(), size, chars_per_unit);
                let a = Allocation { name: src.name.clone(), size, text: kept };
                assert(views(out@.push(a)) =~= views(out@).push(a@));
                out.push(a);
            },
            None => {},
        }
        i = i + 1;
    }
    assert(sources@.take(sources.len() as int) =~= sources@);
    out
}

} // verus!
