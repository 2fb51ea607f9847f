//! The permutation plan: where a track's shuffled region begins, and the
//! order in which its samples are emitted.

use vstd::prelude::*;
use vstd::arithmetic::div_mod::{lemma_basic_div, lemma_div_is_ordered, lemma_div_multiples_vanish_fancy};
use vstd::seq_lib::lemma_multiset_commutative;
use crate::shuffle::shuffle_indices;

verus! {

/// `count * num / den`, rounded half up, computed exactly in integers.
/// The shuffle fraction is the rational `num / den`.
pub open spec fn rounded_share(count: nat, num: nat, den: nat) -> nat
    recommends
        den > 0,
{
    (2 * count * num + den) / (2 * den)
}

/// The split index of a track: samples with 1-based index below it are
/// emitted in their original order, samples from it onward are shuffled.
/// It is the rounded share plus one (so that the first sample can stay
/// fixed), clamped to the sample count; a track with no samples has split
/// index zero.
pub open spec fn split_index(count: nat, num: nat, den: nat) -> nat
    recommends
        den > 0,
        num <= den,
{
    if rounded_share(count, num, den) + 1 <= count {
        rounded_share(count, num, den) + 1
    } else {
        count
    }
}

/// The rounded share never exceeds the sample count, so the split index
/// lies in `[1, count]` whenever the track has samples at all.
pub proof fn lemma_split_index_bounds(count: nat, num: nat, den: nat)
    requires
        den > 0,
        num <= den,
    ensures
        rounded_share(count, num, den) <= count,
        count == 0 ==> split_index(count, num, den) == 0,
        count > 0 ==> 1 <= split_index(count, num, den) <= count,
{
    assert(2 * count * num <= (2 * den) * count) by (nonlinear_arith)
        requires
            num <= den,
            count >= 0,
    ;
    lemma_div_is_ordered(
        (2 * count * num + den) as int,
        ((2 * den) * count + den) as int,
        2 * den as int,
    );
    lemma_div_multiples_vanish_fancy(count as int, den as int, 2 * den as int);
}

/// The exact value of the split index, computed without overflow.
pub fn compute_split_index(count: u32, num: u32, den: u32) -> (s: u32)
    requires
        den > 0,
        num <= den,
    ensures
        s as nat == split_index(count as nat, num as nat, den as nat),
{
    proof {
        lemma_split_index_bounds(count as nat, num as nat, den as nat);
    }
    let c: u128 = count as u128;
    let n: u128 = num as u128;
    let d: u128 = den as u128;
    assert(2 * c * n + d <= u128::MAX) by (nonlinear_arith)
        requires
            c <= 0xffff_ffff,
            n <= 0xffff_ffff,
            d <= 0xffff_ffff,
    ;
    let r: u128 = (2 * c * n + d) / (2 * d);
    assert(r as nat == rounded_share(count as nat, num as nat, den as nat));
    let r32: u32 = r as u32;
    if r32 >= count {
        count
    } else {
        r32 + 1
    }
}

/// With a zero fraction the split index of a non-empty track is 1: the
/// whole track, from its first sample onward, belongs to the shuffled
/// region.
pub proof fn lemma_split_zero_fraction(count: nat, den: nat)
    requires
        den > 0,
        count > 0,
    ensures
        split_index(count, 0, den) == 1,
{
    lemma_basic_div(den as int, 2 * den as int);
}

/// With a full fraction (`num == den`) the split index clamps to the
/// sample count: only the last sample lies in the shuffled region, so the
/// track keeps its original order.
pub proof fn lemma_split_full_fraction(count: nat, den: nat)
    requires
        den > 0,
    ensures
        split_index(count, den, den) == count,
{
    assert(2 * count * den + den == (2 * den) * count + den) by (nonlinear_arith);
    lemma_div_multiples_vanish_fancy(count as int, den as int, 2 * den as int);
}

/// The `n` consecutive sample indices `lo, lo + 1, ..., lo + n - 1`.
pub open spec fn index_range(lo: nat, n: nat) -> Seq<u32>
    recommends
        lo + n <= 0x1_0000_0000,
{
    Seq::new(n, |i: int| (lo + i) as u32)
}

/// Builds the consecutive indices `lo, lo + 1, ..., lo + n - 1`.
fn range_vec(lo: u32, n: u32) -> (v: Vec<u32>)
    requires
        lo as int + n as int <= 0x1_0000_0000,
    ensures
        v@ == index_range(lo as nat, n as nat),
{
    let mut v: Vec<u32> = Vec::new();
    let mut i: u32 = 0;
    assert(v@ =~= index_range(lo as nat, 0));
    while i < n
        invariant
            i <= n,
            lo as int + n as int <= 0x1_0000_0000,
            v@ == index_range(lo as nat, i as nat),
        decreases n - i,
    {
        v.push(lo + i);
        i = i + 1;
        assert(v@ =~= index_range(lo as nat, i as nat));
    }
    v
}

/// The emission order for one track: a permutation of the 1-based sample
/// indices `1, ..., count` that keeps every index below the split in its
/// place and puts the indices from the split onward in a random order.
///
/// The shuffle fraction is the rational `num / den`. The clauses pin the
/// plan down as far as anything can be said of a fresh random shuffle:
/// the plan is a permutation of `1, ..., count` (no index lost, none
/// repeated), its prefix below the split index is the identity, and the
/// suffix from the split onward holds exactly the indices from the split
/// to `count`, in some order.
pub fn track_plan(count: u32, num: u32, den: u32) -> (plan: Vec<u32>)
    requires
        den > 0,
        num <= den,
    ensures
        plan@.len() == count as nat,
        plan@.to_multiset() == index_range(1, count as nat).to_multiset(),
        forall|i: int|
            0 <= i < split_index(count as nat, num as nat, den as nat) - 1 ==> plan@[i] == i + 1,
        count > 0 ==> ({
            let s = split_index(count as nat, num as nat, den as nat);
            plan@.skip(s as int - 1).to_multiset() == index_range(
                s,
                (count + 1 - s) as nat,
            ).to_multiset()
        }),
{
    proof {
        lemma_split_index_bounds(count as nat, num as nat, den as nat);
    }
    if count == 0 {
        let plan: Vec<u32> = Vec::new();
        assert(plan@ =~= index_range(1, 0));
        return plan;
    }
    let s = compute_split_index(count, num, den);
    let mut plan = range_vec(1, s - 1);
    let mut suffix = range_vec(s, count - s + 1);
    let ghost prefix = plan@;
    let ghost tail0 = suffix@;
    shuffle_indices(&mut suffix);
    let ghost tail = suffix@;
    plan.append(&mut suffix);
    proof {
        assert(plan@ == prefix + tail);
        assert(prefix + tail0 =~= index_range(1, count as nat));
        lemma_multiset_commutative(prefix, tail);
        lemma_multiset_commutative(prefix, tail0);
        assert(plan@.to_multiset() == index_range(1, count as nat).to_multiset());
        assert forall|i: int|
            0 <= i < split_index(count as nat, num as nat, den as nat) - 1 implies plan@[i] == i
            + 1 by {
            assert(plan@[i] == prefix[i]);
        }
        assert(plan@.skip(s as int - 1) =~= tail);
    }
    plan
}

/// The payloads a writer emits when it follows `plan`: the sample with
/// 1-based index `plan[k]` is written in position `k`.
pub open spec fn emitted_payloads(payloads: Seq<Seq<u8>>, plan: Seq<u32>) -> Seq<Seq<u8>> {
    plan.map_values(|idx: u32| payloads[idx as int - 1])
}

/// Mapping a function over two sequences that hold the same elements,
/// multiset for multiset, gives sequences that hold the same images.
proof fn lemma_map_values_multiset<A, B>(a: Seq<A>, b: Seq<A>, f: spec_fn(A) -> B)
    requires
        a.to_multiset() == b.to_multiset(),
    ensures
        a.map_values(f).to_multiset() == b.map_values(f).to_multiset(),
    decreases a.len(),
{
    broadcast use vstd::seq_lib::group_to_multiset_ensures;
    broadcast use vstd::multiset::group_multiset_axioms;

    if a.len() == 0 {
        assert(a.to_multiset().len() == 0);
        assert(b.len() == 0);
        assert(a.map_values(f) =~= Seq::<B>::empty());
        assert(b.map_values(f) =~= Seq::<B>::empty());
    } else {
        let ai = a.len() - 1;
        let x = a[ai as int];
        assert(a.contains(x));
        assert(a.to_multiset().count(x) > 0);
        assert(b.to_multiset().count(x) > 0);
        assert(b.contains(x));
        let bi = choose|bi: int| 0 <= bi < b.len() && b[bi] == x;
        let a1 = a.remove(ai as int);
        let b1 = b.remove(bi);
        assert(a1.to_multiset() == a.to_multiset().remove(x));
        assert(b1.to_multiset() == b.to_multiset().remove(x));
        lemma_map_values_multiset(a1, b1, f);
        assert(a1.map_values(f) =~= a.map_values(f).remove(ai as int));
        assert(b1.map_values(f) =~= b.map_values(f).remove(bi));
        assert(a.map_values(f)[ai as int] == f(x));
        assert(b.map_values(f)[bi] == f(x));
        assert(a.map_values(f).remove(ai as int).to_multiset() == a.map_values(
            f,
        ).to_multiset().remove(f(x)));
        assert(b.map_values(f).remove(bi).to_multiset() == b.map_values(f).to_multiset().remove(
            f(x),
        ));
        let ma = a.map_values(f).to_multiset();
        let mb = b.map_values(f).to_multiset();
        assert(ma.remove(f(x)) == mb.remove(f(x)));
        assert(a.map_values(f).contains(f(x)));
        assert(b.map_values(f).contains(f(x)));
        assert(ma.count(f(x)) > 0);
        assert(mb.count(f(x)) > 0);
        assert forall|y: B| ma.count(y) == mb.count(y) by {
            if y == f(x) {
                assert(ma.remove(f(x)).count(y) == ma.count(y) - 1);
                assert(mb.remove(f(x)).count(y) == mb.count(y) - 1);
            } else {
                assert(ma.remove(f(x)).count(y) == ma.count(y));
                assert(mb.remove(f(x)).count(y) == mb.count(y));
            }
        }
        assert(ma =~= mb);
    }
}

/// Completeness: a writer that follows a plan holding each of the indices
/// `1, ..., count` exactly once writes each source payload exactly once —
/// the multiset of payloads out equals the multiset of payloads in.
pub proof fn lemma_completeness(payloads: Seq<Seq<u8>>, plan: Seq<u32>)
    requires
        payloads.len() < 0x1_0000_0000,
        plan.to_multiset() == index_range(1, payloads.len()).to_multiset(),
    ensures
        emitted_payloads(payloads, plan).to_multiset() == payloads.to_multiset(),
{
    let f = |idx: u32| payloads[idx as int - 1];
    lemma_map_values_multiset(plan, index_range(1, payloads.len()), f);
    assert(index_range(1, payloads.len()).map_values(f) =~= payloads);
}

/// Prefix preservation: where a plan keeps every index below the split
/// index `s` in its place, the first `s - 1` payloads written equal the
/// first `s - 1` source payloads, in the same order.
pub proof fn lemma_prefix_preserved(payloads: Seq<Seq<u8>>, plan: Seq<u32>, s: nat)
    requires
        plan.len() == payloads.len(),
        1 <= s <= payloads.len() + 1,
        forall|i: int| 0 <= i < s - 1 ==> plan[i] == i + 1,
    ensures
        emitted_payloads(payloads, plan).take(s as int - 1) == payloads.take(s as int - 1),
{
    assert(emitted_payloads(payloads, plan).take(s as int - 1) =~= payloads.take(s as int - 1));
}

/// Permutation validity: a suffix whose multiset equals the index range
/// `lo, ..., lo + n - 1` is a bijection of that range onto itself — it has
/// no repeats, every entry lies in the range, and every index of the range
/// occurs.
pub proof fn lemma_suffix_bijection(tail: Seq<u32>, lo: nat, n: nat)
    requires
        lo + n <= 0x1_0000_0000,
        tail.to_multiset() == index_range(lo, n).to_multiset(),
    ensures
        tail.len() == n,
        tail.no_duplicates(),
        forall|i: int| 0 <= i < tail.len() ==> lo <= #[trigger] tail[i] < lo + n,
        forall|v: u32| lo <= v < lo + n ==> tail.contains(v),
{
    broadcast use vstd::seq_lib::group_to_multiset_ensures;

    let rng = index_range(lo, n);
    assert(tail.to_multiset().len() == tail.len());
    assert(rng.to_multiset().len() == rng.len());
    assert(tail.len() == n);
    assert(rng.no_duplicates());
    rng.lemma_multiset_has_no_duplicates();
    tail.lemma_multiset_has_no_duplicates_conv();
    assert forall|i: int| 0 <= i < tail.len() implies lo <= #[trigger] tail[i] < lo + n by {
        assert(tail.contains(tail[i]));
        assert(rng.to_multiset().count(tail[i]) > 0);
        assert(rng.contains(tail[i]));
        let j = choose|j: int| 0 <= j < rng.len() && rng[j] == tail[i];
        assert(rng[j] == lo + j);
    }
    assert forall|v: u32| lo <= v < lo + n implies tail.contains(v) by {
        assert(rng[v - lo] == v);
        assert(rng.contains(v));
        assert(tail.to_multiset().count(v) > 0);
    }
}

/// With a full shuffle fraction the split index clamps to the sample
/// count, the shuffled region is the last sample alone, and the plan is
/// forced to be the identity: the track keeps its original order exactly.
pub proof fn lemma_full_fraction_keeps_order(payloads: Seq<Seq<u8>>, plan: Seq<u32>, count: nat)
    requires
        1 <= count < 0x1_0000_0000,
        payloads.len() == count,
        plan.len() == count,
        forall|i: int| 0 <= i < count - 1 ==> plan[i] == i + 1,
        plan.skip(count as int - 1).to_multiset() == index_range(count, 1).to_multiset(),
    ensures
        plan == index_range(1, count),
        emitted_payloads(payloads, plan) == payloads,
{
    broadcast use vstd::seq_lib::group_to_multiset_ensures;

    let t = plan.skip(count as int - 1);
    assert(t.len() == 1);
    assert(t.contains(t[0]));
    assert(t.to_multiset().count(t[0]) > 0);
    assert(index_range(count, 1).contains(t[0]));
    assert(index_range(count, 1)[0] == count);
    assert(t[0] == count);
    assert(plan[count as int - 1] == t[0]);
    assert(plan =~= index_range(1, count));
    assert(emitted_payloads(payloads, plan) =~= payloads);
}

} // verus!

