//! The order in which bone names are listed does not matter to
//! [`crate::auto_map_bones`]: any rearrangement of the same names gives the
//! same map.
use vstd::prelude::*;

use crate::automap::{all_candidates, conflicts, is_greedy_selection, lemma_greedy_selection_unique, maps_selection, precedes};
use crate::bone::HumanoidBone;
use crate::scoring;

verus! {

/// Where the candidates of bone `b` start in [`all_candidates`].
pub open spec fn offset(names: Seq<Seq<char>>, b: int) -> int {
    all_candidates(names.take(b)).len() as int
}

/// Bones that carry the same name keep their relative order under `p`.
spec fn keeps_equal_order(names: Seq<Seq<char>>, p: Seq<int>) -> bool {
    forall|b1: int, b2: int|
        0 <= b1 < b2 < names.len() && names[b1] == names[b2] ==> #[trigger] p[b1] < #[trigger] p[b2]
}

/// `p` reorders `names1` into `names2` (bone `b` of `names1` is bone `p[b]`
/// of `names2`), with inverse `q`.
pub open spec fn is_reordering(names1: Seq<Seq<char>>, names2: Seq<Seq<char>>, p: Seq<int>, q: Seq<int>) -> bool {
    &&& names1.len() == names2.len()
    &&& p.len() == names1.len()
    &&& q.len() == names1.len()
    &&& forall|b: int| 0 <= b < names1.len() ==> 0 <= #[trigger] p[b] < names1.len() && q[p[b]] == b && names2[p[b]] == names1[b]
    &&& forall|b: int| 0 <= b < names1.len() ==> 0 <= #[trigger] q[b] < names1.len() && p[q[b]] == b
}

/// The first bone's block starts at 0, and the last one ends with the list.
proof fn lemma_offset_ends(names: Seq<Seq<char>>)
    ensures
        offset(names, 0) == 0,
        offset(names, names.len() as int) == all_candidates(names).len(),
{
    assert(names.take(0) =~= Seq::<Seq<char>>::empty());
    assert(names.take(names.len() as int) =~= names);
}

/// Bone `b`'s block is as long as its candidate list.
proof fn lemma_offset_step(names: Seq<Seq<char>>, b: int)
    requires
        0 <= b < names.len(),
    ensures
        offset(names, b + 1) == offset(names, b) + scoring::bone_candidates(names[b]).len(),
{
    let t = names.take(b + 1);
    assert(t.drop_last() =~= names.take(b));
    assert(t.last() == names[b]);
}

/// Later bones' blocks start no earlier.
proof fn lemma_offset_monotone(names: Seq<Seq<char>>, a: int, b: int)
    requires
        0 <= a <= b <= names.len(),
    ensures
        offset(names, a) <= offset(names, b),
    decreases b - a,
{
    if a < b {
        lemma_offset_step(names, b - 1);
        lemma_offset_monotone(names, a, b - 1);
    }
}

/// Candidates of bone `b` sit at `offset(b) + k`, in their own order.
proof fn lemma_locate(names: Seq<Seq<char>>, b: int, k: int)
    requires
        0 <= b < names.len(),
        0 <= k < scoring::bone_candidates(names[b]).len(),
    ensures
        offset(names, b) + k < all_candidates(names).len(),
        all_candidates(names)[offset(names, b) + k] == (
            b,
            scoring::bone_candidates(names[b])[k].0,
            scoring::bone_candidates(names[b])[k].1,
        ),
    decreases names.len(),
{
    let front = names.drop_last();
    let n = names.len() - 1;
    let tagged = scoring::bone_candidates(names.last()).map_values(|c: (HumanoidBone, int)| (n, c.0, c.1));
    assert(all_candidates(names) == all_candidates(front) + tagged);
    assert(front.take(b) =~= names.take(b));
    if b < n {
        lemma_locate(front, b, k);
        assert(front[b] == names[b]);
    } else {
        assert(front.take(n) =~= front);
        assert(names.last() == names[b]);
    }
}

/// Every candidate position lies in its own bone's block.
proof fn lemma_position_in_block(names: Seq<Seq<char>>, i: int)
    requires
        0 <= i < all_candidates(names).len(),
    ensures
        0 <= all_candidates(names)[i].0 < names.len(),
        offset(names, all_candidates(names)[i].0) <= i,
        i < offset(names, all_candidates(names)[i].0) + scoring::bone_candidates(
            names[all_candidates(names)[i].0],
        ).len(),
{
    lemma_offset_ends(names);
    let c = all_candidates(names);
    // find the block holding i
    let b = block_of(names, i, names.len() as int);
    lemma_block_of(names, i, names.len() as int);
    lemma_offset_step(names, b);
    let k = i - offset(names, b);
    lemma_locate(names, b, k);
}

/// The candidates of an earlier bone come before those of a later one.
proof fn lemma_block_order(names: Seq<Seq<char>>, i: int, j: int)
    requires
        0 <= i < all_candidates(names).len(),
        0 <= j < all_candidates(names).len(),
        all_candidates(names)[i].0 < all_candidates(names)[j].0,
    ensures
        i < j,
{
    lemma_position_in_block(names, i);
    lemma_position_in_block(names, j);
    let bi = all_candidates(names)[i].0;
    let bj = all_candidates(names)[j].0;
    lemma_offset_step(names, bi);
    lemma_offset_monotone(names, bi + 1, bj);
}

spec fn block_of(names: Seq<Seq<char>>, i: int, n: int) -> int
    decreases n,
{
    if n <= 0 {
        0
    } else if offset(names, n - 1) <= i {
        n - 1
    } else {
        block_of(names, i, n - 1)
    }
}

proof fn lemma_block_of(names: Seq<Seq<char>>, i: int, n: int)
    requires
        0 <= i < offset(names, n),
        0 < n <= names.len(),
    ensures
        0 <= block_of(names, i, n) < n,
        offset(names, block_of(names, i, n)) <= i < offset(names, block_of(names, i, n) + 1),
    decreases n,
{
    lemma_offset_ends(names);
    lemma_offset_step(names, n - 1);
    if offset(names, n - 1) <= i {
    } else {
        if n - 1 == 0 {
        } else {
            lemma_block_of(names, i, n - 1);
        }
    }
}

/// Where candidate `i` of `names1` lands after reordering.
pub open spec fn moved(names1: Seq<Seq<char>>, names2: Seq<Seq<char>>, p: Seq<int>, i: int) -> int {
    let b = all_candidates(names1)[i].0;
    offset(names2, p[b]) + (i - offset(names1, b))
}

proof fn lemma_moved(names1: Seq<Seq<char>>, names2: Seq<Seq<char>>, p: Seq<int>, q: Seq<int>, i: int)
    requires
        is_reordering(names1, names2, p, q),
        0 <= i < all_candidates(names1).len(),
    ensures
        0 <= moved(names1, names2, p, i) < all_candidates(names2).len(),
        all_candidates(names2)[moved(names1, names2, p, i)] == (
            p[all_candidates(names1)[i].0],
            all_candidates(names1)[i].1,
            all_candidates(names1)[i].2,
        ),
        moved(names2, names1, q, moved(names1, names2, p, i)) == i,
{
    lemma_position_in_block(names1, i);
    let c1 = all_candidates(names1);
    let b = c1[i].0;
    let k = i - offset(names1, b);
    lemma_locate(names1, b, k);
    let b2 = p[b];
    assert(names2[b2] == names1[b]);
    lemma_locate(names2, b2, k);
    assert(q[b2] == b);
}

/// Reordering the input, with bones of the same name kept in their order,
/// changes neither which candidates compete nor which of two candidates is
/// considered first.
proof fn lemma_moved_order(
    names1: Seq<Seq<char>>,
    names2: Seq<Seq<char>>,
    p: Seq<int>,
    q: Seq<int>,
    i: int,
    j: int,
)
    requires
        is_reordering(names1, names2, p, q),
        keeps_equal_order(names1, p),
        0 <= i < all_candidates(names1).len(),
        0 <= j < all_candidates(names1).len(),
    ensures
        conflicts(all_candidates(names1), i, j) == conflicts(
            all_candidates(names2),
            moved(names1, names2, p, i),
            moved(names1, names2, p, j),
        ),
        precedes(names1, all_candidates(names1), i, j) == precedes(
            names2,
            all_candidates(names2),
            moved(names1, names2, p, i),
            moved(names1, names2, p, j),
        ),
{
    lemma_moved(names1, names2, p, q, i);
    lemma_moved(names1, names2, p, q, j);
    lemma_position_in_block(names1, i);
    lemma_position_in_block(names1, j);
    let c1 = all_candidates(names1);
    let c2 = all_candidates(names2);
    let bi = c1[i].0;
    let bj = c1[j].0;
    let mi = moved(names1, names2, p, i);
    let mj = moved(names1, names2, p, j);
    assert(names2[p[bi]] == names1[bi]);
    assert(names2[p[bj]] == names1[bj]);
    if bi != bj {
        assert(q[p[bi]] == bi && q[p[bj]] == bj);
        if names1[bi] == names1[bj] {
            if bi < bj {
                assert(p[bi] < p[bj]);
                lemma_block_order(names1, i, j);
                lemma_block_order(names2, mi, mj);
            } else {
                assert(p[bj] < p[bi]);
                lemma_block_order(names1, j, i);
                lemma_block_order(names2, mj, mi);
            }
        }
    }
}

/// A reordering that keeps bones of the same name in their order does not
/// change the map.
proof fn lemma_reordered_same_map(
    names1: Seq<Seq<char>>,
    names2: Seq<Seq<char>>,
    p: Seq<int>,
    q: Seq<int>,
    chosen1: Set<int>,
    m1: Map<HumanoidBone, Seq<char>>,
    chosen2: Set<int>,
    m2: Map<HumanoidBone, Seq<char>>,
)
    requires
        is_reordering(names1, names2, p, q),
        keeps_equal_order(names1, p),
        is_greedy_selection(names1, chosen1),
        maps_selection(names1, chosen1, m1),
        is_greedy_selection(names2, chosen2),
        maps_selection(names2, chosen2, m2),
    ensures
        m1 == m2,
{
    let c1 = all_candidates(names1);
    let c2 = all_candidates(names2);
    let image = Set::new(|j: int| 0 <= j < c2.len() && chosen1.contains(moved(names2, names1, q, j)));
    // the reverse move of names2 into names1 is a reordering too
    assert(is_reordering(names2, names1, q, p));
    assert forall|j: int| 0 <= j < c2.len() implies {
        let i = #[trigger] moved(names2, names1, q, j);
        &&& 0 <= i < c1.len()
        &&& moved(names1, names2, p, i) == j
    } by {
        lemma_moved(names2, names1, q, p, j);
    }
    assert(is_greedy_selection(names2, image)) by {
        assert forall|j: int| 0 <= j < c2.len() implies (#[trigger] image.contains(j) <==> !exists|j2: int|
            image.contains(j2) && #[trigger] precedes(names2, c2, j2, j) && conflicts(c2, j, j2)) by {
            let i = moved(names2, names1, q, j);
            assert(0 <= i < c1.len() && moved(names1, names2, p, i) == j);
            if exists|j2: int| image.contains(j2) && #[trigger] precedes(names2, c2, j2, j) && conflicts(c2, j, j2) {
                let j2 = choose|j2: int| image.contains(j2) && #[trigger] precedes(names2, c2, j2, j) && conflicts(c2, j, j2);
                let i2 = moved(names2, names1, q, j2);
                assert(0 <= i2 < c1.len() && moved(names1, names2, p, i2) == j2);
                lemma_moved_order(names1, names2, p, q, i, i2);
                lemma_moved_order(names1, names2, p, q, i2, i);
                assert(chosen1.contains(i2) && precedes(names1, c1, i2, i) && conflicts(c1, i, i2));
            }
            if exists|i2: int| chosen1.contains(i2) && #[trigger] precedes(names1, c1, i2, i) && conflicts(c1, i, i2) {
                let i2 = choose|i2: int| chosen1.contains(i2) && #[trigger] precedes(names1, c1, i2, i) && conflicts(c1, i, i2);
                lemma_moved(names1, names2, p, q, i2);
                let j2 = moved(names1, names2, p, i2);
                lemma_moved_order(names1, names2, p, q, i, i2);
                lemma_moved_order(names1, names2, p, q, i2, i);
                assert(image.contains(j2));
                assert(precedes(names2, c2, j2, j) && conflicts(c2, j, j2));
            }
        }
    }
    lemma_greedy_selection_unique(names2, chosen2, image);
    assert forall|s: HumanoidBone| m1.contains_key(s) <==> m2.contains_key(s) by {
        if m1.contains_key(s) {
            let i = choose|i: int| #[trigger] chosen1.contains(i) && c1[i].1 == s;
            lemma_moved(names1, names2, p, q, i);
            let j = moved(names1, names2, p, i);
            assert(image.contains(j));
            assert(chosen2.contains(j) && c2[j].1 == s);
        }
        if m2.contains_key(s) {
            let j = choose|j: int| #[trigger] chosen2.contains(j) && c2[j].1 == s;
            let i = moved(names2, names1, q, j);
            lemma_moved(names2, names1, q, p, j);
            assert(chosen1.contains(i) && c1[i].1 == s);
        }
    }
    assert forall|s: HumanoidBone| m1.contains_key(s) implies m1[s] == m2[s] by {
        let i = choose|i: int| #[trigger] chosen1.contains(i) && c1[i].1 == s;
        lemma_moved(names1, names2, p, q, i);
        let j = moved(names1, names2, p, i);
        assert(image.contains(j));
        assert(chosen2.contains(j));
        let b = c1[i].0;
        lemma_position_in_block(names1, i);
        assert(names2[p[b]] == names1[b]);
    }
    assert(m1 =~= m2);
}

/// How many of the first `n` entries of `s` equal `x`.
spec fn count_before(s: Seq<Seq<char>>, x: Seq<char>, n: int) -> nat
    decreases n,
{
    if n <= 0 {
        0
    } else {
        count_before(s, x, n - 1) + if s[n - 1] == x {
            1nat
        } else {
            0nat
        }
    }
}

/// Each occurrence of `x` has more occurrences after it than before it.
proof fn lemma_count_strict(s: Seq<Seq<char>>, x: Seq<char>, k1: int, k2: int)
    requires
        0 <= k1 < k2,
        s[k1] == x,
    ensures
        count_before(s, x, k1) < count_before(s, x, k2),
    decreases k2,
{
    if k2 > k1 + 1 {
        lemma_count_strict(s, x, k1, k2 - 1);
    }
}

/// Every occurrence count below the total is reached at some occurrence.
proof fn lemma_count_reached(s: Seq<Seq<char>>, x: Seq<char>, r: int, n: int)
    requires
        0 <= r < count_before(s, x, n),
        n <= s.len(),
    ensures
        exists|k: int| 0 <= k < n && s[k] == x && #[trigger] count_before(s, x, k) == r,
    decreases n,
{
    if !(s[n - 1] == x && count_before(s, x, n - 1) == r) {
        lemma_count_reached(s, x, r, n - 1);
    }
}

/// Counting over a prefix only looks at the prefix.
proof fn lemma_count_prefix(s: Seq<Seq<char>>, t: Seq<Seq<char>>, x: Seq<char>, n: int)
    requires
        0 <= n <= s.len(),
        n <= t.len(),
        forall|k: int| 0 <= k < n ==> s[k] == t[k],
    ensures
        count_before(s, x, n) == count_before(t, x, n),
    decreases n,
{
    if n > 0 {
        lemma_count_prefix(s, t, x, n - 1);
    }
}

/// Counting over the whole sequence gives the multiplicity in its multiset.
proof fn lemma_count_multiset(s: Seq<Seq<char>>, x: Seq<char>)
    ensures
        count_before(s, x, s.len() as int) == s.to_multiset().count(x),
    decreases s.len(),
{
    broadcast use vstd::seq_lib::group_to_multiset_ensures;
    broadcast use vstd::multiset::group_multiset_axioms;

    if s.len() == 0 {
        vstd::multiset::lemma_multiset_empty_len(s.to_multiset());
    } else {
        let front = s.drop_last();
        lemma_count_multiset(front, x);
        lemma_count_prefix(s, front, x, s.len() - 1);
        assert(s =~= front.push(s.last()));
        vstd::seq_lib::to_multiset_build(front, s.last());
    }
}

/// The number of earlier entries with the same name as entry `b`.
spec fn rank(s: Seq<Seq<char>>, b: int) -> nat {
    count_before(s, s[b], b)
}

/// The entry of `s` that is the occurrence of `x` with `r` earlier ones.
spec fn occurrence(s: Seq<Seq<char>>, x: Seq<char>, r: int) -> int {
    choose|k: int| 0 <= k < s.len() && s[k] == x && count_before(s, x, k) == r
}

/// Entry `b` of `names1` goes to the occurrence of its name in `names2`
/// with as many earlier occurrences.
spec fn stable_map(names1: Seq<Seq<char>>, names2: Seq<Seq<char>>) -> Seq<int> {
    Seq::new(names1.len(), |b: int| occurrence(names2, names1[b], rank(names1, b) as int))
}

/// Where [`stable_map`] sends entry `b`, when both lists hold the same names.
proof fn lemma_stable_entry(names1: Seq<Seq<char>>, names2: Seq<Seq<char>>, b: int)
    requires
        names1.to_multiset() == names2.to_multiset(),
        0 <= b < names1.len(),
    ensures
        0 <= stable_map(names1, names2)[b] < names2.len(),
        names2[stable_map(names1, names2)[b]] == names1[b],
        rank(names2, stable_map(names1, names2)[b]) == rank(names1, b),
        occurrence(names1, names1[b], rank(names1, b) as int) == b,
{
    let x = names1[b];
    let r = rank(names1, b) as int;
    lemma_count_strict(names1, x, b, names1.len() as int);
    lemma_count_multiset(names1, x);
    lemma_count_multiset(names2, x);
    lemma_count_reached(names2, x, r, names2.len() as int);
    let k = occurrence(names2, x, r);
    assert(stable_map(names1, names2)[b] == k);
    // b itself is such an occurrence in names1, and there is only one
    let o = occurrence(names1, x, r);
    assert(0 <= b < names1.len() && names1[b] == x && count_before(names1, x, b) == r);
    if o < b {
        lemma_count_strict(names1, x, o, b);
    } else if b < o {
        lemma_count_strict(names1, x, b, o);
    }
}

/// Two lists with the same names are a reordering of each other that
/// keeps bones of the same name in their order.
proof fn lemma_stable_reordering(names1: Seq<Seq<char>>, names2: Seq<Seq<char>>)
    requires
        names1.to_multiset() == names2.to_multiset(),
    ensures
        is_reordering(names1, names2, stable_map(names1, names2), stable_map(names2, names1)),
        keeps_equal_order(names1, stable_map(names1, names2)),
{
    let p = stable_map(names1, names2);
    let q = stable_map(names2, names1);
    vstd::seq_lib::to_multiset_len(names1);
    vstd::seq_lib::to_multiset_len(names2);
    assert forall|b: int| 0 <= b < names1.len() implies 0 <= #[trigger] p[b] < names1.len() && q[p[b]] == b && names2[p[b]] == names1[b] by {
        lemma_stable_entry(names1, names2, b);
        lemma_stable_entry(names2, names1, p[b]);
    }
    assert forall|b: int| 0 <= b < names1.len() implies 0 <= #[trigger] q[b] < names1.len() && p[q[b]] == b by {
        lemma_stable_entry(names2, names1, b);
        lemma_stable_entry(names1, names2, q[b]);
    }
    assert forall|b1: int, b2: int| 0 <= b1 < b2 < names1.len() && names1[b1] == names1[b2] implies #[trigger] p[b1] < #[trigger] p[b2] by {
        let x = names1[b1];
        lemma_stable_entry(names1, names2, b1);
        lemma_stable_entry(names1, names2, b2);
        lemma_count_strict(names1, x, b1, b2);
        if p[b2] < p[b1] {
            lemma_count_strict(names2, x, p[b2], p[b1]);
        }
    }
}

/// The order in which bone names are listed does not change what
/// [`crate::auto_map_bones`] assigns: two lists holding the same names, each
/// as often, give the same map.
pub proof fn lemma_auto_map_order_independent(
    names1: Seq<Seq<char>>,
    names2: Seq<Seq<char>>,
    chosen1: Set<int>,
    m1: Map<HumanoidBone, Seq<char>>,
    chosen2: Set<int>,
    m2: Map<HumanoidBone, Seq<char>>,
)
    requires
        names1.to_multiset() == names2.to_multiset(),
        is_greedy_selection(names1, chosen1),
        maps_selection(names1, chosen1, m1),
        is_greedy_selection(names2, chosen2),
        maps_selection(names2, chosen2, m2),
    ensures
        m1 == m2,
{
    lemma_stable_reordering(names1, names2);
    lemma_reordered_same_map(
        names1,
        names2,
        stable_map(names1, names2),
        stable_map(names2, names1),
        chosen1,
        m1,
        chosen2,
        m2,
    );
}

} // verus!
