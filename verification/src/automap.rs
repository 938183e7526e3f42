//! Heuristic automatic bone assignment.
//!
//! Given the list of bone/joint names found in an arbitrary rigged model,
//! guess which [`HumanoidBone`] each one corresponds to. This is not meant
//! to be perfect: it is meant to get a usable starting map for the common
//! naming conventions in the wild (VRM / Unity Humanoid, Mixamo, and
//! Mixamo-derived rigs such as Ready Player Me) so a person can fix the few
//! bones it gets wrong instead of assigning all of them by hand.
use vstd::prelude::*;

use crate::bone::HumanoidBone;
use crate::config::BoneMap;
use crate::scoring;
use crate::scoring::{bone_tokens_of, candidates_for_bone};
use crate::tokenize;

verus! {

/// Every candidate assignment for a list of bone names, in the order they
/// are generated: by bone, and within a bone in the order of
/// [`crate::scoring::candidates_spec`]. Each entry is (bone index, slot, score).
pub open spec fn all_candidates(names: Seq<Seq<char>>) -> Seq<(int, HumanoidBone, int)>
    decreases names.len(),
{
    if names.len() == 0 {
        Seq::empty()
    } else {
        let b = names.len() - 1;
        all_candidates(names.drop_last()) + scoring::bone_candidates(names.last()).map_values(
            |c: (HumanoidBone, int)| (b, c.0, c.1),
        )
    }
}

/// The UTF-8 byte length of a name, as `str::len` reports it.
pub open spec fn byte_len(s: Seq<char>) -> int {
    (vstd::utf8::encode_utf8(s).len() as usize) as int
}

/// `a` comes before `b` in code point order, the order in which `str`
/// values compare: at the first position where they differ the smaller
/// character wins, and a proper prefix comes first.
pub open spec fn text_less(a: Seq<char>, b: Seq<char>) -> bool
    decreases a.len(),
{
    if a.len() == 0 {
        b.len() > 0
    } else if b.len() == 0 {
        false
    } else if a[0] != b[0] {
        (a[0] as u32) < (b[0] as u32)
    } else {
        text_less(a.drop_first(), b.drop_first())
    }
}

/// The order in which candidates are considered: higher score first; on
/// equal scores the shorter (more specific) source name first; on equal
/// lengths the name that comes first in code point order. Only candidates
/// of two bones with the very same name are left, and between those the
/// earlier generated candidate goes first.
pub open spec fn precedes(names: Seq<Seq<char>>, c: Seq<(int, HumanoidBone, int)>, i: int, j: int) -> bool {
    let ni = names[c[i].0];
    let nj = names[c[j].0];
    let li = byte_len(ni);
    let lj = byte_len(nj);
    ||| c[i].2 > c[j].2
    ||| c[i].2 == c[j].2 && li < lj
    ||| c[i].2 == c[j].2 && li == lj && text_less(ni, nj)
    ||| c[i].2 == c[j].2 && li == lj && ni == nj && i < j
}

/// Two candidates compete when they assign the same bone or fill the same slot.
pub open spec fn conflicts(c: Seq<(int, HumanoidBone, int)>, i: int, j: int) -> bool {
    c[i].0 == c[j].0 || c[i].1 == c[j].1
}

/// `chosen` is the greedy selection of candidates: a candidate is chosen
/// exactly when no chosen candidate that precedes it competes with it.
pub open spec fn is_greedy_selection(names: Seq<Seq<char>>, chosen: Set<int>) -> bool {
    let c = all_candidates(names);
    &&& forall|i: int| #[trigger] chosen.contains(i) ==> 0 <= i < c.len()
    &&& forall|i: int|
        0 <= i < c.len() ==> (#[trigger] chosen.contains(i) <==> !exists|j: int|
            chosen.contains(j) && #[trigger] precedes(names, c, j, i) && conflicts(c, i, j))
}

/// `m` holds exactly the chosen candidates: each chosen candidate's slot is
/// assigned its bone's name, and no other slot is assigned.
pub open spec fn maps_selection(names: Seq<Seq<char>>, chosen: Set<int>, m: Map<HumanoidBone, Seq<char>>) -> bool {
    let c = all_candidates(names);
    &&& forall|s: HumanoidBone| #[trigger] m.contains_key(s) <==> exists|i: int| #[trigger] chosen.contains(i) && c[i].1 == s
    &&& forall|i: int| #[trigger] chosen.contains(i) ==> m[c[i].1] == names[c[i].0]
}

/// The integer view of generated candidates.
pub open spec fn cand_views(v: Seq<(usize, HumanoidBone, i128)>) -> Seq<(int, HumanoidBone, int)> {
    v.map_values(|c: (usize, HumanoidBone, i128)| (c.0 as int, c.1, c.2 as int))
}

/// No text comes before itself.
pub proof fn lemma_text_less_irreflexive(a: Seq<char>)
    ensures
        !text_less(a, a),
    decreases a.len(),
{
    if a.len() > 0 {
        lemma_text_less_irreflexive(a.drop_first());
    }
}

/// Of two different texts exactly one comes first.
pub proof fn lemma_text_less_total(a: Seq<char>, b: Seq<char>)
    ensures
        text_less(a, b) ==> !text_less(b, a),
        a != b ==> text_less(a, b) || text_less(b, a),
    decreases a.len(),
{
    if a.len() > 0 && b.len() > 0 && a[0] == b[0] {
        lemma_text_less_total(a.drop_first(), b.drop_first());
        if a != b {
            assert(a =~= seq![a[0]] + a.drop_first());
            assert(b =~= seq![b[0]] + b.drop_first());
        }
    }
    if a.len() == 0 && b.len() == 0 {
        assert(a =~= b);
    }
    if a.len() > 0 && b.len() > 0 {
        // distinct characters have distinct scalar values
        vstd::utf8::char_u32_cast(a[0], a[0] as u32);
        vstd::utf8::char_u32_cast(b[0], b[0] as u32);
    }
}

/// Code point order is transitive.
pub proof fn lemma_text_less_transitive(a: Seq<char>, b: Seq<char>, d: Seq<char>)
    requires
        text_less(a, b),
        text_less(b, d),
    ensures
        text_less(a, d),
    decreases a.len(),
{
    if a.len() > 0 && a[0] == b[0] && b[0] == d[0] {
        lemma_text_less_transitive(a.drop_first(), b.drop_first(), d.drop_first());
    }
}

/// `precedes` is a strict total order on candidate positions.
pub proof fn lemma_precedes_order(names: Seq<Seq<char>>, c: Seq<(int, HumanoidBone, int)>, i: int, j: int, k: int)
    ensures
        !precedes(names, c, i, i),
        precedes(names, c, i, j) ==> !precedes(names, c, j, i),
        i != j ==> precedes(names, c, i, j) || precedes(names, c, j, i),
        precedes(names, c, i, j) && precedes(names, c, j, k) ==> precedes(names, c, i, k),
{
    let ni = names[c[i].0];
    let nj = names[c[j].0];
    let nk = names[c[k].0];
    lemma_text_less_irreflexive(ni);
    lemma_text_less_total(ni, nj);
    lemma_text_less_total(nj, nk);
    lemma_text_less_total(ni, nk);
    if text_less(ni, nj) && text_less(nj, nk) {
        lemma_text_less_transitive(ni, nj, nk);
    }
}

/// All candidates, generated bone by bone.
fn generate_candidates(bone_names: &[String]) -> (cands: Vec<(usize, HumanoidBone, i128)>)
    ensures
        cand_views(cands@) == all_candidates(tokenize::views(bone_names@)),
        forall|i: int| 0 <= i < cands@.len() ==> (#[trigger] cands@[i]).0 < bone_names@.len(),
{
    let ghost names = tokenize::views(bone_names@);
    let mut cands: Vec<(usize, HumanoidBone, i128)> = Vec::new();
    let mut b: usize = 0;
    assert(cand_views(cands@) =~= all_candidates(names.take(0)));
    while b < bone_names.len()
        invariant
            names == tokenize::views(bone_names@),
            b <= bone_names@.len(),
            cand_views(cands@) == all_candidates(names.take(b as int)),
            forall|i: int| 0 <= i < cands@.len() ==> (#[trigger] cands@[i]).0 < b,
        decreases bone_names@.len() - b,
    {
        let (tokens, lat) = bone_tokens_of(bone_names[b].as_str());
        let per_bone = candidates_for_bone(tokens.as_slice(), lat);
        let ghost pb = scoring::scored_views(per_bone@);
        let ghost tagged = pb.map_values(|c: (HumanoidBone, int)| (b as int, c.0, c.1));
        proof {
            assert(names.take(b + 1).drop_last() =~= names.take(b as int));
            assert(names.take(b + 1).last() == names[b as int]);
            assert(pb == scoring::bone_candidates(names[b as int]));
        }
        let mut k: usize = 0;
        while k < per_bone.len()
            invariant
                names == tokenize::views(bone_names@),
                b < bone_names@.len(),
                pb == scoring::scored_views(per_bone@),
                tagged == pb.map_values(|c: (HumanoidBone, int)| (b as int, c.0, c.1)),
                k <= per_bone@.len(),
                cand_views(cands@) == all_candidates(names.take(b as int)) + tagged.take(k as int),
                forall|i: int| 0 <= i < cands@.len() ==> (#[trigger] cands@[i]).0 <= b,
            decreases per_bone@.len() - k,
        {
            let (slot, score) = per_bone[k];
            let ghost before = cands@;
            cands.push((b, slot, score));
            proof {
                assert(cand_views(cands@) =~= cand_views(before).push((b as int, slot, score as int)));
                assert(tagged.take(k + 1) =~= tagged.take(k as int).push(tagged[k as int]));
            }
            k = k + 1;
        }
        proof {
            assert(tagged.take(per_bone@.len() as int) =~= tagged);
            assert(all_candidates(names.take(b + 1)) =~= all_candidates(names.take(b as int)) + tagged);
        }
        b = b + 1;
    }
    proof {
        assert(names.take(bone_names@.len() as int) =~= names);
    }
    cands
}

/// The characters of a name.
fn chars_of(name: &str) -> (v: Vec<char>)
    ensures
        v@ == name@,
{
    broadcast use vstd::string::axiom_spec_iter;
    let mut v: Vec<char> = Vec::new();
    for c in it: name.chars()
        invariant
            it.seq() == name@,
            v@ == name@.take(it.index() as int),
    {
        proof {
            assert(name@.take(it.index() + 1) =~= name@.take(it.index() as int).push(c));
        }
        v.push(c);
    }
    proof {
        assert(name@.take(name@.len() as int) =~= name@);
    }
    v
}

/// The characters of every name, in input order.
fn texts_of(bone_names: &[String]) -> (texts: Vec<Vec<char>>)
    ensures
        texts@.len() == bone_names@.len(),
        forall|b: int| 0 <= b < bone_names@.len() ==> (#[trigger] texts@[b])@ == bone_names@[b]@,
{
    let mut texts: Vec<Vec<char>> = Vec::new();
    let mut b: usize = 0;
    while b < bone_names.len()
        invariant
            b <= bone_names@.len(),
            texts@.len() == b,
            forall|x: int| 0 <= x < b ==> (#[trigger] texts@[x])@ == bone_names@[x]@,
        decreases bone_names@.len() - b,
    {
        texts.push(chars_of(bone_names[b].as_str()));
        b = b + 1;
    }
    texts
}

/// Whether `a` comes before `b` in code point order.
fn text_before(a: &Vec<char>, b: &Vec<char>) -> (r: bool)
    ensures
        r == text_less(a@, b@),
{
    let mut i: usize = 0;
    assert(a@.skip(0) =~= a@ && b@.skip(0) =~= b@);
    while i < a.len() && i < b.len() && a[i] == b[i]
        invariant
            i <= a@.len(),
            i <= b@.len(),
            text_less(a@, b@) == text_less(a@.skip(i as int), b@.skip(i as int)),
        decreases a@.len() - i,
    {
        proof {
            assert(a@.skip(i as int).drop_first() =~= a@.skip(i + 1));
            assert(b@.skip(i as int).drop_first() =~= b@.skip(i + 1));
        }
        i = i + 1;
    }
    if i == a.len() {
        i < b.len()
    } else if i == b.len() {
        false
    } else {
        let x: char = a[i];
        let y: char = b[i];
        proof {
            assert(a@.skip(i as int)[0] == x && b@.skip(i as int)[0] == y);
        }
        (x as u32) < (y as u32)
    }
}

/// Whether candidate `i` is considered before candidate `j`.
fn considered_before(
    bone_names: &[String],
    texts: &Vec<Vec<char>>,
    cands: &Vec<(usize, HumanoidBone, i128)>,
    i: usize,
    j: usize,
) -> (r: bool)
    requires
        i < cands@.len(),
        j < cands@.len(),
        texts@.len() == bone_names@.len(),
        forall|b: int| 0 <= b < bone_names@.len() ==> (#[trigger] texts@[b])@ == bone_names@[b]@,
        forall|x: int| 0 <= x < cands@.len() ==> (#[trigger] cands@[x]).0 < bone_names@.len(),
    ensures
        r == precedes(tokenize::views(bone_names@), cand_views(cands@), i as int, j as int),
{
    let (bi, _, si) = cands[i];
    let (bj, _, sj) = cands[j];
    if si != sj {
        return si > sj;
    }
    let li = bone_names[bi].as_str().len();
    let lj = bone_names[bj].as_str().len();
    if li != lj {
        return li < lj;
    }
    if text_before(&texts[bi], &texts[bj]) {
        return true;
    }
    let after = text_before(&texts[bj], &texts[bi]);
    proof {
        lemma_text_less_total(texts@[bi as int]@, texts@[bj as int]@);
    }
    !after && i < j
}

/// Candidate positions sorted by [`precedes`].
fn consideration_order(bone_names: &[String], texts: &Vec<Vec<char>>, cands: &Vec<(usize, HumanoidBone, i128)>) -> (order: Vec<usize>)
    requires
        texts@.len() == bone_names@.len(),
        forall|b: int| 0 <= b < bone_names@.len() ==> (#[trigger] texts@[b])@ == bone_names@[b]@,
        forall|x: int| 0 <= x < cands@.len() ==> (#[trigger] cands@[x]).0 < bone_names@.len(),
    ensures
        order@.len() == cands@.len(),
        forall|x: usize| #[trigger] order@.contains(x) <==> x < cands@.len(),
        forall|a: int, b: int|
            0 <= a < b < order@.len() ==> precedes(tokenize::views(bone_names@), cand_views(cands@), order@[a] as int, order@[b] as int),
{
    let ghost names = tokenize::views(bone_names@);
    let ghost c = cand_views(cands@);
    let mut order: Vec<usize> = Vec::new();
    let mut i: usize = 0;
    while i < cands.len()
        invariant
            texts@.len() == bone_names@.len(),
            forall|b: int| 0 <= b < bone_names@.len() ==> (#[trigger] texts@[b])@ == bone_names@[b]@,
            names == tokenize::views(bone_names@),
            c == cand_views(cands@),
            forall|x: int| 0 <= x < cands@.len() ==> (#[trigger] cands@[x]).0 < bone_names@.len(),
            i <= cands@.len(),
            order@.len() == i,
            forall|x: usize| #[trigger] order@.contains(x) <==> x < i,
            forall|a: int, b: int| 0 <= a < b < order@.len() ==> precedes(names, c, order@[a] as int, order@[b] as int),
        decreases cands@.len() - i,
    {
        assert forall|m: int| 0 <= m < order@.len() implies (#[trigger] order@[m] as int) < i by {
            assert(order@.contains(order@[m]));
        }
        let mut q: usize = 0;
        while q < order.len() && !considered_before(bone_names, texts, cands, i, order[q])
            invariant
                texts@.len() == bone_names@.len(),
                forall|b: int| 0 <= b < bone_names@.len() ==> (#[trigger] texts@[b])@ == bone_names@[b]@,
                names == tokenize::views(bone_names@),
                c == cand_views(cands@),
                forall|x: int| 0 <= x < cands@.len() ==> (#[trigger] cands@[x]).0 < bone_names@.len(),
                i < cands@.len(),
                order@.len() == i,
                forall|x: usize| #[trigger] order@.contains(x) <==> x < i,
                q <= order@.len(),
                forall|m: int| 0 <= m < order@.len() ==> (#[trigger] order@[m] as int) < i,
                forall|m: int| 0 <= m < q ==> !precedes(names, c, i as int, #[trigger] order@[m] as int),
            decreases order@.len() - q,
        {
            q = q + 1;
        }
        let ghost old_order = order@;
        proof {
            assert forall|m: int| 0 <= m < q implies precedes(names, c, #[trigger] old_order[m] as int, i as int) by {
                assert(old_order.contains(old_order[m]));
                lemma_precedes_order(names, c, i as int, old_order[m] as int, 0);
            }
            assert forall|m: int| q <= m < old_order.len() implies precedes(names, c, i as int, #[trigger] old_order[m] as int) by {
                if m > q {
                    lemma_precedes_order(names, c, i as int, old_order[q as int] as int, old_order[m] as int);
                }
            }
        }
        order.insert(q, i);
        proof {
            assert forall|x: usize| #[trigger] order@.contains(x) <==> x < i + 1 by {
                if x < i {
                    assert(old_order.contains(x));
                    let m = choose|m: int| 0 <= m < old_order.len() && old_order[m] == x;
                    if m < q {
                        assert(order@[m] == x);
                    } else {
                        assert(order@[m + 1] == x);
                    }
                } else if x == i {
                    assert(order@[q as int] == x);
                }
                if order@.contains(x) {
                    let m = choose|m: int| 0 <= m < order@.len() && order@[m] == x;
                    if m < q {
                        assert(old_order.contains(order@[m]));
                    } else if m > q {
                        assert(old_order[m - 1] == x);
                        assert(old_order.contains(x));
                    }
                }
            }
            assert forall|a: int, b: int| 0 <= a < b < order@.len() implies precedes(names, c, order@[a] as int, order@[b] as int) by {
                if a < q && b < q {
                } else if a < q && b == q {
                } else if a < q && b > q {
                    assert(order@[b] == old_order[b - 1]);
                } else if a == q {
                    assert(order@[b] == old_order[b - 1]);
                } else {
                    assert(order@[a] == old_order[a - 1]);
                    assert(order@[b] == old_order[b - 1]);
                }
            }
        }
        i = i + 1;
    }
    order
}

/// Guess a [`BoneMap`] from the raw bone/joint names present in a loaded
/// model's skeleton. `bone_names` should be every joint name exactly as it
/// appears in the model (order doesn't matter: see
/// [`crate::reorder::lemma_auto_map_order_independent`]).
///
/// Each source name is assigned to at most one [`HumanoidBone`] slot, and
/// each slot receives at most one source name; ambiguous or unrecognized
/// bones (fingers, spring bones, accessories, ...) are simply left out, to
/// be filled in by hand if needed. Highest-scoring matches win first; ties
/// go to the shorter (more specific) source name, so e.g. `"LeftHand"` beats
/// `"LeftHandIndex1"` for the LeftHand slot, and names of equal length are
/// settled by their text.
pub fn auto_map_bones(bone_names: &[String]) -> (map: BoneMap)
    ensures
        exists|chosen: Set<int>|
            is_greedy_selection(tokenize::views(bone_names@), chosen) && maps_selection(tokenize::views(bone_names@), chosen, map@),
{
    let ghost names = tokenize::views(bone_names@);
    let cands = generate_candidates(bone_names);
    let ghost c = cand_views(cands@);
    let texts = texts_of(bone_names);
    let order = consideration_order(bone_names, &texts, &cands);

    let mut map = BoneMap::new();
    let mut slot_taken: Vec<bool> = Vec::new();
    let mut s: usize = 0;
    while s < 25
        invariant
            s <= 25,
            slot_taken@.len() == s,
            forall|x: int| 0 <= x < s ==> !#[trigger] slot_taken@[x],
        decreases 25 - s,
    {
        slot_taken.push(false);
        s = s + 1;
    }
    let mut bone_taken: Vec<bool> = Vec::new();
    let mut b: usize = 0;
    while b < bone_names.len()
        invariant
            b <= bone_names@.len(),
            bone_taken@.len() == b,
            forall|x: int| 0 <= x < b ==> !#[trigger] bone_taken@[x],
        decreases bone_names@.len() - b,
    {
        bone_taken.push(false);
        b = b + 1;
    }

    let ghost mut chosen: Set<int> = Set::empty();
    let mut k: usize = 0;
    while k < order.len()
        invariant
            names == tokenize::views(bone_names@),
            c == cand_views(cands@),
            c == all_candidates(names),
            forall|x: int| 0 <= x < cands@.len() ==> (#[trigger] cands@[x]).0 < bone_names@.len(),
            order@.len() == cands@.len(),
            forall|x: usize| #[trigger] order@.contains(x) <==> x < cands@.len(),
            forall|a: int, b: int| 0 <= a < b < order@.len() ==> precedes(names, c, order@[a] as int, order@[b] as int),
            slot_taken@.len() == 25,
            bone_taken@.len() == bone_names@.len(),
            k <= order@.len(),
            // everything chosen has been considered already
            forall|x: int| #[trigger] chosen.contains(x) ==> exists|m: int| 0 <= m < k && order@[m] == x,
            // a considered candidate is chosen exactly when no earlier chosen one competes with it
            forall|m: int|
                0 <= m < k ==> (chosen.contains(#[trigger] order@[m] as int) <==> !exists|m2: int|
                    0 <= m2 < m && chosen.contains(order@[m2] as int) && conflicts(c, order@[m] as int, #[trigger] order@[m2] as int)),
            forall|p: int|
                0 <= p < 25 ==> (#[trigger] slot_taken@[p] <==> exists|x: int| #[trigger] chosen.contains(x) && c[x].1.position() == p),
            forall|q: int|
                0 <= q < bone_taken@.len() ==> (#[trigger] bone_taken@[q] <==> exists|x: int| #[trigger] chosen.contains(x) && c[x].0 == q),
            maps_selection(names, chosen, map@),
        decreases order@.len() - k,
    {
        let x = order[k];
        proof {
            assert(order@.contains(x));
        }
        let (bone, slot, _) = cands[x];
        let si = slot.index() as usize;
        proof {
            assert(c[x as int].1 == slot);
            assert(c[x as int].0 == bone);
            assert(names[bone as int] == bone_names@[bone as int]@);
        }
        proof {
            lemma_order_distinct(names, c, order@);
        }
        if !slot_taken[si] && !bone_taken[bone] {
            let ghost prev_chosen = chosen;
            let ghost prev_map = map@;
            let ghost prev_slot_taken = slot_taken@;
            let ghost prev_bone_taken = bone_taken@;
            assert(maps_selection(names, prev_chosen, prev_map));
            map.set(slot, bone_names[bone].clone());
            slot_taken.set(si, true);
            bone_taken.set(bone, true);
            proof {
                chosen = chosen.insert(x as int);
                // no earlier chosen candidate competes with x
                assert forall|m2: int| 0 <= m2 < k && prev_chosen.contains(order@[m2] as int) implies !conflicts(
                    c,
                    x as int,
                    order@[m2] as int,
                ) by {
                    let y = order@[m2] as int;
                    if c[y].0 == c[x as int].0 {
                        assert(prev_bone_taken[bone as int]);
                    }
                    if c[y].1 == c[x as int].1 {
                        assert(prev_slot_taken[si as int]);
                    }
                }
                assert forall|x2: int| #[trigger] chosen.contains(x2) implies exists|m: int| 0 <= m < k + 1 && order@[m] == x2 by {
                    if x2 != x {
                        let m = choose|m: int| 0 <= m < k && order@[m] == x2;
                        assert(0 <= m < k + 1 && order@[m] == x2);
                    } else {
                        assert(order@[k as int] == x2);
                    }
                }
                assert forall|m: int| 0 <= m < k + 1 implies (chosen.contains(#[trigger] order@[m] as int) <==> !exists|m2: int|
                    0 <= m2 < m && chosen.contains(order@[m2] as int) && conflicts(c, order@[m] as int, #[trigger] order@[m2] as int)) by {
                    if m < k {
                        assert(order@[m] != x);
                        assert forall|m2: int| 0 <= m2 < m implies (chosen.contains(order@[m2] as int) == prev_chosen.contains(order@[m2] as int)) by {
                            assert(order@[m2] != x);
                        }
                    } else {
                        assert forall|m2: int| 0 <= m2 < m implies (chosen.contains(order@[m2] as int) == prev_chosen.contains(order@[m2] as int)) by {
                            assert(order@[m2] != x);
                        }
                    }
                }
                assert forall|p: int| 0 <= p < 25 implies (#[trigger] slot_taken@[p] <==> exists|x2: int| #[trigger] chosen.contains(x2) && c[x2].1.position() == p) by {
                    if p == si {
                        assert(chosen.contains(x as int) && c[x as int].1.position() == p);
                    } else {
                        if exists|x2: int| #[trigger] chosen.contains(x2) && c[x2].1.position() == p {
                            let x2 = choose|x2: int| #[trigger] chosen.contains(x2) && c[x2].1.position() == p;
                            assert(prev_chosen.contains(x2));
                        }
                    }
                }
                assert forall|q: int| 0 <= q < bone_taken@.len() implies (#[trigger] bone_taken@[q] <==> exists|x2: int| #[trigger] chosen.contains(x2) && c[x2].0 == q) by {
                    if q == bone {
                        assert(chosen.contains(x as int) && c[x as int].0 == q);
                    } else {
                        if exists|x2: int| #[trigger] chosen.contains(x2) && c[x2].0 == q {
                            let x2 = choose|x2: int| #[trigger] chosen.contains(x2) && c[x2].0 == q;
                            assert(prev_chosen.contains(x2));
                        }
                    }
                }
                assert forall|s2: HumanoidBone| #[trigger] map@.contains_key(s2) <==> exists|i: int| #[trigger] chosen.contains(i) && c[i].1 == s2 by {
                    if s2 == slot {
                        assert(chosen.contains(x as int) && c[x as int].1 == s2);
                    } else {
                        assert(map@.contains_key(s2) == prev_map.contains_key(s2));
                        if exists|i: int| #[trigger] chosen.contains(i) && c[i].1 == s2 {
                            let i = choose|i: int| #[trigger] chosen.contains(i) && c[i].1 == s2;
                            assert(prev_chosen.contains(i));
                        }
                        if prev_map.contains_key(s2) {
                            let i = choose|i: int| #[trigger] prev_chosen.contains(i) && c[i].1 == s2;
                            assert(chosen.contains(i));
                        }
                    }
                }
                assert forall|i: int| #[trigger] chosen.contains(i) implies map@[c[i].1] == names[c[i].0] by {
                    if i == x {
                        assert(map@[slot] == names[bone as int]);
                    } else {
                        assert(prev_chosen.contains(i));
                        if c[i].1 == slot {
                            crate::bone::lemma_position_roundtrip(slot, 0);
                            assert(prev_slot_taken[si as int]);
                        }
                    }
                }
                assert(maps_selection(names, chosen, map@));
            }
        } else {
            proof {
                assert(!chosen.contains(x as int)) by {
                    if chosen.contains(x as int) {
                        let m = choose|m: int| 0 <= m < k && order@[m] == x;
                    }
                }
                let y: int = if slot_taken[si as int] {
                    choose|x2: int| #[trigger] chosen.contains(x2) && c[x2].1.position() == si
                } else {
                    choose|x2: int| #[trigger] chosen.contains(x2) && c[x2].0 == bone
                };
                assert(chosen.contains(y));
                crate::bone::lemma_position_roundtrip(slot, 0);
                crate::bone::lemma_position_roundtrip(c[y].1, 0);
                assert(conflicts(c, x as int, y));
                let m2 = choose|m2: int| 0 <= m2 < k && order@[m2] == y;
                assert(0 <= m2 < k && chosen.contains(order@[m2] as int) && conflicts(c, order@[k as int] as int, order@[m2] as int));
            }
        }
        k = k + 1;
    }
    proof {
        lemma_order_distinct(names, c, order@);
        assert(is_greedy_selection(names, chosen)) by {
            assert forall|i: int| #[trigger] chosen.contains(i) implies 0 <= i < c.len() by {
                let m = choose|m: int| 0 <= m < order@.len() && order@[m] == i;
                assert(order@.contains(order@[m]));
            }
            assert forall|i: int| 0 <= i < c.len() implies (#[trigger] chosen.contains(i) <==> !exists|j: int|
                chosen.contains(j) && #[trigger] precedes(names, c, j, i) && conflicts(c, i, j)) by {
                assert(order@.contains(i as usize));
                let a = choose|a: int| 0 <= a < order@.len() && order@[a] == i as usize;
                if exists|j: int| chosen.contains(j) && #[trigger] precedes(names, c, j, i) && conflicts(c, i, j) {
                    let j = choose|j: int| chosen.contains(j) && #[trigger] precedes(names, c, j, i) && conflicts(c, i, j);
                    let m2 = choose|m2: int| 0 <= m2 < order@.len() && order@[m2] == j;
                    lemma_precedes_order(names, c, i, j, 0);
                    if m2 > a {
                        assert(precedes(names, c, order@[a] as int, order@[m2] as int));
                    }
                    assert(m2 < a);
                    assert(0 <= m2 < a && chosen.contains(order@[m2] as int) && conflicts(c, order@[a] as int, order@[m2] as int));
                }
                if exists|m2: int| 0 <= m2 < a && chosen.contains(order@[m2] as int) && conflicts(c, order@[a] as int, #[trigger] order@[m2] as int) {
                    let m2 = choose|m2: int| 0 <= m2 < a && chosen.contains(order@[m2] as int) && conflicts(c, order@[a] as int, #[trigger] order@[m2] as int);
                    let j = order@[m2] as int;
                    assert(precedes(names, c, j, i));
                }
            }
        }
    }
    map
}

/// Entries of a consideration order are distinct.
proof fn lemma_order_distinct(names: Seq<Seq<char>>, c: Seq<(int, HumanoidBone, int)>, order: Seq<usize>)
    requires
        forall|a: int, b: int| 0 <= a < b < order.len() ==> precedes(names, c, order[a] as int, order[b] as int),
    ensures
        forall|a: int, b: int| 0 <= a < order.len() && 0 <= b < order.len() && a != b ==> #[trigger] order[a] != #[trigger] order[b],
{
    assert forall|a: int, b: int| 0 <= a < order.len() && 0 <= b < order.len() && a != b implies #[trigger] order[a] != #[trigger] order[b] by {
        lemma_precedes_order(names, c, order[a] as int, order[b] as int, 0);
    }
}

/// Among finitely many candidate positions there is one that precedes all the others.
proof fn lemma_first_exists(names: Seq<Seq<char>>, c: Seq<(int, HumanoidBone, int)>, d: Set<int>, n: int)
    requires
        forall|x: int| #[trigger] d.contains(x) ==> 0 <= x < n,
        exists|x: int| #[trigger] d.contains(x),
    ensures
        exists|m: int| #[trigger] d.contains(m) && forall|y: int| #[trigger] d.contains(y) && y != m ==> precedes(names, c, m, y),
    decreases n,
{
    if n <= 0 {
        let x = choose|x: int| #[trigger] d.contains(x);
        assert(false);
    } else if !d.contains(n - 1) {
        lemma_first_exists(names, c, d, n - 1);
    } else {
        let rest = d.remove(n - 1);
        if exists|x: int| #[trigger] rest.contains(x) {
            lemma_first_exists(names, c, rest, n - 1);
            let m0 = choose|m: int| #[trigger] rest.contains(m) && forall|y: int| #[trigger] rest.contains(y) && y != m ==> precedes(names, c, m, y);
            lemma_precedes_order(names, c, m0, n - 1, 0);
            if precedes(names, c, m0, n - 1) {
                assert forall|y: int| #[trigger] d.contains(y) && y != m0 implies precedes(names, c, m0, y) by {
                    if y != n - 1 {
                        assert(rest.contains(y));
                    }
                }
                assert(d.contains(m0));
            } else {
                assert forall|y: int| #[trigger] d.contains(y) && y != n - 1 implies precedes(names, c, n - 1, y) by {
                    assert(rest.contains(y));
                    lemma_precedes_order(names, c, n - 1, m0, y);
                }
                assert(d.contains(n - 1));
            }
        } else {
            assert forall|y: int| #[trigger] d.contains(y) && y != n - 1 implies precedes(names, c, n - 1, y) by {
                assert(rest.contains(y));
            }
            assert(d.contains(n - 1));
        }
    }
}

/// There is only one greedy selection for a list of names, so the contract
/// of [`auto_map_bones`] determines its result.
pub proof fn lemma_greedy_selection_unique(names: Seq<Seq<char>>, chosen1: Set<int>, chosen2: Set<int>)
    requires
        is_greedy_selection(names, chosen1),
        is_greedy_selection(names, chosen2),
    ensures
        chosen1 == chosen2,
{
    let c = all_candidates(names);
    let d = Set::new(|x: int| 0 <= x < c.len() && chosen1.contains(x) != chosen2.contains(x));
    if exists|x: int| #[trigger] d.contains(x) {
        lemma_first_exists(names, c, d, c.len() as int);
        let e = choose|m: int| #[trigger] d.contains(m) && forall|y: int| #[trigger] d.contains(y) && y != m ==> precedes(names, c, m, y);
        if chosen1.contains(e) {
            // e was passed over by the second selection: something chosen there blocks it
            let j = choose|j: int| chosen2.contains(j) && #[trigger] precedes(names, c, j, e) && conflicts(c, e, j);
            lemma_precedes_order(names, c, e, j, 0);
            if !chosen1.contains(j) {
                assert(d.contains(j));
            }
            assert(false);
        } else {
            let j = choose|j: int| chosen1.contains(j) && #[trigger] precedes(names, c, j, e) && conflicts(c, e, j);
            lemma_precedes_order(names, c, e, j, 0);
            if !chosen2.contains(j) {
                assert(d.contains(j));
            }
            assert(false);
        }
    }
    assert forall|x: int| chosen1.contains(x) <==> chosen2.contains(x) by {
        if chosen1.contains(x) || chosen2.contains(x) {
            if chosen1.contains(x) != chosen2.contains(x) {
                assert(d.contains(x));
            }
        }
    }
    assert(chosen1 =~= chosen2);
}

/// [`auto_map_bones`] is determined by its inputs: any two maps meeting its
/// contract for the same bone names are equal.
pub proof fn lemma_auto_map_determined(
    names: Seq<Seq<char>>,
    chosen1: Set<int>,
    m1: Map<HumanoidBone, Seq<char>>,
    chosen2: Set<int>,
    m2: Map<HumanoidBone, Seq<char>>,
)
    requires
        is_greedy_selection(names, chosen1),
        maps_selection(names, chosen1, m1),
        is_greedy_selection(names, chosen2),
        maps_selection(names, chosen2, m2),
    ensures
        m1 == m2,
{
    lemma_greedy_selection_unique(names, chosen1, chosen2);
    let c = all_candidates(names);
    assert forall|s: HumanoidBone| m1.contains_key(s) implies m1[s] == m2[s] by {
        let i = choose|i: int| #[trigger] chosen1.contains(i) && c[i].1 == s;
    }
    assert(m1 =~= m2);
}

/// Each source bone fills at most one slot, and each slot is filled from at
/// most one source bone: no two chosen candidates compete.
pub proof fn lemma_selection_one_to_one(names: Seq<Seq<char>>, chosen: Set<int>, i: int, j: int)
    requires
        is_greedy_selection(names, chosen),
        chosen.contains(i),
        chosen.contains(j),
        i != j,
    ensures
        all_candidates(names)[i].0 != all_candidates(names)[j].0,
        all_candidates(names)[i].1 != all_candidates(names)[j].1,
{
    let c = all_candidates(names);
    lemma_precedes_order(names, c, i, j, 0);
    if precedes(names, c, i, j) {
        assert(!conflicts(c, j, i));
    } else {
        assert(!conflicts(c, i, j));
    }
}

/// Every generated candidate names a real bone (an index into `names`) and
/// one of the slots that bone's own tokens scored for.
pub proof fn lemma_candidates_from_bones(names: Seq<Seq<char>>, i: int)
    requires
        0 <= i < all_candidates(names).len(),
    ensures
        0 <= all_candidates(names)[i].0 < names.len(),
        exists|k: int|
            0 <= k < scoring::bone_candidates(names[all_candidates(names)[i].0]).len() && #[trigger] scoring::bone_candidates(
                names[all_candidates(names)[i].0],
            )[k] == (all_candidates(names)[i].1, all_candidates(names)[i].2),
    decreases names.len(),
{
    let prev = all_candidates(names.drop_last());
    if i < prev.len() {
        lemma_candidates_from_bones(names.drop_last(), i);
        assert(all_candidates(names)[i] == prev[i]);
        assert(names.drop_last()[prev[i].0] == names[prev[i].0]);
    } else {
        let k = i - prev.len();
        let n = names.len() - 1;
        let own = scoring::bone_candidates(names.last());
        let tagged = own.map_values(|c: (HumanoidBone, int)| (n, c.0, c.1));
        assert(all_candidates(names) == prev + tagged);
        assert(all_candidates(names)[i] == tagged[k]);
        assert(names.last() == names[n]);
        assert(own[k] == (all_candidates(names)[i].1, all_candidates(names)[i].2));
    }
}

/// What [`auto_map_bones`] assigns: every assigned slot holds the name of one
/// of the input bones, and that bone's own tokens scored for the slot; and
/// no two slots were filled from the same input bone.
pub proof fn lemma_auto_map_assignments(names: Seq<Seq<char>>, chosen: Set<int>, m: Map<HumanoidBone, Seq<char>>, s: HumanoidBone)
    requires
        is_greedy_selection(names, chosen),
        maps_selection(names, chosen, m),
        m.contains_key(s),
    ensures
        exists|b: int|
            0 <= b < names.len() && m[s] == names[b] && exists|k: int|
                0 <= k < scoring::bone_candidates(names[b]).len() && (#[trigger] scoring::bone_candidates(names[b])[k]).0 == s,
{
    let c = all_candidates(names);
    let i = choose|i: int| #[trigger] chosen.contains(i) && c[i].1 == s;
    lemma_candidates_from_bones(names, i);
    let b = c[i].0;
    let k = choose|k: int| 0 <= k < scoring::bone_candidates(names[b]).len() && #[trigger] scoring::bone_candidates(names[b])[k] == (c[i].1, c[i].2);
    assert(scoring::bone_candidates(names[b])[k].0 == s);
}

} // verus!
