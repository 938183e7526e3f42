//! Scoring one bone's tokens against the humanoid slots it may fill.
use vstd::prelude::*;

use crate::bone::HumanoidBone;
use crate::text::{parse_i32, str_eq};
use crate::text;
use crate::tokenize;
use crate::tokenize::{laterality_of, tokenize, Laterality, NOISE_TOKENS};

verus! {

/// The views of a list of string slices.
pub open spec fn str_views(v: Seq<&str>) -> Seq<Seq<char>> {
    v.map_values(|s: &str| s@)
}

/// Whether a token is a rig-prefix / tooling artifact.
pub open spec fn is_noise(t: Seq<char>) -> bool {
    str_views(NOISE_TOKENS@).contains(t)
}

/// Whether a token survives filtering: it is not noise, and not the word
/// that marked the bone's own side.
pub open spec fn keeps_token(t: Seq<char>, lat: Laterality) -> bool {
    &&& !is_noise(t)
    &&& !(lat == Laterality::Left && tokenize::is_left_word(t))
    &&& !(lat == Laterality::Right && tokenize::is_right_word(t))
}

/// A non-empty run of ASCII digits.
pub open spec fn is_digits(t: Seq<char>) -> bool {
    t.len() > 0 && forall|i: int| 0 <= i < t.len() ==> text::is_ascii_digit(#[trigger] t[i])
}

/// Whether token `k` is the number of a `Bip01`-style rig prefix: a run of
/// digits right after a `bip` token (the tokenizer splits `Bip01` into
/// `bip` and `01`), which belongs to the prefix and is noise as well.
pub open spec fn is_prefix_number(tokens: Seq<Seq<char>>, k: int) -> bool {
    &&& 0 < k < tokens.len()
    &&& tokens[k - 1] == "bip"@
    &&& is_digits(tokens[k])
}

/// The tokens that survive filtering, in order.
pub open spec fn kept_tokens(tokens: Seq<Seq<char>>, lat: Laterality) -> Seq<Seq<char>>
    decreases tokens.len(),
{
    if tokens.len() == 0 {
        Seq::empty()
    } else {
        let rest = kept_tokens(tokens.drop_last(), lat);
        if keeps_token(tokens.last(), lat) && !is_prefix_number(tokens, tokens.len() - 1) {
            rest.push(tokens.last())
        } else {
            rest
        }
    }
}

/// The filtered tokens and the laterality of a bone name.
pub open spec fn bone_tokens(name: Seq<char>) -> (Seq<Seq<char>>, Laterality) {
    let toks = tokenize::tokens_of(name);
    let lat = tokenize::laterality_spec(toks);
    (kept_tokens(toks, lat), lat)
}

/// Whether some token is one of `words`.
pub open spec fn has_any(tokens: Seq<Seq<char>>, words: Seq<Seq<char>>) -> bool {
    exists|k: int| 0 <= k < tokens.len() && words.contains(#[trigger] tokens[k])
}

/// Whether some token equals `w`.
pub open spec fn has_word(tokens: Seq<Seq<char>>, w: Seq<char>) -> bool {
    tokens.contains(w)
}

/// How many tokens are among `words`.
pub open spec fn count_in(tokens: Seq<Seq<char>>, words: Seq<Seq<char>>) -> nat
    decreases tokens.len(),
{
    if tokens.len() == 0 {
        0
    } else {
        count_in(tokens.drop_last(), words) + if words.contains(tokens.last()) {
            1nat
        } else {
            0nat
        }
    }
}

/// A keyword match: `None` if any token is excluded or no token is one of
/// the required keywords; otherwise 100, minus 5 for every token that is not
/// one of the keywords (fewer leftovers is a more specific match).
pub open spec fn score_simple_spec(tokens: Seq<Seq<char>>, required_any: Seq<Seq<char>>, excludes: Seq<Seq<char>>) -> Option<int> {
    if has_any(tokens, excludes) {
        None
    } else if !has_any(tokens, required_any) {
        None
    } else {
        Some(100 - 5 * (tokens.len() - count_in(tokens, required_any)))
    }
}

/// The value of the first token that parses as an `i32`, if any.
pub open spec fn first_number(tokens: Seq<Seq<char>>) -> Option<int>
    decreases tokens.len(),
{
    if tokens.len() == 0 {
        None
    } else {
        match text::parse_i32_result(tokens[0]) {
            Some(v) => Some(v),
            None => first_number(tokens.drop_first()),
        }
    }
}

pub open spec fn push_scored(out: Seq<(HumanoidBone, int)>, slot: HumanoidBone, score: Option<int>) -> Seq<(HumanoidBone, int)> {
    match score {
        Some(s) => out.push((slot, s)),
        None => out,
    }
}

pub open spec fn push_if(out: Seq<(HumanoidBone, int)>, cond: bool, slot: HumanoidBone, score: int) -> Seq<(HumanoidBone, int)> {
    if cond {
        out.push((slot, score))
    } else {
        out
    }
}

pub const HIPS_WORDS: [&'static str; 3] = ["hips", "hip", "pelvis"];
pub const NECK_WORDS: [&'static str; 1] = ["neck"];
pub const HEAD_WORDS: [&'static str; 1] = ["head"];
pub const HEAD_EXCLUDES: [&'static str; 3] = ["top", "end", "eye"];
pub const JAW_WORDS: [&'static str; 2] = ["jaw", "chin"];
pub const JAW_EXCLUDES: [&'static str; 1] = ["end"];
pub const CHEST_WORDS: [&'static str; 1] = ["chest"];
pub const CHEST_EXCLUDES: [&'static str; 1] = ["upper"];
pub const EYE_WORDS: [&'static str; 1] = ["eye"];
pub const EYE_EXCLUDES: [&'static str; 4] = ["brow", "lash", "lid", "glass"];
pub const SHOULDER_WORDS: [&'static str; 2] = ["shoulder", "clavicle"];
pub const HAND_WORDS: [&'static str; 1] = ["hand"];
pub const FOOT_WORDS: [&'static str; 1] = ["foot"];
pub const TOE_WORDS: [&'static str; 2] = ["toe", "toes"];
pub const NO_WORDS: [&'static str; 0] = [];

/// Candidate slots for a bone without laterality (the body's central chain).
pub open spec fn central_candidates(t: Seq<Seq<char>>) -> Seq<(HumanoidBone, int)> {
    let o = Seq::empty();
    let o = push_scored(o, HumanoidBone::Hips, score_simple_spec(t, str_views(HIPS_WORDS@), str_views(NO_WORDS@)));
    let o = push_scored(o, HumanoidBone::Neck, score_simple_spec(t, str_views(NECK_WORDS@), str_views(NO_WORDS@)));
    let o = push_scored(o, HumanoidBone::Head, score_simple_spec(t, str_views(HEAD_WORDS@), str_views(HEAD_EXCLUDES@)));
    let o = push_scored(o, HumanoidBone::Jaw, score_simple_spec(t, str_views(JAW_WORDS@), str_views(JAW_EXCLUDES@)));
    // Spine chain: Spine, Spine1, Spine2, Spine3+ fold into three tiers.
    let number = match first_number(t) {
        Some(v) => v,
        None => 0,
    };
    let spine_slot = if number == 0 {
        HumanoidBone::Spine
    } else if number == 1 {
        HumanoidBone::Chest
    } else {
        HumanoidBone::UpperChest
    };
    let o = push_if(o, has_word(t, "spine"@), spine_slot, 100);
    let o = push_scored(o, HumanoidBone::Chest, score_simple_spec(t, str_views(CHEST_WORDS@), str_views(CHEST_EXCLUDES@)));
    push_if(o, has_word(t, "upper"@) && has_word(t, "chest"@), HumanoidBone::UpperChest, 100)
}

pub open spec fn sided(is_left: bool, left: HumanoidBone, right: HumanoidBone) -> HumanoidBone {
    if is_left {
        left
    } else {
        right
    }
}

/// The arm slot and its score: "fore"/"lower" make it the lower arm.
pub open spec fn arm_candidate(t: Seq<Seq<char>>, is_left: bool) -> (HumanoidBone, int) {
    let is_lower = has_word(t, "fore"@) || has_word(t, "lower"@);
    let extra = t.len() - 1 - if is_lower {
        1int
    } else {
        0int
    };
    let slot = if is_lower {
        sided(is_left, HumanoidBone::LeftLowerArm, HumanoidBone::RightLowerArm)
    } else {
        sided(is_left, HumanoidBone::LeftUpperArm, HumanoidBone::RightUpperArm)
    };
    (slot, 100 - extra * 5)
}

/// The leg slot: "up"/"upper" is the thigh, anything else (including a bare
/// "leg", Mixamo's shin) the lower leg.
pub open spec fn leg_slot(t: Seq<Seq<char>>, is_left: bool) -> HumanoidBone {
    if has_word(t, "up"@) || has_word(t, "upper"@) {
        sided(is_left, HumanoidBone::LeftUpperLeg, HumanoidBone::RightUpperLeg)
    } else {
        sided(is_left, HumanoidBone::LeftLowerLeg, HumanoidBone::RightLowerLeg)
    }
}

/// Candidate slots for a bone on one side of the body.
pub open spec fn lateral_candidates(t: Seq<Seq<char>>, is_left: bool) -> Seq<(HumanoidBone, int)> {
    let o = Seq::empty();
    let o = push_scored(o, sided(is_left, HumanoidBone::LeftEye, HumanoidBone::RightEye), score_simple_spec(t, str_views(EYE_WORDS@), str_views(EYE_EXCLUDES@)));
    let o = push_scored(o, sided(is_left, HumanoidBone::LeftShoulder, HumanoidBone::RightShoulder), score_simple_spec(t, str_views(SHOULDER_WORDS@), str_views(NO_WORDS@)));
    let arm = arm_candidate(t, is_left);
    let o = push_if(o, has_word(t, "arm"@), arm.0, arm.1);
    let o = push_scored(o, sided(is_left, HumanoidBone::LeftHand, HumanoidBone::RightHand), score_simple_spec(t, str_views(HAND_WORDS@), str_views(NO_WORDS@)));
    let o = push_if(o, has_word(t, "leg"@), leg_slot(t, is_left), 90);
    let o = push_scored(o, sided(is_left, HumanoidBone::LeftFoot, HumanoidBone::RightFoot), score_simple_spec(t, str_views(FOOT_WORDS@), str_views(NO_WORDS@)));
    push_scored(o, sided(is_left, HumanoidBone::LeftToes, HumanoidBone::RightToes), score_simple_spec(t, str_views(TOE_WORDS@), str_views(NO_WORDS@)))
}

/// Candidate slots, with scores, for one bone's filtered tokens.
pub open spec fn candidates_spec(t: Seq<Seq<char>>, lat: Laterality) -> Seq<(HumanoidBone, int)> {
    if lat == Laterality::Unsided {
        central_candidates(t)
    } else {
        lateral_candidates(t, lat == Laterality::Left)
    }
}

/// Candidate slots, with scores, for one raw bone name.
pub open spec fn bone_candidates(name: Seq<char>) -> Seq<(HumanoidBone, int)> {
    let (t, lat) = bone_tokens(name);
    candidates_spec(t, lat)
}

/// The views of scored candidates.
pub open spec fn scored_views(v: Seq<(HumanoidBone, i128)>) -> Seq<(HumanoidBone, int)> {
    v.map_values(|c: (HumanoidBone, i128)| (c.0, c.1 as int))
}

fn is_noise_token(t: &str) -> (b: bool)
    ensures
        b == is_noise(t@),
{
    let mut i: usize = 0;
    while i < NOISE_TOKENS.len()
        invariant
            i <= NOISE_TOKENS@.len(),
            forall|j: int| 0 <= j < i ==> str_views(NOISE_TOKENS@)[j] != t@,
        decreases NOISE_TOKENS@.len() - i,
    {
        if str_eq(NOISE_TOKENS[i], t) {
            assert(str_views(NOISE_TOKENS@)[i as int] == t@);
            return true;
        }
        i = i + 1;
    }
    false
}

/// Whether a token is a non-empty run of ASCII digits.
fn digits_only(t: &str) -> (b: bool)
    ensures
        b == is_digits(t@),
{
    let n = t.unicode_len();
    if n == 0 {
        return false;
    }
    let mut i: usize = 0;
    while i < n
        invariant
            n == t@.len(),
            i <= n,
            forall|k: int| 0 <= k < i ==> text::is_ascii_digit(#[trigger] t@[k]),
        decreases n - i,
    {
        let c = t.get_char(i);
        if !('0' <= c && c <= '9') {
            assert(!text::is_ascii_digit(t@[i as int]));
            return false;
        }
        i = i + 1;
    }
    true
}

/// Drops noise tokens (the number of a `Bip01`-style prefix included) and
/// the bone's own side marker.
pub fn filter_tokens(tokens: Vec<String>, lat: Laterality) -> (kept: Vec<String>)
    ensures
        tokenize::views(kept@) == kept_tokens(tokenize::views(tokens@), lat),
{
    let ghost tv = tokenize::views(tokens@);
    let mut kept: Vec<String> = Vec::new();
    let mut i: usize = 0;
    while i < tokens.len()
        invariant
            tv == tokenize::views(tokens@),
            i <= tokens.len(),
            tokenize::views(kept@) == kept_tokens(tv.take(i as int), lat),
        decreases tokens.len() - i,
    {
        let t = tokens[i].as_str();
        let prefix_number = i > 0 && str_eq(tokens[i - 1].as_str(), "bip") && digits_only(t);
        let keep = !is_noise_token(t)
            && !(lat == Laterality::Left && (str_eq(t, "left") || str_eq(t, "l") || str_eq(t, "lt")))
            && !(lat == Laterality::Right && (str_eq(t, "right") || str_eq(t, "r") || str_eq(t, "rt")))
            && !prefix_number;
        proof {
            assert(tv.take(i + 1).drop_last() =~= tv.take(i as int));
            assert(tv.take(i + 1).last() == tv[i as int]);
            if i > 0 {
                assert(tv.take(i + 1)[i - 1] == tv[i - 1]);
            }
            assert(prefix_number == is_prefix_number(tv.take(i + 1), i as int));
        }
        let ghost before = kept@;
        if keep {
            kept.push(tokens[i].clone());
            proof {
                assert(tokenize::views(kept@) =~= tokenize::views(before).push(tv[i as int]));
            }
        }
        i = i + 1;
    }
    proof {
        assert(tv.take(tokens.len() as int) =~= tv);
    }
    kept
}

/// Tokenizes a bone name, reads its laterality, and filters its tokens.
pub fn bone_tokens_of(name: &str) -> (r: (Vec<String>, Laterality))
    ensures
        (tokenize::views(r.0@), r.1) == bone_tokens(name@),
{
    let raw = tokenize(name);
    let lat = laterality_of(raw.as_slice());
    let kept = filter_tokens(raw, lat);
    (kept, lat)
}

/// The integer view of an optional score.
pub open spec fn opt_score(o: Option<i128>) -> Option<int> {
    match o {
        Some(s) => Some(s as int),
        None => None,
    }
}

fn word_in(words: &[&str], t: &str) -> (b: bool)
    ensures
        b == str_views(words@).contains(t@),
{
    let mut i: usize = 0;
    while i < words.len()
        invariant
            i <= words@.len(),
            forall|j: int| 0 <= j < i ==> str_views(words@)[j] != t@,
        decreases words@.len() - i,
    {
        if str_eq(words[i], t) {
            assert(str_views(words@)[i as int] == t@);
            return true;
        }
        i = i + 1;
    }
    false
}

fn any_token_in(tokens: &[String], words: &[&str]) -> (b: bool)
    ensures
        b == has_any(tokenize::views(tokens@), str_views(words@)),
{
    let ghost tv = tokenize::views(tokens@);
    let mut i: usize = 0;
    while i < tokens.len()
        invariant
            tv == tokenize::views(tokens@),
            i <= tokens@.len(),
            forall|k: int| 0 <= k < i ==> !str_views(words@).contains(#[trigger] tv[k]),
        decreases tokens@.len() - i,
    {
        if word_in(words, tokens[i].as_str()) {
            assert(str_views(words@).contains(tv[i as int]));
            return true;
        }
        i = i + 1;
    }
    false
}

fn count_tokens_in(tokens: &[String], words: &[&str]) -> (n: usize)
    ensures
        n == count_in(tokenize::views(tokens@), str_views(words@)),
        n <= tokens@.len(),
{
    let ghost tv = tokenize::views(tokens@);
    let mut n: usize = 0;
    let mut i: usize = 0;
    while i < tokens.len()
        invariant
            tv == tokenize::views(tokens@),
            i <= tokens@.len(),
            n == count_in(tv.take(i as int), str_views(words@)),
            n <= i,
        decreases tokens@.len() - i,
    {
        proof {
            assert(tv.take(i + 1).drop_last() =~= tv.take(i as int));
        }
        if word_in(words, tokens[i].as_str()) {
            n = n + 1;
        }
        i = i + 1;
    }
    proof {
        assert(tv.take(tokens@.len() as int) =~= tv);
    }
    n
}

fn has_token(tokens: &[String], w: &str) -> (b: bool)
    ensures
        b == has_word(tokenize::views(tokens@), w@),
{
    let ghost tv = tokenize::views(tokens@);
    let mut i: usize = 0;
    while i < tokens.len()
        invariant
            tv == tokenize::views(tokens@),
            i <= tokens@.len(),
            forall|k: int| 0 <= k < i ==> tv[k] != w@,
        decreases tokens@.len() - i,
    {
        if str_eq(tokens[i].as_str(), w) {
            assert(tv[i as int] == w@);
            return true;
        }
        i = i + 1;
    }
    false
}

/// Keyword score of one bone's tokens for one slot: `None` when an excluded
/// token is present or no required keyword is; otherwise 100 minus 5 per
/// token that is not a keyword.
pub fn score_simple(tokens: &[String], required_any: &[&str], excludes: &[&str]) -> (r: Option<i128>)
    ensures
        opt_score(r) == score_simple_spec(tokenize::views(tokens@), str_views(required_any@), str_views(excludes@)),
{
    if any_token_in(tokens, excludes) {
        return None;
    }
    if !any_token_in(tokens, required_any) {
        return None;
    }
    let matched = count_tokens_in(tokens, required_any);
    let extra = tokens.len() - matched;
    Some(100 - 5 * (extra as i128))
}

/// The first token that parses as an `i32`.
fn first_number_of(tokens: &[String]) -> (r: Option<i32>)
    ensures
        match r {
            Some(v) => first_number(tokenize::views(tokens@)) == Some(v as int),
            None => first_number(tokenize::views(tokens@)) is None,
        },
{
    let ghost tv = tokenize::views(tokens@);
    assert(tv.skip(0) =~= tv);
    let mut i: usize = 0;
    while i < tokens.len()
        invariant
            tv == tokenize::views(tokens@),
            i <= tokens@.len(),
            first_number(tv) == first_number(tv.skip(i as int)),
        decreases tokens@.len() - i,
    {
        proof {
            assert(tv.skip(i as int).drop_first() =~= tv.skip(i + 1));
            assert(tv.skip(i as int)[0] == tv[i as int]);
        }
        match parse_i32(tokens[i].as_str()) {
            Some(v) => {
                return Some(v);
            },
            None => {},
        }
        i = i + 1;
    }
    None
}

fn push_scored_exec(out: &mut Vec<(HumanoidBone, i128)>, slot: HumanoidBone, score: Option<i128>)
    ensures
        scored_views(final(out)@) == push_scored(scored_views(old(out)@), slot, opt_score(score)),
{
    match score {
        Some(s) => {
            out.push((slot, s));
            assert(scored_views(out@) =~= scored_views(old(out)@).push((slot, s as int)));
        },
        None => {},
    }
}

fn push_if_exec(out: &mut Vec<(HumanoidBone, i128)>, cond: bool, slot: HumanoidBone, score: i128)
    ensures
        scored_views(final(out)@) == push_if(scored_views(old(out)@), cond, slot, score as int),
{
    if cond {
        out.push((slot, score));
        assert(scored_views(out@) =~= scored_views(old(out)@).push((slot, score as int)));
    }
}

fn sided_exec(is_left: bool, left: HumanoidBone, right: HumanoidBone) -> (b: HumanoidBone)
    ensures
        b == sided(is_left, left, right),
{
    if is_left {
        left
    } else {
        right
    }
}

/// Score candidate slots for one bone's tokens (with laterality and noise
/// tokens already filtered out, and the laterality given separately).
pub fn candidates_for_bone(tokens: &[String], laterality: Laterality) -> (out: Vec<(HumanoidBone, i128)>)
    ensures
        scored_views(out@) == candidates_spec(tokenize::views(tokens@), laterality),
{
    let ghost t = tokenize::views(tokens@);
    let mut out: Vec<(HumanoidBone, i128)> = Vec::new();
    assert(scored_views(out@) =~= Seq::<(HumanoidBone, int)>::empty());
    if laterality == Laterality::Unsided {
        push_scored_exec(&mut out, HumanoidBone::Hips, score_simple(tokens, &HIPS_WORDS, &NO_WORDS));
        push_scored_exec(&mut out, HumanoidBone::Neck, score_simple(tokens, &NECK_WORDS, &NO_WORDS));
        push_scored_exec(&mut out, HumanoidBone::Head, score_simple(tokens, &HEAD_WORDS, &HEAD_EXCLUDES));
        push_scored_exec(&mut out, HumanoidBone::Jaw, score_simple(tokens, &JAW_WORDS, &JAW_EXCLUDES));
        // Spine chain: Mixamo emits Spine, Spine1, Spine2 (occasionally
        // Spine3+); VRM/Unity only has three tiers (Spine, Chest,
        // UpperChest), so anything beyond the third tier folds into UpperChest.
        let number: i32 = match first_number_of(tokens) {
            Some(v) => v,
            None => 0,
        };
        let spine_slot = if number == 0 {
            HumanoidBone::Spine
        } else if number == 1 {
            HumanoidBone::Chest
        } else {
            HumanoidBone::UpperChest
        };
        push_if_exec(&mut out, has_token(tokens, "spine"), spine_slot, 100);
        push_scored_exec(&mut out, HumanoidBone::Chest, score_simple(tokens, &CHEST_WORDS, &CHEST_EXCLUDES));
        let upper_chest = has_token(tokens, "upper") && has_token(tokens, "chest");
        push_if_exec(&mut out, upper_chest, HumanoidBone::UpperChest, 100);
    } else {
        let is_left = laterality == Laterality::Left;
        push_scored_exec(
            &mut out,
            sided_exec(is_left, HumanoidBone::LeftEye, HumanoidBone::RightEye),
            score_simple(tokens, &EYE_WORDS, &EYE_EXCLUDES),
        );
        push_scored_exec(
            &mut out,
            sided_exec(is_left, HumanoidBone::LeftShoulder, HumanoidBone::RightShoulder),
            score_simple(tokens, &SHOULDER_WORDS, &NO_WORDS),
        );
        let has_arm = has_token(tokens, "arm");
        let is_lower_arm = has_token(tokens, "fore") || has_token(tokens, "lower");
        let arm_slot = if is_lower_arm {
            sided_exec(is_left, HumanoidBone::LeftLowerArm, HumanoidBone::RightLowerArm)
        } else {
            sided_exec(is_left, HumanoidBone::LeftUpperArm, HumanoidBone::RightUpperArm)
        };
        let arm_extra: i128 = tokens.len() as i128 - 1 - if is_lower_arm {
            1
        } else {
            0
        };
        push_if_exec(&mut out, has_arm, arm_slot, 100 - arm_extra * 5);
        push_scored_exec(
            &mut out,
            sided_exec(is_left, HumanoidBone::LeftHand, HumanoidBone::RightHand),
            score_simple(tokens, &HAND_WORDS, &NO_WORDS),
        );
        let has_leg = has_token(tokens, "leg");
        let is_upper_leg = has_token(tokens, "up") || has_token(tokens, "upper");
        let leg = if is_upper_leg {
            sided_exec(is_left, HumanoidBone::LeftUpperLeg, HumanoidBone::RightUpperLeg)
        } else {
            sided_exec(is_left, HumanoidBone::LeftLowerLeg, HumanoidBone::RightLowerLeg)
        };
        push_if_exec(&mut out, has_leg, leg, 90);
        push_scored_exec(
            &mut out,
            sided_exec(is_left, HumanoidBone::LeftFoot, HumanoidBone::RightFoot),
            score_simple(tokens, &FOOT_WORDS, &NO_WORDS),
        );
        push_scored_exec(
            &mut out,
            sided_exec(is_left, HumanoidBone::LeftToes, HumanoidBone::RightToes),
            score_simple(tokens, &TOE_WORDS, &NO_WORDS),
        );
    }
    out
}


/// No candidate in `c` is for `slot`.
pub open spec fn lacks_slot(c: Seq<(HumanoidBone, int)>, slot: HumanoidBone) -> bool {
    forall|k: int| 0 <= k < c.len() ==> (#[trigger] c[k]).0 != slot
}

/// The keyword rule for one slot: when some token is one of `words` and
/// none is one of `excludes`, the candidates score `slot` 100, less 5 for
/// every token that is not one of `words`; otherwise they do not name
/// `slot` at all.
pub open spec fn follows_keyword_rule(
    c: Seq<(HumanoidBone, int)>,
    t: Seq<Seq<char>>,
    slot: HumanoidBone,
    words: Seq<Seq<char>>,
    excludes: Seq<Seq<char>>,
) -> bool {
    let matched = has_any(t, words) && !has_any(t, excludes);
    &&& matched ==> c.contains((slot, 100 - 5 * (t.len() - count_in(t, words))))
    &&& !matched ==> lacks_slot(c, slot)
}

proof fn lemma_step_scored(
    o: Seq<(HumanoidBone, int)>,
    s: HumanoidBone,
    sc: Option<int>,
    slot: HumanoidBone,
    x: (HumanoidBone, int),
)
    ensures
        o.contains(x) ==> push_scored(o, s, sc).contains(x),
        lacks_slot(o, slot) && (s != slot || sc is None) ==> lacks_slot(push_scored(o, s, sc), slot),
        sc is Some ==> push_scored(o, s, sc).contains((s, sc->0)),
{
    if let Some(v) = sc {
        assert(o.push((s, v))[o.len() as int] == (s, v));
        if o.contains(x) {
            let i = choose|i: int| 0 <= i < o.len() && o[i] == x;
            assert(o.push((s, v))[i] == x);
        }
        if lacks_slot(o, slot) && s != slot {
            assert forall|k: int| 0 <= k < o.len() + 1 implies (#[trigger] o.push((s, v))[k]).0 != slot by {
                if k < o.len() {
                    assert(o.push((s, v))[k] == o[k]);
                }
            }
        }
    }
}

proof fn lemma_step_if(
    o: Seq<(HumanoidBone, int)>,
    cond: bool,
    s: HumanoidBone,
    score: int,
    slot: HumanoidBone,
    x: (HumanoidBone, int),
)
    ensures
        o.contains(x) ==> push_if(o, cond, s, score).contains(x),
        lacks_slot(o, slot) && (s != slot || !cond) ==> lacks_slot(push_if(o, cond, s, score), slot),
        cond ==> push_if(o, cond, s, score).contains((s, score)),
{
    let sc = if cond {
        Some(score)
    } else {
        None
    };
    assert(push_if(o, cond, s, score) == push_scored(o, s, sc));
    lemma_step_scored(o, s, sc, slot, x);
}

/// How a one-sided bone is scored for the eye, shoulder, hand, foot and toe
/// slots of its side: each by its keywords (`eye` unless `brow`, `lash`,
/// `lid` or `glass`; `shoulder` or `clavicle`; `hand`; `foot`; `toe` or
/// `toes`), scoring 100 less 5 for each other token, and not at all without
/// a keyword. So `LeftToes` scores 100 for `LeftToes`.
pub proof fn lemma_lateral_keywords(t: Seq<Seq<char>>, lat: Laterality)
    requires
        lat != Laterality::Unsided,
    ensures
        follows_keyword_rule(candidates_spec(t, lat), t, if lat == Laterality::Left { HumanoidBone::LeftEye } else { HumanoidBone::RightEye }, seq!["eye"@], seq!["brow"@, "lash"@, "lid"@, "glass"@]),
        follows_keyword_rule(candidates_spec(t, lat), t, if lat == Laterality::Left { HumanoidBone::LeftShoulder } else { HumanoidBone::RightShoulder }, seq!["shoulder"@, "clavicle"@], Seq::<Seq<char>>::empty()),
        follows_keyword_rule(candidates_spec(t, lat), t, if lat == Laterality::Left { HumanoidBone::LeftHand } else { HumanoidBone::RightHand }, seq!["hand"@], Seq::<Seq<char>>::empty()),
        follows_keyword_rule(candidates_spec(t, lat), t, if lat == Laterality::Left { HumanoidBone::LeftFoot } else { HumanoidBone::RightFoot }, seq!["foot"@], Seq::<Seq<char>>::empty()),
        follows_keyword_rule(candidates_spec(t, lat), t, if lat == Laterality::Left { HumanoidBone::LeftToes } else { HumanoidBone::RightToes }, seq!["toe"@, "toes"@], Seq::<Seq<char>>::empty()),
{
    let is_left = lat == Laterality::Left;
    let o1 = push_scored(Seq::<(HumanoidBone, int)>::empty(), sided(is_left, HumanoidBone::LeftEye, HumanoidBone::RightEye), score_simple_spec(t, str_views(EYE_WORDS@), str_views(EYE_EXCLUDES@)));
    let o2 = push_scored(o1, sided(is_left, HumanoidBone::LeftShoulder, HumanoidBone::RightShoulder), score_simple_spec(t, str_views(SHOULDER_WORDS@), str_views(NO_WORDS@)));
    let o3 = push_if(o2, has_word(t, "arm"@), arm_candidate(t, is_left).0, arm_candidate(t, is_left).1);
    let o4 = push_scored(o3, sided(is_left, HumanoidBone::LeftHand, HumanoidBone::RightHand), score_simple_spec(t, str_views(HAND_WORDS@), str_views(NO_WORDS@)));
    let o5 = push_if(o4, has_word(t, "leg"@), leg_slot(t, is_left), 90);
    let o6 = push_scored(o5, sided(is_left, HumanoidBone::LeftFoot, HumanoidBone::RightFoot), score_simple_spec(t, str_views(FOOT_WORDS@), str_views(NO_WORDS@)));
    let o7 = push_scored(o6, sided(is_left, HumanoidBone::LeftToes, HumanoidBone::RightToes), score_simple_spec(t, str_views(TOE_WORDS@), str_views(NO_WORDS@)));
    assert(candidates_spec(t, lat) == o7);
    {
        assert(str_views(EYE_WORDS@) =~= seq!["eye"@]);
        assert(str_views(EYE_EXCLUDES@) =~= seq!["brow"@, "lash"@, "lid"@, "glass"@]);
        lemma_step_scored(Seq::<(HumanoidBone, int)>::empty(), sided(is_left, HumanoidBone::LeftEye, HumanoidBone::RightEye), score_simple_spec(t, str_views(EYE_WORDS@), str_views(EYE_EXCLUDES@)), sided(is_left, HumanoidBone::LeftEye, HumanoidBone::RightEye), (sided(is_left, HumanoidBone::LeftEye, HumanoidBone::RightEye), 100 - 5 * (t.len() - count_in(t, seq!["eye"@]))));
        lemma_step_scored(o1, sided(is_left, HumanoidBone::LeftShoulder, HumanoidBone::RightShoulder), score_simple_spec(t, str_views(SHOULDER_WORDS@), str_views(NO_WORDS@)), sided(is_left, HumanoidBone::LeftEye, HumanoidBone::RightEye), (sided(is_left, HumanoidBone::LeftEye, HumanoidBone::RightEye), 100 - 5 * (t.len() - count_in(t, seq!["eye"@]))));
        lemma_step_if(o2, has_word(t, "arm"@), arm_candidate(t, is_left).0, arm_candidate(t, is_left).1, sided(is_left, HumanoidBone::LeftEye, HumanoidBone::RightEye), (sided(is_left, HumanoidBone::LeftEye, HumanoidBone::RightEye), 100 - 5 * (t.len() - count_in(t, seq!["eye"@]))));
        lemma_step_scored(o3, sided(is_left, HumanoidBone::LeftHand, HumanoidBone::RightHand), score_simple_spec(t, str_views(HAND_WORDS@), str_views(NO_WORDS@)), sided(is_left, HumanoidBone::LeftEye, HumanoidBone::RightEye), (sided(is_left, HumanoidBone::LeftEye, HumanoidBone::RightEye), 100 - 5 * (t.len() - count_in(t, seq!["eye"@]))));
        lemma_step_if(o4, has_word(t, "leg"@), leg_slot(t, is_left), 90, sided(is_left, HumanoidBone::LeftEye, HumanoidBone::RightEye), (sided(is_left, HumanoidBone::LeftEye, HumanoidBone::RightEye), 100 - 5 * (t.len() - count_in(t, seq!["eye"@]))));
        lemma_step_scored(o5, sided(is_left, HumanoidBone::LeftFoot, HumanoidBone::RightFoot), score_simple_spec(t, str_views(FOOT_WORDS@), str_views(NO_WORDS@)), sided(is_left, HumanoidBone::LeftEye, HumanoidBone::RightEye), (sided(is_left, HumanoidBone::LeftEye, HumanoidBone::RightEye), 100 - 5 * (t.len() - count_in(t, seq!["eye"@]))));
        lemma_step_scored(o6, sided(is_left, HumanoidBone::LeftToes, HumanoidBone::RightToes), score_simple_spec(t, str_views(TOE_WORDS@), str_views(NO_WORDS@)), sided(is_left, HumanoidBone::LeftEye, HumanoidBone::RightEye), (sided(is_left, HumanoidBone::LeftEye, HumanoidBone::RightEye), 100 - 5 * (t.len() - count_in(t, seq!["eye"@]))));
    }
    {
        assert(str_views(SHOULDER_WORDS@) =~= seq!["shoulder"@, "clavicle"@]);
        assert(str_views(NO_WORDS@) =~= Seq::<Seq<char>>::empty());
        lemma_step_scored(Seq::<(HumanoidBone, int)>::empty(), sided(is_left, HumanoidBone::LeftEye, HumanoidBone::RightEye), score_simple_spec(t, str_views(EYE_WORDS@), str_views(EYE_EXCLUDES@)), sided(is_left, HumanoidBone::LeftShoulder, HumanoidBone::RightShoulder), (sided(is_left, HumanoidBone::LeftShoulder, HumanoidBone::RightShoulder), 100 - 5 * (t.len() - count_in(t, seq!["shoulder"@, "clavicle"@]))));
        lemma_step_scored(o1, sided(is_left, HumanoidBone::LeftShoulder, HumanoidBone::RightShoulder), score_simple_spec(t, str_views(SHOULDER_WORDS@), str_views(NO_WORDS@)), sided(is_left, HumanoidBone::LeftShoulder, HumanoidBone::RightShoulder), (sided(is_left, HumanoidBone::LeftShoulder, HumanoidBone::RightShoulder), 100 - 5 * (t.len() - count_in(t, seq!["shoulder"@, "clavicle"@]))));
        lemma_step_if(o2, has_word(t, "arm"@), arm_candidate(t, is_left).0, arm_candidate(t, is_left).1, sided(is_left, HumanoidBone::LeftShoulder, HumanoidBone::RightShoulder), (sided(is_left, HumanoidBone::LeftShoulder, HumanoidBone::RightShoulder), 100 - 5 * (t.len() - count_in(t, seq!["shoulder"@, "clavicle"@]))));
        lemma_step_scored(o3, sided(is_left, HumanoidBone::LeftHand, HumanoidBone::RightHand), score_simple_spec(t, str_views(HAND_WORDS@), str_views(NO_WORDS@)), sided(is_left, HumanoidBone::LeftShoulder, HumanoidBone::RightShoulder), (sided(is_left, HumanoidBone::LeftShoulder, HumanoidBone::RightShoulder), 100 - 5 * (t.len() - count_in(t, seq!["shoulder"@, "clavicle"@]))));
        lemma_step_if(o4, has_word(t, "leg"@), leg_slot(t, is_left), 90, sided(is_left, HumanoidBone::LeftShoulder, HumanoidBone::RightShoulder), (sided(is_left, HumanoidBone::LeftShoulder, HumanoidBone::RightShoulder), 100 - 5 * (t.len() - count_in(t, seq!["shoulder"@, "clavicle"@]))));
        lemma_step_scored(o5, sided(is_left, HumanoidBone::LeftFoot, HumanoidBone::RightFoot), score_simple_spec(t, str_views(FOOT_WORDS@), str_views(NO_WORDS@)), sided(is_left, HumanoidBone::LeftShoulder, HumanoidBone::RightShoulder), (sided(is_left, HumanoidBone::LeftShoulder, HumanoidBone::RightShoulder), 100 - 5 * (t.len() - count_in(t, seq!["shoulder"@, "clavicle"@]))));
        lemma_step_scored(o6, sided(is_left, HumanoidBone::LeftToes, HumanoidBone::RightToes), score_simple_spec(t, str_views(TOE_WORDS@), str_views(NO_WORDS@)), sided(is_left, HumanoidBone::LeftShoulder, HumanoidBone::RightShoulder), (sided(is_left, HumanoidBone::LeftShoulder, HumanoidBone::RightShoulder), 100 - 5 * (t.len() - count_in(t, seq!["shoulder"@, "clavicle"@]))));
    }
    {
        assert(str_views(HAND_WORDS@) =~= seq!["hand"@]);
        assert(str_views(NO_WORDS@) =~= Seq::<Seq<char>>::empty());
        lemma_step_scored(Seq::<(HumanoidBone, int)>::empty(), sided(is_left, HumanoidBone::LeftEye, HumanoidBone::RightEye), score_simple_spec(t, str_views(EYE_WORDS@), str_views(EYE_EXCLUDES@)), sided(is_left, HumanoidBone::LeftHand, HumanoidBone::RightHand), (sided(is_left, HumanoidBone::LeftHand, HumanoidBone::RightHand), 100 - 5 * (t.len() - count_in(t, seq!["hand"@]))));
        lemma_step_scored(o1, sided(is_left, HumanoidBone::LeftShoulder, HumanoidBone::RightShoulder), score_simple_spec(t, str_views(SHOULDER_WORDS@), str_views(NO_WORDS@)), sided(is_left, HumanoidBone::LeftHand, HumanoidBone::RightHand), (sided(is_left, HumanoidBone::LeftHand, HumanoidBone::RightHand), 100 - 5 * (t.len() - count_in(t, seq!["hand"@]))));
        lemma_step_if(o2, has_word(t, "arm"@), arm_candidate(t, is_left).0, arm_candidate(t, is_left).1, sided(is_left, HumanoidBone::LeftHand, HumanoidBone::RightHand), (sided(is_left, HumanoidBone::LeftHand, HumanoidBone::RightHand), 100 - 5 * (t.len() - count_in(t, seq!["hand"@]))));
        lemma_step_scored(o3, sided(is_left, HumanoidBone::LeftHand, HumanoidBone::RightHand), score_simple_spec(t, str_views(HAND_WORDS@), str_views(NO_WORDS@)), sided(is_left, HumanoidBone::LeftHand, HumanoidBone::RightHand), (sided(is_left, HumanoidBone::LeftHand, HumanoidBone::RightHand), 100 - 5 * (t.len() - count_in(t, seq!["hand"@]))));
        lemma_step_if(o4, has_word(t, "leg"@), leg_slot(t, is_left), 90, sided(is_left, HumanoidBone::LeftHand, HumanoidBone::RightHand), (sided(is_left, HumanoidBone::LeftHand, HumanoidBone::RightHand), 100 - 5 * (t.len() - count_in(t, seq!["hand"@]))));
        lemma_step_scored(o5, sided(is_left, HumanoidBone::LeftFoot, HumanoidBone::RightFoot), score_simple_spec(t, str_views(FOOT_WORDS@), str_views(NO_WORDS@)), sided(is_left, HumanoidBone::LeftHand, HumanoidBone::RightHand), (sided(is_left, HumanoidBone::LeftHand, HumanoidBone::RightHand), 100 - 5 * (t.len() - count_in(t, seq!["hand"@]))));
        lemma_step_scored(o6, sided(is_left, HumanoidBone::LeftToes, HumanoidBone::RightToes), score_simple_spec(t, str_views(TOE_WORDS@), str_views(NO_WORDS@)), sided(is_left, HumanoidBone::LeftHand, HumanoidBone::RightHand), (sided(is_left, HumanoidBone::LeftHand, HumanoidBone::RightHand), 100 - 5 * (t.len() - count_in(t, seq!["hand"@]))));
    }
    {
        assert(str_views(FOOT_WORDS@) =~= seq!["foot"@]);
        assert(str_views(NO_WORDS@) =~= Seq::<Seq<char>>::empty());
        lemma_step_scored(Seq::<(HumanoidBone, int)>::empty(), sided(is_left, HumanoidBone::LeftEye, HumanoidBone::RightEye), score_simple_spec(t, str_views(EYE_WORDS@), str_views(EYE_EXCLUDES@)), sided(is_left, HumanoidBone::LeftFoot, HumanoidBone::RightFoot), (sided(is_left, HumanoidBone::LeftFoot, HumanoidBone::RightFoot), 100 - 5 * (t.len() - count_in(t, seq!["foot"@]))));
        lemma_step_scored(o1, sided(is_left, HumanoidBone::LeftShoulder, HumanoidBone::RightShoulder), score_simple_spec(t, str_views(SHOULDER_WORDS@), str_views(NO_WORDS@)), sided(is_left, HumanoidBone::LeftFoot, HumanoidBone::RightFoot), (sided(is_left, HumanoidBone::LeftFoot, HumanoidBone::RightFoot), 100 - 5 * (t.len() - count_in(t, seq!["foot"@]))));
        lemma_step_if(o2, has_word(t, "arm"@), arm_candidate(t, is_left).0, arm_candidate(t, is_left).1, sided(is_left, HumanoidBone::LeftFoot, HumanoidBone::RightFoot), (sided(is_left, HumanoidBone::LeftFoot, HumanoidBone::RightFoot), 100 - 5 * (t.len() - count_in(t, seq!["foot"@]))));
        lemma_step_scored(o3, sided(is_left, HumanoidBone::LeftHand, HumanoidBone::RightHand), score_simple_spec(t, str_views(HAND_WORDS@), str_views(NO_WORDS@)), sided(is_left, HumanoidBone::LeftFoot, HumanoidBone::RightFoot), (sided(is_left, HumanoidBone::LeftFoot, HumanoidBone::RightFoot), 100 - 5 * (t.len() - count_in(t, seq!["foot"@]))));
        lemma_step_if(o4, has_word(t, "leg"@), leg_slot(t, is_left), 90, sided(is_left, HumanoidBone::LeftFoot, HumanoidBone::RightFoot), (sided(is_left, HumanoidBone::LeftFoot, HumanoidBone::RightFoot), 100 - 5 * (t.len() - count_in(t, seq!["foot"@]))));
        lemma_step_scored(o5, sided(is_left, HumanoidBone::LeftFoot, HumanoidBone::RightFoot), score_simple_spec(t, str_views(FOOT_WORDS@), str_views(NO_WORDS@)), sided(is_left, HumanoidBone::LeftFoot, HumanoidBone::RightFoot), (sided(is_left, HumanoidBone::LeftFoot, HumanoidBone::RightFoot), 100 - 5 * (t.len() - count_in(t, seq!["foot"@]))));
        lemma_step_scored(o6, sided(is_left, HumanoidBone::LeftToes, HumanoidBone::RightToes), score_simple_spec(t, str_views(TOE_WORDS@), str_views(NO_WORDS@)), sided(is_left, HumanoidBone::LeftFoot, HumanoidBone::RightFoot), (sided(is_left, HumanoidBone::LeftFoot, HumanoidBone::RightFoot), 100 - 5 * (t.len() - count_in(t, seq!["foot"@]))));
    }
    {
        assert(str_views(TOE_WORDS@) =~= seq!["toe"@, "toes"@]);
        assert(str_views(NO_WORDS@) =~= Seq::<Seq<char>>::empty());
        lemma_step_scored(Seq::<(HumanoidBone, int)>::empty(), sided(is_left, HumanoidBone::LeftEye, HumanoidBone::RightEye), score_simple_spec(t, str_views(EYE_WORDS@), str_views(EYE_EXCLUDES@)), sided(is_left, HumanoidBone::LeftToes, HumanoidBone::RightToes), (sided(is_left, HumanoidBone::LeftToes, HumanoidBone::RightToes), 100 - 5 * (t.len() - count_in(t, seq!["toe"@, "toes"@]))));
        lemma_step_scored(o1, sided(is_left, HumanoidBone::LeftShoulder, HumanoidBone::RightShoulder), score_simple_spec(t, str_views(SHOULDER_WORDS@), str_views(NO_WORDS@)), sided(is_left, HumanoidBone::LeftToes, HumanoidBone::RightToes), (sided(is_left, HumanoidBone::LeftToes, HumanoidBone::RightToes), 100 - 5 * (t.len() - count_in(t, seq!["toe"@, "toes"@]))));
        lemma_step_if(o2, has_word(t, "arm"@), arm_candidate(t, is_left).0, arm_candidate(t, is_left).1, sided(is_left, HumanoidBone::LeftToes, HumanoidBone::RightToes), (sided(is_left, HumanoidBone::LeftToes, HumanoidBone::RightToes), 100 - 5 * (t.len() - count_in(t, seq!["toe"@, "toes"@]))));
        lemma_step_scored(o3, sided(is_left, HumanoidBone::LeftHand, HumanoidBone::RightHand), score_simple_spec(t, str_views(HAND_WORDS@), str_views(NO_WORDS@)), sided(is_left, HumanoidBone::LeftToes, HumanoidBone::RightToes), (sided(is_left, HumanoidBone::LeftToes, HumanoidBone::RightToes), 100 - 5 * (t.len() - count_in(t, seq!["toe"@, "toes"@]))));
        lemma_step_if(o4, has_word(t, "leg"@), leg_slot(t, is_left), 90, sided(is_left, HumanoidBone::LeftToes, HumanoidBone::RightToes), (sided(is_left, HumanoidBone::LeftToes, HumanoidBone::RightToes), 100 - 5 * (t.len() - count_in(t, seq!["toe"@, "toes"@]))));
        lemma_step_scored(o5, sided(is_left, HumanoidBone::LeftFoot, HumanoidBone::RightFoot), score_simple_spec(t, str_views(FOOT_WORDS@), str_views(NO_WORDS@)), sided(is_left, HumanoidBone::LeftToes, HumanoidBone::RightToes), (sided(is_left, HumanoidBone::LeftToes, HumanoidBone::RightToes), 100 - 5 * (t.len() - count_in(t, seq!["toe"@, "toes"@]))));
        lemma_step_scored(o6, sided(is_left, HumanoidBone::LeftToes, HumanoidBone::RightToes), score_simple_spec(t, str_views(TOE_WORDS@), str_views(NO_WORDS@)), sided(is_left, HumanoidBone::LeftToes, HumanoidBone::RightToes), (sided(is_left, HumanoidBone::LeftToes, HumanoidBone::RightToes), 100 - 5 * (t.len() - count_in(t, seq!["toe"@, "toes"@]))));
    }
}

/// How an unsided bone is scored for the hips, neck, head and jaw slots:
/// each by its keywords (`hips`, `hip` or `pelvis`; `neck`; `head` unless
/// `top`, `end` or `eye`; `jaw` or `chin` unless `end`), scoring 100 less 5
/// for each other token, and not at all without a keyword.
pub proof fn lemma_central_keywords(t: Seq<Seq<char>>)
    ensures
        follows_keyword_rule(candidates_spec(t, Laterality::Unsided), t, HumanoidBone::Hips, seq!["hips"@, "hip"@, "pelvis"@], Seq::<Seq<char>>::empty()),
        follows_keyword_rule(candidates_spec(t, Laterality::Unsided), t, HumanoidBone::Neck, seq!["neck"@], Seq::<Seq<char>>::empty()),
        follows_keyword_rule(candidates_spec(t, Laterality::Unsided), t, HumanoidBone::Head, seq!["head"@], seq!["top"@, "end"@, "eye"@]),
        follows_keyword_rule(candidates_spec(t, Laterality::Unsided), t, HumanoidBone::Jaw, seq!["jaw"@, "chin"@], seq!["end"@]),
{
    let number = match first_number(t) {
        Some(v) => v,
        None => 0,
    };
    let spine_slot = if number == 0 {
        HumanoidBone::Spine
    } else if number == 1 {
        HumanoidBone::Chest
    } else {
        HumanoidBone::UpperChest
    };
    let o1 = push_scored(Seq::<(HumanoidBone, int)>::empty(), HumanoidBone::Hips, score_simple_spec(t, str_views(HIPS_WORDS@), str_views(NO_WORDS@)));
    let o2 = push_scored(o1, HumanoidBone::Neck, score_simple_spec(t, str_views(NECK_WORDS@), str_views(NO_WORDS@)));
    let o3 = push_scored(o2, HumanoidBone::Head, score_simple_spec(t, str_views(HEAD_WORDS@), str_views(HEAD_EXCLUDES@)));
    let o4 = push_scored(o3, HumanoidBone::Jaw, score_simple_spec(t, str_views(JAW_WORDS@), str_views(JAW_EXCLUDES@)));
    let o5 = push_if(o4, has_word(t, "spine"@), spine_slot, 100);
    let o6 = push_scored(o5, HumanoidBone::Chest, score_simple_spec(t, str_views(CHEST_WORDS@), str_views(CHEST_EXCLUDES@)));
    let o7 = push_if(o6, has_word(t, "upper"@) && has_word(t, "chest"@), HumanoidBone::UpperChest, 100);
    assert(candidates_spec(t, Laterality::Unsided) == o7);
    {
        assert(str_views(HIPS_WORDS@) =~= seq!["hips"@, "hip"@, "pelvis"@]);
        assert(str_views(NO_WORDS@) =~= Seq::<Seq<char>>::empty());
        lemma_step_scored(Seq::<(HumanoidBone, int)>::empty(), HumanoidBone::Hips, score_simple_spec(t, str_views(HIPS_WORDS@), str_views(NO_WORDS@)), HumanoidBone::Hips, (HumanoidBone::Hips, 100 - 5 * (t.len() - count_in(t, seq!["hips"@, "hip"@, "pelvis"@]))));
        lemma_step_scored(o1, HumanoidBone::Neck, score_simple_spec(t, str_views(NECK_WORDS@), str_views(NO_WORDS@)), HumanoidBone::Hips, (HumanoidBone::Hips, 100 - 5 * (t.len() - count_in(t, seq!["hips"@, "hip"@, "pelvis"@]))));
        lemma_step_scored(o2, HumanoidBone::Head, score_simple_spec(t, str_views(HEAD_WORDS@), str_views(HEAD_EXCLUDES@)), HumanoidBone::Hips, (HumanoidBone::Hips, 100 - 5 * (t.len() - count_in(t, seq!["hips"@, "hip"@, "pelvis"@]))));
        lemma_step_scored(o3, HumanoidBone::Jaw, score_simple_spec(t, str_views(JAW_WORDS@), str_views(JAW_EXCLUDES@)), HumanoidBone::Hips, (HumanoidBone::Hips, 100 - 5 * (t.len() - count_in(t, seq!["hips"@, "hip"@, "pelvis"@]))));
        lemma_step_if(o4, has_word(t, "spine"@), spine_slot, 100, HumanoidBone::Hips, (HumanoidBone::Hips, 100 - 5 * (t.len() - count_in(t, seq!["hips"@, "hip"@, "pelvis"@]))));
        lemma_step_scored(o5, HumanoidBone::Chest, score_simple_spec(t, str_views(CHEST_WORDS@), str_views(CHEST_EXCLUDES@)), HumanoidBone::Hips, (HumanoidBone::Hips, 100 - 5 * (t.len() - count_in(t, seq!["hips"@, "hip"@, "pelvis"@]))));
        lemma_step_if(o6, has_word(t, "upper"@) && has_word(t, "chest"@), HumanoidBone::UpperChest, 100, HumanoidBone::Hips, (HumanoidBone::Hips, 100 - 5 * (t.len() - count_in(t, seq!["hips"@, "hip"@, "pelvis"@]))));
    }
    {
        assert(str_views(NECK_WORDS@) =~= seq!["neck"@]);
        assert(str_views(NO_WORDS@) =~= Seq::<Seq<char>>::empty());
        lemma_step_scored(Seq::<(HumanoidBone, int)>::empty(), HumanoidBone::Hips, score_simple_spec(t, str_views(HIPS_WORDS@), str_views(NO_WORDS@)), HumanoidBone::Neck, (HumanoidBone::Neck, 100 - 5 * (t.len() - count_in(t, seq!["neck"@]))));
        lemma_step_scored(o1, HumanoidBone::Neck, score_simple_spec(t, str_views(NECK_WORDS@), str_views(NO_WORDS@)), HumanoidBone::Neck, (HumanoidBone::Neck, 100 - 5 * (t.len() - count_in(t, seq!["neck"@]))));
        lemma_step_scored(o2, HumanoidBone::Head, score_simple_spec(t, str_views(HEAD_WORDS@), str_views(HEAD_EXCLUDES@)), HumanoidBone::Neck, (HumanoidBone::Neck, 100 - 5 * (t.len() - count_in(t, seq!["neck"@]))));
        lemma_step_scored(o3, HumanoidBone::Jaw, score_simple_spec(t, str_views(JAW_WORDS@), str_views(JAW_EXCLUDES@)), HumanoidBone::Neck, (HumanoidBone::Neck, 100 - 5 * (t.len() - count_in(t, seq!["neck"@]))));
        lemma_step_if(o4, has_word(t, "spine"@), spine_slot, 100, HumanoidBone::Neck, (HumanoidBone::Neck, 100 - 5 * (t.len() - count_in(t, seq!["neck"@]))));
        lemma_step_scored(o5, HumanoidBone::Chest, score_simple_spec(t, str_views(CHEST_WORDS@), str_views(CHEST_EXCLUDES@)), HumanoidBone::Neck, (HumanoidBone::Neck, 100 - 5 * (t.len() - count_in(t, seq!["neck"@]))));
        lemma_step_if(o6, has_word(t, "upper"@) && has_word(t, "chest"@), HumanoidBone::UpperChest, 100, HumanoidBone::Neck, (HumanoidBone::Neck, 100 - 5 * (t.len() - count_in(t, seq!["neck"@]))));
    }
    {
        assert(str_views(HEAD_WORDS@) =~= seq!["head"@]);
        assert(str_views(HEAD_EXCLUDES@) =~= seq!["top"@, "end"@, "eye"@]);
        lemma_step_scored(Seq::<(HumanoidBone, int)>::empty(), HumanoidBone::Hips, score_simple_spec(t, str_views(HIPS_WORDS@), str_views(NO_WORDS@)), HumanoidBone::Head, (HumanoidBone::Head, 100 - 5 * (t.len() - count_in(t, seq!["head"@]))));
        lemma_step_scored(o1, HumanoidBone::Neck, score_simple_spec(t, str_views(NECK_WORDS@), str_views(NO_WORDS@)), HumanoidBone::Head, (HumanoidBone::Head, 100 - 5 * (t.len() - count_in(t, seq!["head"@]))));
        lemma_step_scored(o2, HumanoidBone::Head, score_simple_spec(t, str_views(HEAD_WORDS@), str_views(HEAD_EXCLUDES@)), HumanoidBone::Head, (HumanoidBone::Head, 100 - 5 * (t.len() - count_in(t, seq!["head"@]))));
        lemma_step_scored(o3, HumanoidBone::Jaw, score_simple_spec(t, str_views(JAW_WORDS@), str_views(JAW_EXCLUDES@)), HumanoidBone::Head, (HumanoidBone::Head, 100 - 5 * (t.len() - count_in(t, seq!["head"@]))));
        lemma_step_if(o4, has_word(t, "spine"@), spine_slot, 100, HumanoidBone::Head, (HumanoidBone::Head, 100 - 5 * (t.len() - count_in(t, seq!["head"@]))));
        lemma_step_scored(o5, HumanoidBone::Chest, score_simple_spec(t, str_views(CHEST_WORDS@), str_views(CHEST_EXCLUDES@)), HumanoidBone::Head, (HumanoidBone::Head, 100 - 5 * (t.len() - count_in(t, seq!["head"@]))));
        lemma_step_if(o6, has_word(t, "upper"@) && has_word(t, "chest"@), HumanoidBone::UpperChest, 100, HumanoidBone::Head, (HumanoidBone::Head, 100 - 5 * (t.len() - count_in(t, seq!["head"@]))));
    }
    {
        assert(str_views(JAW_WORDS@) =~= seq!["jaw"@, "chin"@]);
        assert(str_views(JAW_EXCLUDES@) =~= seq!["end"@]);
        lemma_step_scored(Seq::<(HumanoidBone, int)>::empty(), HumanoidBone::Hips, score_simple_spec(t, str_views(HIPS_WORDS@), str_views(NO_WORDS@)), HumanoidBone::Jaw, (HumanoidBone::Jaw, 100 - 5 * (t.len() - count_in(t, seq!["jaw"@, "chin"@]))));
        lemma_step_scored(o1, HumanoidBone::Neck, score_simple_spec(t, str_views(NECK_WORDS@), str_views(NO_WORDS@)), HumanoidBone::Jaw, (HumanoidBone::Jaw, 100 - 5 * (t.len() - count_in(t, seq!["jaw"@, "chin"@]))));
        lemma_step_scored(o2, HumanoidBone::Head, score_simple_spec(t, str_views(HEAD_WORDS@), str_views(HEAD_EXCLUDES@)), HumanoidBone::Jaw, (HumanoidBone::Jaw, 100 - 5 * (t.len() - count_in(t, seq!["jaw"@, "chin"@]))));
        lemma_step_scored(o3, HumanoidBone::Jaw, score_simple_spec(t, str_views(JAW_WORDS@), str_views(JAW_EXCLUDES@)), HumanoidBone::Jaw, (HumanoidBone::Jaw, 100 - 5 * (t.len() - count_in(t, seq!["jaw"@, "chin"@]))));
        lemma_step_if(o4, has_word(t, "spine"@), spine_slot, 100, HumanoidBone::Jaw, (HumanoidBone::Jaw, 100 - 5 * (t.len() - count_in(t, seq!["jaw"@, "chin"@]))));
        lemma_step_scored(o5, HumanoidBone::Chest, score_simple_spec(t, str_views(CHEST_WORDS@), str_views(CHEST_EXCLUDES@)), HumanoidBone::Jaw, (HumanoidBone::Jaw, 100 - 5 * (t.len() - count_in(t, seq!["jaw"@, "chin"@]))));
        lemma_step_if(o6, has_word(t, "upper"@) && has_word(t, "chest"@), HumanoidBone::UpperChest, 100, HumanoidBone::Jaw, (HumanoidBone::Jaw, 100 - 5 * (t.len() - count_in(t, seq!["jaw"@, "chin"@]))));
    }
}


/// How a one-sided bone is scored for the arm and leg slots of its side: a
/// token `arm` makes it the lower arm when a token is `fore` or `lower`
/// (scoring 100 less 5 for each token besides those two) and the upper arm
/// otherwise (100 less 5 for each token besides `arm`); a token `leg` makes
/// it the thigh when a token is `up` or `upper` and the lower leg otherwise
/// (Mixamo's bare `Leg` is the shin), scoring 90. Without `arm` or `leg`
/// the bone scores for none of these slots.
pub proof fn lemma_lateral_limbs(t: Seq<Seq<char>>, lat: Laterality)
    requires
        lat != Laterality::Unsided,
    ensures
        t.contains("arm"@) && !(t.contains("fore"@) || t.contains("lower"@)) ==> candidates_spec(t, lat).contains(((if lat == Laterality::Left { HumanoidBone::LeftUpperArm } else { HumanoidBone::RightUpperArm }), 100 - 5 * (t.len() - 1))),
        t.contains("arm"@) && (t.contains("fore"@) || t.contains("lower"@)) ==> candidates_spec(t, lat).contains(((if lat == Laterality::Left { HumanoidBone::LeftLowerArm } else { HumanoidBone::RightLowerArm }), 100 - 5 * (t.len() - 2))),
        !t.contains("arm"@) ==> lacks_slot(candidates_spec(t, lat), (if lat == Laterality::Left { HumanoidBone::LeftUpperArm } else { HumanoidBone::RightUpperArm })) && lacks_slot(candidates_spec(t, lat), (if lat == Laterality::Left { HumanoidBone::LeftLowerArm } else { HumanoidBone::RightLowerArm })),
        t.contains("leg"@) && (t.contains("up"@) || t.contains("upper"@)) ==> candidates_spec(t, lat).contains(((if lat == Laterality::Left { HumanoidBone::LeftUpperLeg } else { HumanoidBone::RightUpperLeg }), 90)),
        t.contains("leg"@) && !(t.contains("up"@) || t.contains("upper"@)) ==> candidates_spec(t, lat).contains(((if lat == Laterality::Left { HumanoidBone::LeftLowerLeg } else { HumanoidBone::RightLowerLeg }), 90)),
        !t.contains("leg"@) ==> lacks_slot(candidates_spec(t, lat), (if lat == Laterality::Left { HumanoidBone::LeftUpperLeg } else { HumanoidBone::RightUpperLeg })) && lacks_slot(candidates_spec(t, lat), (if lat == Laterality::Left { HumanoidBone::LeftLowerLeg } else { HumanoidBone::RightLowerLeg })),
{
    let is_left = lat == Laterality::Left;
    let o1 = push_scored(Seq::<(HumanoidBone, int)>::empty(), sided(is_left, HumanoidBone::LeftEye, HumanoidBone::RightEye), score_simple_spec(t, str_views(EYE_WORDS@), str_views(EYE_EXCLUDES@)));
    let o2 = push_scored(o1, sided(is_left, HumanoidBone::LeftShoulder, HumanoidBone::RightShoulder), score_simple_spec(t, str_views(SHOULDER_WORDS@), str_views(NO_WORDS@)));
    let o3 = push_if(o2, has_word(t, "arm"@), arm_candidate(t, is_left).0, arm_candidate(t, is_left).1);
    let o4 = push_scored(o3, sided(is_left, HumanoidBone::LeftHand, HumanoidBone::RightHand), score_simple_spec(t, str_views(HAND_WORDS@), str_views(NO_WORDS@)));
    let o5 = push_if(o4, has_word(t, "leg"@), leg_slot(t, is_left), 90);
    let o6 = push_scored(o5, sided(is_left, HumanoidBone::LeftFoot, HumanoidBone::RightFoot), score_simple_spec(t, str_views(FOOT_WORDS@), str_views(NO_WORDS@)));
    let o7 = push_scored(o6, sided(is_left, HumanoidBone::LeftToes, HumanoidBone::RightToes), score_simple_spec(t, str_views(TOE_WORDS@), str_views(NO_WORDS@)));
    assert(candidates_spec(t, lat) == o7);
    {
        lemma_step_scored(Seq::<(HumanoidBone, int)>::empty(), sided(is_left, HumanoidBone::LeftEye, HumanoidBone::RightEye), score_simple_spec(t, str_views(EYE_WORDS@), str_views(EYE_EXCLUDES@)), sided(is_left, HumanoidBone::LeftUpperArm, HumanoidBone::RightUpperArm), (sided(is_left, HumanoidBone::LeftUpperArm, HumanoidBone::RightUpperArm), 100 - 5 * (t.len() - 1)));
        lemma_step_scored(o1, sided(is_left, HumanoidBone::LeftShoulder, HumanoidBone::RightShoulder), score_simple_spec(t, str_views(SHOULDER_WORDS@), str_views(NO_WORDS@)), sided(is_left, HumanoidBone::LeftUpperArm, HumanoidBone::RightUpperArm), (sided(is_left, HumanoidBone::LeftUpperArm, HumanoidBone::RightUpperArm), 100 - 5 * (t.len() - 1)));
        lemma_step_if(o2, has_word(t, "arm"@), arm_candidate(t, is_left).0, arm_candidate(t, is_left).1, sided(is_left, HumanoidBone::LeftUpperArm, HumanoidBone::RightUpperArm), (sided(is_left, HumanoidBone::LeftUpperArm, HumanoidBone::RightUpperArm), 100 - 5 * (t.len() - 1)));
        lemma_step_scored(o3, sided(is_left, HumanoidBone::LeftHand, HumanoidBone::RightHand), score_simple_spec(t, str_views(HAND_WORDS@), str_views(NO_WORDS@)), sided(is_left, HumanoidBone::LeftUpperArm, HumanoidBone::RightUpperArm), (sided(is_left, HumanoidBone::LeftUpperArm, HumanoidBone::RightUpperArm), 100 - 5 * (t.len() - 1)));
        lemma_step_if(o4, has_word(t, "leg"@), leg_slot(t, is_left), 90, sided(is_left, HumanoidBone::LeftUpperArm, HumanoidBone::RightUpperArm), (sided(is_left, HumanoidBone::LeftUpperArm, HumanoidBone::RightUpperArm), 100 - 5 * (t.len() - 1)));
        lemma_step_scored(o5, sided(is_left, HumanoidBone::LeftFoot, HumanoidBone::RightFoot), score_simple_spec(t, str_views(FOOT_WORDS@), str_views(NO_WORDS@)), sided(is_left, HumanoidBone::LeftUpperArm, HumanoidBone::RightUpperArm), (sided(is_left, HumanoidBone::LeftUpperArm, HumanoidBone::RightUpperArm), 100 - 5 * (t.len() - 1)));
        lemma_step_scored(o6, sided(is_left, HumanoidBone::LeftToes, HumanoidBone::RightToes), score_simple_spec(t, str_views(TOE_WORDS@), str_views(NO_WORDS@)), sided(is_left, HumanoidBone::LeftUpperArm, HumanoidBone::RightUpperArm), (sided(is_left, HumanoidBone::LeftUpperArm, HumanoidBone::RightUpperArm), 100 - 5 * (t.len() - 1)));
    }
    {
        lemma_step_scored(Seq::<(HumanoidBone, int)>::empty(), sided(is_left, HumanoidBone::LeftEye, HumanoidBone::RightEye), score_simple_spec(t, str_views(EYE_WORDS@), str_views(EYE_EXCLUDES@)), sided(is_left, HumanoidBone::LeftLowerArm, HumanoidBone::RightLowerArm), (sided(is_left, HumanoidBone::LeftLowerArm, HumanoidBone::RightLowerArm), 100 - 5 * (t.len() - 2)));
        lemma_step_scored(o1, sided(is_left, HumanoidBone::LeftShoulder, HumanoidBone::RightShoulder), score_simple_spec(t, str_views(SHOULDER_WORDS@), str_views(NO_WORDS@)), sided(is_left, HumanoidBone::LeftLowerArm, HumanoidBone::RightLowerArm), (sided(is_left, HumanoidBone::LeftLowerArm, HumanoidBone::RightLowerArm), 100 - 5 * (t.len() - 2)));
        lemma_step_if(o2, has_word(t, "arm"@), arm_candidate(t, is_left).0, arm_candidate(t, is_left).1, sided(is_left, HumanoidBone::LeftLowerArm, HumanoidBone::RightLowerArm), (sided(is_left, HumanoidBone::LeftLowerArm, HumanoidBone::RightLowerArm), 100 - 5 * (t.len() - 2)));
        lemma_step_scored(o3, sided(is_left, HumanoidBone::LeftHand, HumanoidBone::RightHand), score_simple_spec(t, str_views(HAND_WORDS@), str_views(NO_WORDS@)), sided(is_left, HumanoidBone::LeftLowerArm, HumanoidBone::RightLowerArm), (sided(is_left, HumanoidBone::LeftLowerArm, HumanoidBone::RightLowerArm), 100 - 5 * (t.len() - 2)));
        lemma_step_if(o4, has_word(t, "leg"@), leg_slot(t, is_left), 90, sided(is_left, HumanoidBone::LeftLowerArm, HumanoidBone::RightLowerArm), (sided(is_left, HumanoidBone::LeftLowerArm, HumanoidBone::RightLowerArm), 100 - 5 * (t.len() - 2)));
        lemma_step_scored(o5, sided(is_left, HumanoidBone::LeftFoot, HumanoidBone::RightFoot), score_simple_spec(t, str_views(FOOT_WORDS@), str_views(NO_WORDS@)), sided(is_left, HumanoidBone::LeftLowerArm, HumanoidBone::RightLowerArm), (sided(is_left, HumanoidBone::LeftLowerArm, HumanoidBone::RightLowerArm), 100 - 5 * (t.len() - 2)));
        lemma_step_scored(o6, sided(is_left, HumanoidBone::LeftToes, HumanoidBone::RightToes), score_simple_spec(t, str_views(TOE_WORDS@), str_views(NO_WORDS@)), sided(is_left, HumanoidBone::LeftLowerArm, HumanoidBone::RightLowerArm), (sided(is_left, HumanoidBone::LeftLowerArm, HumanoidBone::RightLowerArm), 100 - 5 * (t.len() - 2)));
    }
    {
        lemma_step_scored(Seq::<(HumanoidBone, int)>::empty(), sided(is_left, HumanoidBone::LeftEye, HumanoidBone::RightEye), score_simple_spec(t, str_views(EYE_WORDS@), str_views(EYE_EXCLUDES@)), sided(is_left, HumanoidBone::LeftUpperLeg, HumanoidBone::RightUpperLeg), (sided(is_left, HumanoidBone::LeftUpperLeg, HumanoidBone::RightUpperLeg), 90));
        lemma_step_scored(o1, sided(is_left, HumanoidBone::LeftShoulder, HumanoidBone::RightShoulder), score_simple_spec(t, str_views(SHOULDER_WORDS@), str_views(NO_WORDS@)), sided(is_left, HumanoidBone::LeftUpperLeg, HumanoidBone::RightUpperLeg), (sided(is_left, HumanoidBone::LeftUpperLeg, HumanoidBone::RightUpperLeg), 90));
        lemma_step_if(o2, has_word(t, "arm"@), arm_candidate(t, is_left).0, arm_candidate(t, is_left).1, sided(is_left, HumanoidBone::LeftUpperLeg, HumanoidBone::RightUpperLeg), (sided(is_left, HumanoidBone::LeftUpperLeg, HumanoidBone::RightUpperLeg), 90));
        lemma_step_scored(o3, sided(is_left, HumanoidBone::LeftHand, HumanoidBone::RightHand), score_simple_spec(t, str_views(HAND_WORDS@), str_views(NO_WORDS@)), sided(is_left, HumanoidBone::LeftUpperLeg, HumanoidBone::RightUpperLeg), (sided(is_left, HumanoidBone::LeftUpperLeg, HumanoidBone::RightUpperLeg), 90));
        lemma_step_if(o4, has_word(t, "leg"@), leg_slot(t, is_left), 90, sided(is_left, HumanoidBone::LeftUpperLeg, HumanoidBone::RightUpperLeg), (sided(is_left, HumanoidBone::LeftUpperLeg, HumanoidBone::RightUpperLeg), 90));
        lemma_step_scored(o5, sided(is_left, HumanoidBone::LeftFoot, HumanoidBone::RightFoot), score_simple_spec(t, str_views(FOOT_WORDS@), str_views(NO_WORDS@)), sided(is_left, HumanoidBone::LeftUpperLeg, HumanoidBone::RightUpperLeg), (sided(is_left, HumanoidBone::LeftUpperLeg, HumanoidBone::RightUpperLeg), 90));
        lemma_step_scored(o6, sided(is_left, HumanoidBone::LeftToes, HumanoidBone::RightToes), score_simple_spec(t, str_views(TOE_WORDS@), str_views(NO_WORDS@)), sided(is_left, HumanoidBone::LeftUpperLeg, HumanoidBone::RightUpperLeg), (sided(is_left, HumanoidBone::LeftUpperLeg, HumanoidBone::RightUpperLeg), 90));
    }
    {
        lemma_step_scored(Seq::<(HumanoidBone, int)>::empty(), sided(is_left, HumanoidBone::LeftEye, HumanoidBone::RightEye), score_simple_spec(t, str_views(EYE_WORDS@), str_views(EYE_EXCLUDES@)), sided(is_left, HumanoidBone::LeftLowerLeg, HumanoidBone::RightLowerLeg), (sided(is_left, HumanoidBone::LeftLowerLeg, HumanoidBone::RightLowerLeg), 90));
        lemma_step_scored(o1, sided(is_left, HumanoidBone::LeftShoulder, HumanoidBone::RightShoulder), score_simple_spec(t, str_views(SHOULDER_WORDS@), str_views(NO_WORDS@)), sided(is_left, HumanoidBone::LeftLowerLeg, HumanoidBone::RightLowerLeg), (sided(is_left, HumanoidBone::LeftLowerLeg, HumanoidBone::RightLowerLeg), 90));
        lemma_step_if(o2, has_word(t, "arm"@), arm_candidate(t, is_left).0, arm_candidate(t, is_left).1, sided(is_left, HumanoidBone::LeftLowerLeg, HumanoidBone::RightLowerLeg), (sided(is_left, HumanoidBone::LeftLowerLeg, HumanoidBone::RightLowerLeg), 90));
        lemma_step_scored(o3, sided(is_left, HumanoidBone::LeftHand, HumanoidBone::RightHand), score_simple_spec(t, str_views(HAND_WORDS@), str_views(NO_WORDS@)), sided(is_left, HumanoidBone::LeftLowerLeg, HumanoidBone::RightLowerLeg), (sided(is_left, HumanoidBone::LeftLowerLeg, HumanoidBone::RightLowerLeg), 90));
        lemma_step_if(o4, has_word(t, "leg"@), leg_slot(t, is_left), 90, sided(is_left, HumanoidBone::LeftLowerLeg, HumanoidBone::RightLowerLeg), (sided(is_left, HumanoidBone::LeftLowerLeg, HumanoidBone::RightLowerLeg), 90));
        lemma_step_scored(o5, sided(is_left, HumanoidBone::LeftFoot, HumanoidBone::RightFoot), score_simple_spec(t, str_views(FOOT_WORDS@), str_views(NO_WORDS@)), sided(is_left, HumanoidBone::LeftLowerLeg, HumanoidBone::RightLowerLeg), (sided(is_left, HumanoidBone::LeftLowerLeg, HumanoidBone::RightLowerLeg), 90));
        lemma_step_scored(o6, sided(is_left, HumanoidBone::LeftToes, HumanoidBone::RightToes), score_simple_spec(t, str_views(TOE_WORDS@), str_views(NO_WORDS@)), sided(is_left, HumanoidBone::LeftLowerLeg, HumanoidBone::RightLowerLeg), (sided(is_left, HumanoidBone::LeftLowerLeg, HumanoidBone::RightLowerLeg), 90));
    }
}

/// How an unsided bone is scored along the spine: a token `spine` fills
/// the spine tier given by the first number among its tokens (none or 0:
/// Spine; 1: Chest; any other: UpperChest), scoring 100; without `spine` it
/// never scores for Spine. A token `chest` scores Chest by the keyword rule
/// unless a token is `upper`, in which case it scores UpperChest 100.
pub proof fn lemma_central_spine(t: Seq<Seq<char>>)
    ensures
        t.contains("spine"@) && (first_number(t) is None || first_number(t) == Some(0int)) ==> candidates_spec(t, Laterality::Unsided).contains((HumanoidBone::Spine, 100)),
        t.contains("spine"@) && first_number(t) == Some(1int) ==> candidates_spec(t, Laterality::Unsided).contains((HumanoidBone::Chest, 100)),
        t.contains("spine"@) && first_number(t) is Some && first_number(t) != Some(0int) && first_number(t) != Some(1int) ==> candidates_spec(t, Laterality::Unsided).contains((HumanoidBone::UpperChest, 100)),
        !t.contains("spine"@) ==> lacks_slot(candidates_spec(t, Laterality::Unsided), HumanoidBone::Spine),
        t.contains("chest"@) && !t.contains("upper"@) ==> candidates_spec(t, Laterality::Unsided).contains((HumanoidBone::Chest, 100 - 5 * (t.len() - count_in(t, seq!["chest"@])))),
        t.contains("chest"@) && t.contains("upper"@) ==> candidates_spec(t, Laterality::Unsided).contains((HumanoidBone::UpperChest, 100)),
{
    let number = match first_number(t) {
        Some(v) => v,
        None => 0,
    };
    let spine_slot = if number == 0 {
        HumanoidBone::Spine
    } else if number == 1 {
        HumanoidBone::Chest
    } else {
        HumanoidBone::UpperChest
    };
    let o1 = push_scored(Seq::<(HumanoidBone, int)>::empty(), HumanoidBone::Hips, score_simple_spec(t, str_views(HIPS_WORDS@), str_views(NO_WORDS@)));
    let o2 = push_scored(o1, HumanoidBone::Neck, score_simple_spec(t, str_views(NECK_WORDS@), str_views(NO_WORDS@)));
    let o3 = push_scored(o2, HumanoidBone::Head, score_simple_spec(t, str_views(HEAD_WORDS@), str_views(HEAD_EXCLUDES@)));
    let o4 = push_scored(o3, HumanoidBone::Jaw, score_simple_spec(t, str_views(JAW_WORDS@), str_views(JAW_EXCLUDES@)));
    let o5 = push_if(o4, has_word(t, "spine"@), spine_slot, 100);
    let o6 = push_scored(o5, HumanoidBone::Chest, score_simple_spec(t, str_views(CHEST_WORDS@), str_views(CHEST_EXCLUDES@)));
    let o7 = push_if(o6, has_word(t, "upper"@) && has_word(t, "chest"@), HumanoidBone::UpperChest, 100);
    assert(candidates_spec(t, Laterality::Unsided) == o7);
    assert(str_views(CHEST_WORDS@) =~= seq!["chest"@]);
    assert(str_views(CHEST_EXCLUDES@) =~= seq!["upper"@]);
    if t.contains("chest"@) {
        let k = choose|k: int| 0 <= k < t.len() && t[k] == "chest"@;
        assert(seq!["chest"@][0] == t[k]);
        assert(has_any(t, seq!["chest"@]));
    }
    if has_any(t, seq!["upper"@]) {
        let k = choose|k: int| 0 <= k < t.len() && seq!["upper"@].contains(#[trigger] t[k]);
        assert(t[k] == "upper"@);
        assert(t.contains("upper"@));
    }
    {
        lemma_step_scored(Seq::<(HumanoidBone, int)>::empty(), HumanoidBone::Hips, score_simple_spec(t, str_views(HIPS_WORDS@), str_views(NO_WORDS@)), HumanoidBone::Spine, (HumanoidBone::Spine, 100));
        lemma_step_scored(o1, HumanoidBone::Neck, score_simple_spec(t, str_views(NECK_WORDS@), str_views(NO_WORDS@)), HumanoidBone::Spine, (HumanoidBone::Spine, 100));
        lemma_step_scored(o2, HumanoidBone::Head, score_simple_spec(t, str_views(HEAD_WORDS@), str_views(HEAD_EXCLUDES@)), HumanoidBone::Spine, (HumanoidBone::Spine, 100));
        lemma_step_scored(o3, HumanoidBone::Jaw, score_simple_spec(t, str_views(JAW_WORDS@), str_views(JAW_EXCLUDES@)), HumanoidBone::Spine, (HumanoidBone::Spine, 100));
        lemma_step_if(o4, has_word(t, "spine"@), spine_slot, 100, HumanoidBone::Spine, (HumanoidBone::Spine, 100));
        lemma_step_scored(o5, HumanoidBone::Chest, score_simple_spec(t, str_views(CHEST_WORDS@), str_views(CHEST_EXCLUDES@)), HumanoidBone::Spine, (HumanoidBone::Spine, 100));
        lemma_step_if(o6, has_word(t, "upper"@) && has_word(t, "chest"@), HumanoidBone::UpperChest, 100, HumanoidBone::Spine, (HumanoidBone::Spine, 100));
    }
    {
        lemma_step_scored(Seq::<(HumanoidBone, int)>::empty(), HumanoidBone::Hips, score_simple_spec(t, str_views(HIPS_WORDS@), str_views(NO_WORDS@)), HumanoidBone::Chest, (HumanoidBone::Chest, 100));
        lemma_step_scored(o1, HumanoidBone::Neck, score_simple_spec(t, str_views(NECK_WORDS@), str_views(NO_WORDS@)), HumanoidBone::Chest, (HumanoidBone::Chest, 100));
        lemma_step_scored(o2, HumanoidBone::Head, score_simple_spec(t, str_views(HEAD_WORDS@), str_views(HEAD_EXCLUDES@)), HumanoidBone::Chest, (HumanoidBone::Chest, 100));
        lemma_step_scored(o3, HumanoidBone::Jaw, score_simple_spec(t, str_views(JAW_WORDS@), str_views(JAW_EXCLUDES@)), HumanoidBone::Chest, (HumanoidBone::Chest, 100));
        lemma_step_if(o4, has_word(t, "spine"@), spine_slot, 100, HumanoidBone::Chest, (HumanoidBone::Chest, 100));
        lemma_step_scored(o5, HumanoidBone::Chest, score_simple_spec(t, str_views(CHEST_WORDS@), str_views(CHEST_EXCLUDES@)), HumanoidBone::Chest, (HumanoidBone::Chest, 100));
        lemma_step_if(o6, has_word(t, "upper"@) && has_word(t, "chest"@), HumanoidBone::UpperChest, 100, HumanoidBone::Chest, (HumanoidBone::Chest, 100));
    }
    {
        lemma_step_scored(Seq::<(HumanoidBone, int)>::empty(), HumanoidBone::Hips, score_simple_spec(t, str_views(HIPS_WORDS@), str_views(NO_WORDS@)), HumanoidBone::UpperChest, (HumanoidBone::UpperChest, 100));
        lemma_step_scored(o1, HumanoidBone::Neck, score_simple_spec(t, str_views(NECK_WORDS@), str_views(NO_WORDS@)), HumanoidBone::UpperChest, (HumanoidBone::UpperChest, 100));
        lemma_step_scored(o2, HumanoidBone::Head, score_simple_spec(t, str_views(HEAD_WORDS@), str_views(HEAD_EXCLUDES@)), HumanoidBone::UpperChest, (HumanoidBone::UpperChest, 100));
        lemma_step_scored(o3, HumanoidBone::Jaw, score_simple_spec(t, str_views(JAW_WORDS@), str_views(JAW_EXCLUDES@)), HumanoidBone::UpperChest, (HumanoidBone::UpperChest, 100));
        lemma_step_if(o4, has_word(t, "spine"@), spine_slot, 100, HumanoidBone::UpperChest, (HumanoidBone::UpperChest, 100));
        lemma_step_scored(o5, HumanoidBone::Chest, score_simple_spec(t, str_views(CHEST_WORDS@), str_views(CHEST_EXCLUDES@)), HumanoidBone::UpperChest, (HumanoidBone::UpperChest, 100));
        lemma_step_if(o6, has_word(t, "upper"@) && has_word(t, "chest"@), HumanoidBone::UpperChest, 100, HumanoidBone::UpperChest, (HumanoidBone::UpperChest, 100));
    }
    {
        lemma_step_scored(Seq::<(HumanoidBone, int)>::empty(), HumanoidBone::Hips, score_simple_spec(t, str_views(HIPS_WORDS@), str_views(NO_WORDS@)), HumanoidBone::Chest, (HumanoidBone::Chest, 100 - 5 * (t.len() - count_in(t, seq!["chest"@]))));
        lemma_step_scored(o1, HumanoidBone::Neck, score_simple_spec(t, str_views(NECK_WORDS@), str_views(NO_WORDS@)), HumanoidBone::Chest, (HumanoidBone::Chest, 100 - 5 * (t.len() - count_in(t, seq!["chest"@]))));
        lemma_step_scored(o2, HumanoidBone::Head, score_simple_spec(t, str_views(HEAD_WORDS@), str_views(HEAD_EXCLUDES@)), HumanoidBone::Chest, (HumanoidBone::Chest, 100 - 5 * (t.len() - count_in(t, seq!["chest"@]))));
        lemma_step_scored(o3, HumanoidBone::Jaw, score_simple_spec(t, str_views(JAW_WORDS@), str_views(JAW_EXCLUDES@)), HumanoidBone::Chest, (HumanoidBone::Chest, 100 - 5 * (t.len() - count_in(t, seq!["chest"@]))));
        lemma_step_if(o4, has_word(t, "spine"@), spine_slot, 100, HumanoidBone::Chest, (HumanoidBone::Chest, 100 - 5 * (t.len() - count_in(t, seq!["chest"@]))));
        lemma_step_scored(o5, HumanoidBone::Chest, score_simple_spec(t, str_views(CHEST_WORDS@), str_views(CHEST_EXCLUDES@)), HumanoidBone::Chest, (HumanoidBone::Chest, 100 - 5 * (t.len() - count_in(t, seq!["chest"@]))));
        lemma_step_if(o6, has_word(t, "upper"@) && has_word(t, "chest"@), HumanoidBone::UpperChest, 100, HumanoidBone::Chest, (HumanoidBone::Chest, 100 - 5 * (t.len() - count_in(t, seq!["chest"@]))));
    }
}


/// The rig-prefix and tooling words that are never part of a bone's
/// meaning.
pub open spec fn noise_words() -> Seq<Seq<char>> {
    seq!["mixamorig"@, "bip"@, "bip01"@, "biped"@, "valvebiped"@, "bone"@, "ctrl"@, "def"@, "j"@, "jnt"@, "joint"@, "armature"@, "skeleton"@, "humanoid"@, "root"@]
}

/// Whether filtering has a reason to drop token `t` of a bone on side `lat`:
/// it is a noise word or the word that marked the bone's own side.
pub open spec fn droppable(t: Seq<char>, lat: Laterality) -> bool {
    ||| noise_words().contains(t)
    ||| lat == Laterality::Left && (t == "left"@ || t == "l"@ || t == "lt"@)
    ||| lat == Laterality::Right && (t == "right"@ || t == "r"@ || t == "rt"@)
}

/// What filtering keeps: tokens of the bone, in their order, none of them a
/// noise word or the bone's own side marker; and when the bone has no token
/// to drop, all of its tokens.
pub proof fn lemma_filter_keeps(tokens: Seq<Seq<char>>, lat: Laterality)
    ensures
        kept_tokens(tokens, lat).len() <= tokens.len(),
        forall|k: int|
            0 <= k < kept_tokens(tokens, lat).len() ==> !droppable(#[trigger] kept_tokens(tokens, lat)[k], lat) && tokens.contains(
                kept_tokens(tokens, lat)[k],
            ),
        (forall|k: int| 0 <= k < tokens.len() ==> !droppable(#[trigger] tokens[k], lat)) ==> kept_tokens(tokens, lat) == tokens,
    decreases tokens.len(),
{
    assert(str_views(NOISE_TOKENS@) =~= noise_words());
    if tokens.len() > 0 {
        let front = tokens.drop_last();
        lemma_filter_keeps(front, lat);
        let kept = kept_tokens(tokens, lat);
        assert forall|k: int| 0 <= k < kept.len() implies !droppable(#[trigger] kept[k], lat) && tokens.contains(kept[k]) by {
            if k < kept_tokens(front, lat).len() {
                let t = kept_tokens(front, lat)[k];
                assert(kept[k] == t);
                let j = choose|j: int| 0 <= j < front.len() && front[j] == t;
                assert(tokens[j] == t);
            } else {
                assert(kept[k] == tokens.last());
                assert(tokens[tokens.len() - 1] == tokens.last());
            }
        }
        if forall|k: int| 0 <= k < tokens.len() ==> !droppable(#[trigger] tokens[k], lat) {
            assert forall|k: int| 0 <= k < front.len() implies !droppable(#[trigger] front[k], lat) by {
                assert(front[k] == tokens[k]);
            }
            assert(!droppable(tokens[tokens.len() - 1], lat));
            if tokens.len() >= 2 {
                assert(!droppable(tokens[tokens.len() - 2], lat));
                assert(noise_words()[1] == "bip"@);
            }
            assert(tokens =~= front.push(tokens.last()));
        }
    }
}


/// The number of a `Bip01`-style prefix is dropped: a run of digits that
/// only ever appears right after a `bip` token is not among the kept tokens.
pub proof fn lemma_filter_drops_prefix_number(tokens: Seq<Seq<char>>, lat: Laterality, d: Seq<char>)
    requires
        d.len() > 0,
        forall|i: int| 0 <= i < d.len() ==> '0' <= #[trigger] d[i] && d[i] <= '9',
        forall|k: int| 0 <= k < tokens.len() && #[trigger] tokens[k] == d ==> k > 0 && tokens[k - 1] == "bip"@,
    ensures
        !kept_tokens(tokens, lat).contains(d),
    decreases tokens.len(),
{
    if tokens.len() > 0 {
        let front = tokens.drop_last();
        assert forall|k: int| 0 <= k < front.len() && #[trigger] front[k] == d implies k > 0 && front[k - 1] == "bip"@ by {
            assert(tokens[k] == front[k]);
            assert(tokens[k - 1] == front[k - 1]);
        }
        lemma_filter_drops_prefix_number(front, lat, d);
        let n = tokens.len() - 1;
        if tokens[n] == d {
            assert(is_prefix_number(tokens, n));
        }
        if kept_tokens(tokens, lat).contains(d) {
            let k = choose|k: int| 0 <= k < kept_tokens(tokens, lat).len() && kept_tokens(tokens, lat)[k] == d;
            if k < kept_tokens(front, lat).len() {
                assert(kept_tokens(front, lat)[k] == d);
            }
        }
    }
}

} // verus!
