//! Splitting raw bone names into lowercase tokens, and reading a name's
//! laterality (left / right / neither) off those tokens.
use vstd::prelude::*;

use crate::text;
use crate::text::{is_alphanumeric, is_uppercase, str_eq, to_lowercase};

verus! {

/// The class of an alphanumeric character, for detecting camelCase and
/// digit boundaries.
#[derive(Debug, Clone, Copy, PartialEq, Eq, Structural)]
pub enum CharKind {
    Lower,
    Upper,
    Digit,
}

/// The class of an alphanumeric character: ASCII digits, then uppercase
/// letters, and everything else counts as lowercase.
pub open spec fn char_kind(c: char) -> CharKind {
    if text::is_ascii_digit(c) {
        CharKind::Digit
    } else if text::char_is_uppercase(c) {
        CharKind::Upper
    } else {
        CharKind::Lower
    }
}

/// Whether a token boundary falls between a character of kind `prev` and
/// the following character of kind `next`: lower->Upper (camelCase),
/// digit->letter and letter->digit.
pub open spec fn is_boundary(prev: Option<CharKind>, next: CharKind) -> bool {
    match prev {
        Some(CharKind::Lower) => next == CharKind::Upper || next == CharKind::Digit,
        Some(CharKind::Upper) => next == CharKind::Digit,
        Some(CharKind::Digit) => next == CharKind::Upper || next == CharKind::Lower,
        None => false,
    }
}

/// Appends the piece `s[start..end]` if it is non-empty.
pub open spec fn flush_piece(pieces: Seq<Seq<char>>, s: Seq<char>, start: int, end: int) -> Seq<Seq<char>> {
    if start < end {
        pieces.push(s.subrange(start, end))
    } else {
        pieces
    }
}

/// The state after scanning the first `i` characters of `s`: the pieces
/// completed so far, where the current (unfinished) piece starts, and the
/// kind of the previous character (`None` right after a separator).
pub open spec fn scan(s: Seq<char>, i: nat) -> (Seq<Seq<char>>, int, Option<CharKind>)
    decreases i,
{
    if i == 0 {
        (Seq::empty(), 0, None)
    } else {
        let (pieces, start, prev) = scan(s, (i - 1) as nat);
        let c = s[i - 1];
        if !text::char_is_alphanumeric(c) {
            (flush_piece(pieces, s, start, i - 1), i as int, None)
        } else {
            let k = char_kind(c);
            if is_boundary(prev, k) {
                (flush_piece(pieces, s, start, i - 1), i - 1, Some(k))
            } else {
                (pieces, start, Some(k))
            }
        }
    }
}

/// The maximal runs of alphanumeric characters of `s`, further split at
/// camelCase and digit boundaries, in order and before lowercasing.
pub open spec fn raw_pieces(s: Seq<char>) -> Seq<Seq<char>> {
    let (pieces, start, _) = scan(s, s.len());
    flush_piece(pieces, s, start, s.len() as int)
}

/// The tokens of a bone name: its pieces, each lowercased.
pub open spec fn tokens_of(s: Seq<char>) -> Seq<Seq<char>> {
    raw_pieces(s).map_values(|p: Seq<char>| text::lowercased(p))
}

/// The pieces found so far are non-empty runs of alphanumeric characters of
/// `s`, and so is the unfinished piece.
proof fn lemma_scan_alphanumeric(s: Seq<char>, i: nat)
    requires
        i <= s.len(),
    ensures
        0 <= scan(s, i).1 <= i,
        forall|k: int| scan(s, i).1 <= k < i ==> text::char_is_alphanumeric(#[trigger] s[k]),
        forall|p: int| 0 <= p < scan(s, i).0.len() ==> (#[trigger] scan(s, i).0[p]).len() > 0,
        forall|p: int, k: int|
            0 <= p < scan(s, i).0.len() && 0 <= k < scan(s, i).0[p].len() ==> text::char_is_alphanumeric(
                #[trigger] scan(s, i).0[p][k],
            ) && s.contains(scan(s, i).0[p][k]),
    decreases i,
{
    if i > 0 {
        lemma_scan_alphanumeric(s, (i - 1) as nat);
        let (pieces, start, _) = scan(s, (i - 1) as nat);
        let piece = s.subrange(start, i - 1);
        assert forall|k: int| 0 <= k < piece.len() implies text::char_is_alphanumeric(#[trigger] piece[k]) && s.contains(piece[k]) by {
            assert(piece[k] == s[start + k]);
        }
    }
}

/// Every piece of a name is a non-empty run of its alphanumeric characters:
/// separators such as `_`, ` `, `:` or `.` never end up inside a piece.
pub proof fn lemma_pieces_alphanumeric(s: Seq<char>)
    ensures
        forall|p: int| 0 <= p < raw_pieces(s).len() ==> (#[trigger] raw_pieces(s)[p]).len() > 0,
        forall|p: int, k: int|
            0 <= p < raw_pieces(s).len() && 0 <= k < raw_pieces(s)[p].len() ==> text::char_is_alphanumeric(
                #[trigger] raw_pieces(s)[p][k],
            ) && s.contains(raw_pieces(s)[p][k]),
{
    lemma_scan_alphanumeric(s, s.len());
    let (pieces, start, _) = scan(s, s.len());
    let piece = s.subrange(start, s.len() as int);
    assert forall|k: int| 0 <= k < piece.len() implies text::char_is_alphanumeric(#[trigger] piece[k]) && s.contains(piece[k]) by {
        assert(piece[k] == s[start + k]);
    }
}

/// For an ASCII name every token holds only ASCII letters and digits, and
/// no uppercase letter: the pieces, lowered.
pub proof fn lemma_ascii_tokens(s: Seq<char>)
    requires
        forall|i: int| 0 <= i < s.len() ==> text::is_ascii_char(#[trigger] s[i]),
    ensures
        tokens_of(s).len() == raw_pieces(s).len(),
        forall|p: int| 0 <= p < tokens_of(s).len() ==> (#[trigger] tokens_of(s)[p]).len() == raw_pieces(s)[p].len(),
        forall|p: int, k: int|
            0 <= p < tokens_of(s).len() && 0 <= k < tokens_of(s)[p].len() ==> {
                let c = #[trigger] tokens_of(s)[p][k];
                ('0' <= c && c <= '9') || ('a' <= c && c <= 'z')
            },
{
    lemma_pieces_alphanumeric(s);
    assert forall|p: int, k: int| 0 <= p < tokens_of(s).len() && 0 <= k < tokens_of(s)[p].len() implies {
        let c = #[trigger] tokens_of(s)[p][k];
        ('0' <= c && c <= '9') || ('a' <= c && c <= 'z')
    } by {
        let piece = raw_pieces(s)[p];
        assert(text::char_is_alphanumeric(piece[k]) && s.contains(piece[k]));
        assert forall|j: int| 0 <= j < piece.len() implies text::is_ascii_char(#[trigger] piece[j]) by {
            assert(s.contains(piece[j]));
        }
        assert(tokens_of(s)[p] == piece.map_values(|c: char| text::ascii_lowercase(c)));
    }
}

/// Pieces joined end to end.
pub open spec fn joined(pieces: Seq<Seq<char>>) -> Seq<char>
    decreases pieces.len(),
{
    if pieces.len() == 0 {
        Seq::empty()
    } else {
        joined(pieces.drop_last()) + pieces.last()
    }
}

/// The alphanumeric characters of `s`, in order.
pub open spec fn alphanumerics(s: Seq<char>) -> Seq<char> {
    s.filter(|c: char| text::char_is_alphanumeric(c))
}

proof fn lemma_joined_flush(pieces: Seq<Seq<char>>, s: Seq<char>, start: int, end: int)
    requires
        0 <= start <= end <= s.len(),
    ensures
        joined(flush_piece(pieces, s, start, end)) == joined(pieces) + s.subrange(start, end),
{
    if start < end {
        assert(flush_piece(pieces, s, start, end).drop_last() =~= pieces);
    } else {
        assert(s.subrange(start, end) =~= Seq::<char>::empty());
        assert(joined(pieces) + s.subrange(start, end) =~= joined(pieces));
    }
}

proof fn lemma_scan_covers(s: Seq<char>, i: nat)
    requires
        i <= s.len(),
    ensures
        0 <= scan(s, i).1 <= i,
        joined(scan(s, i).0) + s.subrange(scan(s, i).1, i as int) == alphanumerics(s.take(i as int)),
    decreases i,
{
    reveal(Seq::filter);
    if i == 0 {
        assert(s.take(0) =~= Seq::<char>::empty());
        assert(s.subrange(0, 0) =~= Seq::<char>::empty());
    } else {
        let j = (i - 1) as nat;
        lemma_scan_covers(s, j);
        let (pieces, start, prev) = scan(s, j);
        let c = s[j as int];
        assert(s.take(i as int).drop_last() =~= s.take(j as int));
        assert(s.take(i as int).last() == c);
        let before = alphanumerics(s.take(j as int));
        assert(alphanumerics(s.take(i as int)) == if text::char_is_alphanumeric(c) {
            before.push(c)
        } else {
            before
        });
        lemma_joined_flush(pieces, s, start, j as int);
        if !text::char_is_alphanumeric(c) {
            assert(s.subrange(i as int, i as int) =~= Seq::<char>::empty());
            assert(joined(flush_piece(pieces, s, start, j as int)) + s.subrange(i as int, i as int) =~= joined(pieces)
                + s.subrange(start, j as int));
        } else if is_boundary(prev, char_kind(c)) {
            assert(s.subrange(j as int, i as int) =~= seq![c]);
            assert(joined(pieces) + s.subrange(start, j as int) + seq![c] =~= (joined(pieces) + s.subrange(start, j as int)).push(c));
        } else {
            assert(s.subrange(start, i as int) =~= s.subrange(start, j as int).push(c));
            assert(joined(pieces) + s.subrange(start, i as int) =~= (joined(pieces) + s.subrange(start, j as int)).push(c));
        }
    }
}

/// Splitting a name loses and adds nothing but separators: its pieces,
/// joined end to end, are exactly its alphanumeric characters in order.
pub proof fn lemma_pieces_cover(s: Seq<char>)
    ensures
        joined(raw_pieces(s)) == alphanumerics(s),
{
    lemma_scan_covers(s, s.len());
    let (pieces, start, _) = scan(s, s.len());
    lemma_joined_flush(pieces, s, start, s.len() as int);
    assert(s.take(s.len() as int) =~= s);
}

/// Whether a piece breaks between adjacent letters or digits `a` and `b`:
/// at a change between digits and letters, and where a letter that is not
/// uppercase is followed by an uppercase one (camelCase).
pub open spec fn splits_between(a: char, b: char) -> bool {
    ||| text::is_ascii_digit(a) != text::is_ascii_digit(b)
    ||| !text::is_ascii_digit(a) && !text::char_is_uppercase(a) && text::char_is_uppercase(b)
}

/// A piece with no break inside.
pub open spec fn unbroken(p: Seq<char>) -> bool {
    forall|k: int| 0 <= k < p.len() - 1 ==> !splits_between(#[trigger] p[k], p[k + 1])
}

proof fn lemma_boundary_is_split(a: char, b: char)
    ensures
        is_boundary(Some(char_kind(a)), char_kind(b)) == splits_between(a, b),
{
}

proof fn lemma_scan_splits(s: Seq<char>, i: nat)
    requires
        i <= s.len(),
    ensures
        ({
            let (pieces, start, prev) = scan(s, i);
            &&& 0 <= start <= i
            &&& prev == if i > 0 && text::char_is_alphanumeric(s[i - 1]) {
                Some(char_kind(s[i - 1]))
            } else {
                None::<CharKind>
            }
            &&& forall|k: int| start <= k < i - 1 ==> !splits_between(#[trigger] s[k], s[k + 1])
            &&& forall|p: int| 0 <= p < pieces.len() ==> unbroken(#[trigger] pieces[p])
            &&& (forall|k: int| 0 <= k < i ==> text::char_is_alphanumeric(#[trigger] s[k])) ==> {
                &&& forall|p: int| 0 <= p < pieces.len() ==> (#[trigger] pieces[p]).len() > 0
                &&& forall|p: int|
                    0 <= p < pieces.len() - 1 ==> splits_between((#[trigger] pieces[p]).last(), pieces[p + 1][0])
                &&& pieces.len() > 0 ==> 1 <= start && pieces.last().last() == s[start - 1] && (start < i ==> splits_between(
                    s[start - 1],
                    s[start],
                ))
                &&& i > 0 ==> start < i
            }
        }),
    decreases i,
{
    if i > 0 {
        let j = (i - 1) as nat;
        lemma_scan_splits(s, j);
        let (pieces, start, prev) = scan(s, j);
        let c = s[j as int];
        let q = s.subrange(start, j as int);
        assert forall|k: int| 0 <= k < q.len() - 1 implies !splits_between(#[trigger] q[k], q[k + 1]) by {
            assert(q[k] == s[start + k] && q[k + 1] == s[start + k + 1]);
        }
        if j > 0 && text::char_is_alphanumeric(s[j - 1]) && text::char_is_alphanumeric(c) {
            lemma_boundary_is_split(s[j - 1], c);
        }
        if forall|k: int| 0 <= k < i ==> text::char_is_alphanumeric(#[trigger] s[k]) {
            assert forall|k: int| 0 <= k < j implies text::char_is_alphanumeric(#[trigger] s[k]) by {
                assert(text::char_is_alphanumeric(s[k]));
            }
            assert(text::char_is_alphanumeric(c));
            if start < j {
                assert(q.last() == s[j - 1]);
                assert(q[0] == s[start]);
            }
        }
    }
}

/// Where a name breaks into pieces: never inside a piece (no piece holds
/// a change between digits and letters, or a lowercase letter followed by
/// an uppercase one); and, in a name made only of letters and digits,
/// exactly there: every two consecutive pieces meet at such a change.
pub proof fn lemma_pieces_split_points(s: Seq<char>)
    ensures
        forall|p: int| 0 <= p < raw_pieces(s).len() ==> unbroken(#[trigger] raw_pieces(s)[p]),
        (forall|k: int| 0 <= k < s.len() ==> text::char_is_alphanumeric(#[trigger] s[k])) ==> forall|p: int|
            0 <= p < raw_pieces(s).len() - 1 ==> splits_between((#[trigger] raw_pieces(s)[p]).last(), raw_pieces(s)[p + 1][0]),
{
    lemma_scan_splits(s, s.len());
    let (pieces, start, _) = scan(s, s.len());
    let q = s.subrange(start, s.len() as int);
    assert forall|k: int| 0 <= k < q.len() - 1 implies !splits_between(#[trigger] q[k], q[k + 1]) by {
        assert(q[k] == s[start + k] && q[k + 1] == s[start + k + 1]);
    }
    if start < s.len() {
        assert(q[0] == s[start]);
    }
}

/// The views of a list of strings.
pub open spec fn views(v: Seq<String>) -> Seq<Seq<char>> {
    v.map_values(|t: String| t@)
}

fn char_kind_of(c: char) -> (k: CharKind)
    ensures
        k == char_kind(c),
{
    if '0' <= c && c <= '9' {
        CharKind::Digit
    } else if is_uppercase(c) {
        CharKind::Upper
    } else {
        CharKind::Lower
    }
}

fn boundary_between(prev: Option<CharKind>, next: CharKind) -> (b: bool)
    ensures
        b == is_boundary(prev, next),
{
    match prev {
        Some(CharKind::Lower) => next == CharKind::Upper || next == CharKind::Digit,
        Some(CharKind::Upper) => next == CharKind::Digit,
        Some(CharKind::Digit) => next == CharKind::Upper || next == CharKind::Lower,
        None => false,
    }
}

/// Appends the lowercased piece `name[start..end]` to `tokens` if it is non-empty.
fn flush(name: &str, start: usize, end: usize, tokens: &mut Vec<String>)
    requires
        start <= end <= name@.len(),
    ensures
        start < end ==> views(final(tokens)@) == views(old(tokens)@).push(text::lowercased(name@.subrange(start as int, end as int))),
        start >= end ==> final(tokens)@ == old(tokens)@,
{
    if start < end {
        let piece = name.substring_char(start, end);
        let lowered = to_lowercase(piece);
        tokens.push(lowered);
        proof {
            assert(views(tokens@) =~= views(old(tokens)@).push(text::lowercased(name@.subrange(start as int, end as int))));
        }
    }
}

/// Split a raw bone name into lowercase tokens, breaking on
/// non-alphanumeric separators (`_`, `-`, `.`, `:`, `/`, whitespace, ...) as
/// well as camelCase and digit boundaries. E.g. `"mixamorig:LeftForeArm"` ->
/// `["mixamorig", "left", "fore", "arm"]`, `"J_Bip_L_UpperArm"` ->
/// `["j", "bip", "l", "upper", "arm"]`.
pub fn tokenize(name: &str) -> (tokens: Vec<String>)
    ensures
        views(tokens@) == tokens_of(name@),
{
    broadcast use vstd::string::axiom_spec_iter;
    let n = name.unicode_len();
    let mut tokens: Vec<String> = Vec::new();
    let mut start: usize = 0;
    let mut prev: Option<CharKind> = None;
    let mut i: usize = 0;
    for c in it: name.chars()
        invariant
            it.seq() == name@,
            n == name@.len(),
            i == it.index(),
            i <= n,
            start <= i,
            scan(name@, i as nat).1 == start as int,
            scan(name@, i as nat).2 == prev,
            views(tokens@) == scan(name@, i as nat).0.map_values(|p: Seq<char>| text::lowercased(p)),
    {
        let ghost pieces = scan(name@, i as nat).0;
        if !is_alphanumeric(c) {
            flush(name, start, i, &mut tokens);
            start = i + 1;
            prev = None;
        } else {
            let k = char_kind_of(c);
            if boundary_between(prev, k) {
                flush(name, start, i, &mut tokens);
                start = i;
            }
            prev = Some(k);
        }
        proof {
            let fp = flush_piece(pieces, name@, scan(name@, i as nat).1, i as int);
            assert(fp.map_values(|p: Seq<char>| text::lowercased(p)) =~= if scan(name@, i as nat).1 < i {
                pieces.map_values(|p: Seq<char>| text::lowercased(p)).push(text::lowercased(name@.subrange(scan(name@, i as nat).1, i as int)))
            } else {
                pieces.map_values(|p: Seq<char>| text::lowercased(p))
            });
        }
        i = i + 1;
    }
    flush(name, start, n, &mut tokens);
    proof {
        let (pieces, st, _) = scan(name@, n as nat);
        let fp = flush_piece(pieces, name@, st, n as int);
        assert(fp.map_values(|p: Seq<char>| text::lowercased(p)) =~= if st < n {
            pieces.map_values(|p: Seq<char>| text::lowercased(p)).push(text::lowercased(name@.subrange(st, n as int)))
        } else {
            pieces.map_values(|p: Seq<char>| text::lowercased(p))
        });
    }
    tokens
}

/// Which side of the body a bone name refers to.
#[derive(Debug, Clone, Copy, PartialEq, Eq, Structural)]
pub enum Laterality {
    Left,
    Right,
    Unsided,
}

/// Tokens that mark the left side.
pub open spec fn is_left_word(t: Seq<char>) -> bool {
    t == "left"@ || t == "l"@ || t == "lt"@
}

/// Tokens that mark the right side.
pub open spec fn is_right_word(t: Seq<char>) -> bool {
    t == "right"@ || t == "r"@ || t == "rt"@
}

/// A name is left-sided if any token marks the left side, otherwise
/// right-sided if any token marks the right side, otherwise unsided.
pub open spec fn laterality_spec(tokens: Seq<Seq<char>>) -> Laterality {
    if exists|i: int| 0 <= i < tokens.len() && is_left_word(#[trigger] tokens[i]) {
        Laterality::Left
    } else if exists|i: int| 0 <= i < tokens.len() && is_right_word(#[trigger] tokens[i]) {
        Laterality::Right
    } else {
        Laterality::Unsided
    }
}

/// How a name's side is read off its tokens: a name with a token `left`,
/// `l` or `lt` is left-sided; one with none of those but a token `right`,
/// `r` or `rt` is right-sided (as in `J_Bip_R_UpperArm`); any other name is
/// unsided.
pub proof fn lemma_side_words(tokens: Seq<Seq<char>>)
    ensures
        (exists|i: int| 0 <= i < tokens.len() && (#[trigger] tokens[i] == "left"@ || tokens[i] == "l"@ || tokens[i] == "lt"@))
            ==> laterality_spec(tokens) == Laterality::Left,
        (forall|i: int| 0 <= i < tokens.len() ==> !(#[trigger] tokens[i] == "left"@ || tokens[i] == "l"@ || tokens[i] == "lt"@))
            && (exists|i: int| 0 <= i < tokens.len() && (#[trigger] tokens[i] == "right"@ || tokens[i] == "r"@ || tokens[i] == "rt"@))
            ==> laterality_spec(tokens) == Laterality::Right,
        (forall|i: int| 0 <= i < tokens.len() ==> !(#[trigger] tokens[i] == "left"@ || tokens[i] == "l"@ || tokens[i] == "lt"@
            || tokens[i] == "right"@ || tokens[i] == "r"@ || tokens[i] == "rt"@)) ==> laterality_spec(tokens) == Laterality::Unsided,
{
}

fn left_word(t: &str) -> (b: bool)
    ensures
        b == is_left_word(t@),
{
    str_eq(t, "left") || str_eq(t, "l") || str_eq(t, "lt")
}

fn right_word(t: &str) -> (b: bool)
    ensures
        b == is_right_word(t@),
{
    str_eq(t, "right") || str_eq(t, "r") || str_eq(t, "rt")
}

/// The laterality of a bone, read off its tokens.
pub fn laterality_of(tokens: &[String]) -> (l: Laterality)
    ensures
        l == laterality_spec(views(tokens@)),
{
    let ghost tv = views(tokens@);
    let mut i: usize = 0;
    while i < tokens.len()
        invariant
            tv == views(tokens@),
            i <= tokens.len(),
            forall|j: int| 0 <= j < i ==> !is_left_word(#[trigger] tv[j]),
        decreases tokens.len() - i,
    {
        if left_word(tokens[i].as_str()) {
            assert(is_left_word(tv[i as int]));
            return Laterality::Left;
        }
        i = i + 1;
    }
    let mut i: usize = 0;
    while i < tokens.len()
        invariant
            tv == views(tokens@),
            i <= tokens.len(),
            forall|j: int| 0 <= j < tokens.len() ==> !is_left_word(#[trigger] tv[j]),
            forall|j: int| 0 <= j < i ==> !is_right_word(#[trigger] tv[j]),
        decreases tokens.len() - i,
    {
        if right_word(tokens[i].as_str()) {
            assert(is_right_word(tv[i as int]));
            return Laterality::Right;
        }
        i = i + 1;
    }
    Laterality::Unsided
}

/// Tokens that mark a rig-prefix / skeleton-tooling artifact rather than a
/// meaningful part of the bone's name. These are dropped before matching,
/// and so is the number of a `Bip01` prefix, which the tokenizer splits off
/// as a token of its own (see [`crate::scoring::is_prefix_number`]).
pub const NOISE_TOKENS: [&'static str; 15] = [
    "mixamorig",
    "bip",
    "bip01",
    "biped",
    "valvebiped",
    "bone",
    "ctrl",
    "def",
    "j",
    "jnt",
    "joint",
    "armature",
    "skeleton",
    "humanoid",
    "root",
];

} // verus!
