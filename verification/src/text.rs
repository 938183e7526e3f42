//! Character and string primitives that the bone-name heuristics rely on:
//! the `std` ones behind small trusted wrappers, plus the spec functions
//! that describe what they do.
use vstd::prelude::*;

verus! {

/// Whether `char::is_alphanumeric` holds of `c` (the Unicode `Alphabetic`
/// or `Numeric` property).
pub uninterp spec fn alphanumeric(c: char) -> bool;

/// Whether `char::is_uppercase` holds of `c` (the Unicode `Uppercase`
/// property).
pub uninterp spec fn uppercase(c: char) -> bool;

/// What `str::to_lowercase` returns for a string with these characters
/// (Unicode lowercase mapping, including its context-dependent cases).
pub uninterp spec fn lowercase(s: Seq<char>) -> Seq<char>;

/// An ASCII character (code point below 128).
pub open spec fn is_ascii_char(c: char) -> bool {
    (c as int) < 128
}

/// `char::is_ascii_uppercase`: `'A'..='Z'`.
pub open spec fn is_ascii_uppercase(c: char) -> bool {
    'A' <= c && c <= 'Z'
}

/// `char::is_ascii_alphanumeric`: ASCII letters and digits.
pub open spec fn is_ascii_alphanumeric(c: char) -> bool {
    ('0' <= c && c <= '9') || ('a' <= c && c <= 'z') || is_ascii_uppercase(c)
}

/// `char::to_ascii_lowercase`: `'A'..='Z'` become `'a'..='z'`, everything
/// else is kept.
pub open spec fn ascii_lowercase(c: char) -> char {
    if is_ascii_uppercase(c) {
        ((c as int) + 32) as char
    } else {
        c
    }
}

/// Whether `char::is_alphanumeric` holds of `c`: for ASCII, exactly the
/// letters and digits; beyond ASCII, the Unicode property.
pub open spec fn char_is_alphanumeric(c: char) -> bool {
    if is_ascii_char(c) {
        is_ascii_alphanumeric(c)
    } else {
        alphanumeric(c)
    }
}

/// Whether `char::is_uppercase` holds of `c`: for ASCII, exactly
/// `'A'..='Z'`; beyond ASCII, the Unicode property.
pub open spec fn char_is_uppercase(c: char) -> bool {
    if is_ascii_char(c) {
        is_ascii_uppercase(c)
    } else {
        uppercase(c)
    }
}

/// What `str::to_lowercase` returns: for ASCII text, each letter lowered
/// one for one; otherwise the Unicode lowercase mapping.
pub open spec fn lowercased(s: Seq<char>) -> Seq<char> {
    if forall|i: int| 0 <= i < s.len() ==> is_ascii_char(#[trigger] s[i]) {
        s.map_values(|c: char| ascii_lowercase(c))
    } else {
        lowercase(s)
    }
}

/// `char::is_ascii_digit`: `'0'..='9'`.
pub open spec fn is_ascii_digit(c: char) -> bool {
    '0' <= c && c <= '9'
}

/// The value of a non-empty run of ASCII decimal digits.
pub open spec fn decimal_value(s: Seq<char>) -> int
    decreases s.len(),
{
    if s.len() == 0 {
        0
    } else {
        decimal_value(s.drop_last()) * 10 + (s.last() as int - '0' as int)
    }
}

/// What `str::parse::<i32>` yields: an optional `+` or `-` sign followed by
/// one or more ASCII digits, whose value fits in an `i32`; anything else is
/// an error.
pub open spec fn parse_i32_result(s: Seq<char>) -> Option<int> {
    let negative = s.len() > 0 && s[0] == '-';
    let digits = if s.len() > 0 && (s[0] == '-' || s[0] == '+') {
        s.drop_first()
    } else {
        s
    };
    if digits.len() > 0 && (forall|i: int| 0 <= i < digits.len() ==> is_ascii_digit(#[trigger] digits[i])) {
        let v = if negative {
            -decimal_value(digits)
        } else {
            decimal_value(digits)
        };
        if i32::MIN <= v <= i32::MAX {
            Some(v)
        } else {
            None
        }
    } else {
        None
    }
}

/// `char::is_alphanumeric`: for an ASCII character, true exactly of the
/// letters and digits (std: alphabetic or numeric, which among ASCII are
/// just these); otherwise the Unicode property, named [`alphanumeric`].
#[verifier::external_body]
pub fn is_alphanumeric(c: char) -> (r: bool)
    ensures
        r == (if is_ascii_char(c) {
            is_ascii_alphanumeric(c)
        } else {
            alphanumeric(c)
        }),
{
    c.is_alphanumeric()
}

/// `char::is_uppercase`: for an ASCII character, true exactly of
/// `'A'..='Z'`; otherwise the Unicode property, named [`uppercase`].
#[verifier::external_body]
pub fn is_uppercase(c: char) -> (r: bool)
    ensures
        r == (if is_ascii_char(c) {
            is_ascii_uppercase(c)
        } else {
            uppercase(c)
        }),
{
    c.is_uppercase()
}

/// `str::to_lowercase`: for ASCII text, each of `'A'..='Z'` lowered to
/// `'a'..='z'` and every other character kept (std: the Unicode lowercase
/// mapping, which on ASCII is the ASCII one); for other text the Unicode
/// mapping, named [`lowercase`], of which nothing more is said here.
#[verifier::external_body]
pub fn to_lowercase(s: &str) -> (r: String)
    ensures
        r@ == (if forall|i: int| 0 <= i < s@.len() ==> is_ascii_char(#[trigger] s@[i]) {
            s@.map_values(|c: char| ascii_lowercase(c))
        } else {
            lowercase(s@)
        }),
{
    s.to_lowercase()
}

/// `str::parse::<i32>`, with the error dropped: `Some` exactly when the text
/// is an optionally signed decimal number that fits in an `i32`.
#[verifier::external_body]
pub fn parse_i32(s: &str) -> (r: Option<i32>)
    ensures
        match r {
            Some(v) => parse_i32_result(s@) == Some(v as int),
            None => parse_i32_result(s@) is None,
        },
{
    s.parse::<i32>().ok()
}

/// Whether two string slices hold the same characters.
pub fn str_eq(a: &str, b: &str) -> (r: bool)
    ensures
        r == (a@ == b@),
{
    let n = a.unicode_len();
    if n != b.unicode_len() {
        return false;
    }
    let mut i: usize = 0;
    while i < n
        invariant
            n == a@.len(),
            n == b@.len(),
            i <= n,
            forall|k: int| 0 <= k < i ==> a@[k] == b@[k],
        decreases n - i,
    {
        if a.get_char(i) != b.get_char(i) {
            return false;
        }
        i = i + 1;
    }
    assert(a@ =~= b@);
    true
}

/// Where the final component of a `/`-separated path starts.
pub open spec fn file_name_start(p: Seq<char>) -> int
    decreases p.len(),
{
    if p.len() == 0 {
        0
    } else if p.last() == '/' {
        p.len() as int
    } else {
        file_name_start(p.drop_last())
    }
}

/// The final component of a `/`-separated path.
pub open spec fn file_name_of(p: Seq<char>) -> Seq<char> {
    p.subrange(file_name_start(p), p.len() as int)
}

/// Position of the last `.` in `f`, or -1.
pub open spec fn last_dot(f: Seq<char>) -> int
    decreases f.len(),
{
    if f.len() == 0 {
        -1
    } else if f.last() == '.' {
        f.len() - 1
    } else {
        last_dot(f.drop_last())
    }
}

/// Length of a file name's stem: everything before its last `.`, unless that
/// `.` is the first character (a dot file) or there is none.
pub open spec fn stem_len(f: Seq<char>) -> int {
    if last_dot(f) > 0 {
        last_dot(f)
    } else {
        f.len() as int
    }
}

/// `p` without the `/` separators at its end.
pub open spec fn trim_trailing_slashes(p: Seq<char>) -> Seq<char>
    decreases p.len(),
{
    if p.len() > 0 && p.last() == '/' {
        trim_trailing_slashes(p.drop_last())
    } else {
        p
    }
}

/// A path whose meaning is the same on every platform std supports: a
/// `/`-separated path with a real final file name (not `.`, `..` or a name
/// like `..glb` whose stem is `.`; trailing
/// `/` separators are allowed and do not belong to the name), no `\` or `:`
/// anywhere, and no leading `//`.
pub open spec fn is_plain_path(p: Seq<char>) -> bool {
    let t = trim_trailing_slashes(p);
    &&& t.len() > 0
    &&& !p.contains('\\')
    &&& !p.contains(':')
    &&& !(p.len() >= 2 && p[0] == '/' && p[1] == '/')
    &&& file_name_of(t) != "."@
    &&& file_name_of(t) != ".."@
    &&& !starts_with_dot_dot_and_extension(file_name_of(t))
}

/// A file name such as `..glb`: two dots, then an extension and no further
/// dot. Its stem is `.`, and std versions differ on what replacing its
/// extension gives.
pub open spec fn starts_with_dot_dot_and_extension(f: Seq<char>) -> bool {
    f.len() > 2 && f[0] == '.' && f[1] == '.' && last_dot(f) == 1
}

/// `p` with the extension of its file name replaced by `ext` (added if it
/// had none; removed if `ext` is empty). Trailing separators are dropped
/// along with the old extension.
pub open spec fn replaced_extension(p: Seq<char>, ext: Seq<char>) -> Seq<char> {
    let t = trim_trailing_slashes(p);
    t.subrange(0, file_name_start(t) + stem_len(file_name_of(t))) + if ext.len() > 0 {
        seq!['.'] + ext
    } else {
        Seq::empty()
    }
}

/// `std::path::Path::with_extension`, on a path and extension given as text.
/// For a plain path (see [`is_plain_path`]) the result is the path cut
/// right after its file name's stem, followed by `.` and the new extension:
/// std's `set_extension` keeps everything up to the end of the stem, so a
/// trailing separator goes with the old extension. For other paths
/// (platform prefixes, `\` separators, `.`/`..` names, names whose stem
/// is `.`) nothing is stated
/// here, since their reading differs between platforms.
#[verifier::external_body]
pub fn path_with_extension(path: &str, extension: &str) -> (r: String)
    requires
        !extension@.contains('/'),
        !extension@.contains('\\'),
    ensures
        is_plain_path(path@) ==> r@ == replaced_extension(path@, extension@),
{
    std::path::Path::new(path).with_extension(extension).to_string_lossy().into_owned()
}

} // verus!
