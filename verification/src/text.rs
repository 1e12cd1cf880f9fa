//! Character-level text operations: the string work of the gateway
//! (prefixes, substrings, trimming and line splitting) done on the
//! characters of a string, with their specifications.
use vstd::prelude::*;

verus! {

broadcast use vstd::string::group_string_axioms;

/// `true` for the characters that `char::is_whitespace` accepts: those
/// with the Unicode `White_Space` property.
pub open spec fn is_white_space(c: char) -> bool {
    ||| '\u{9}' <= c <= '\u{d}'
    ||| c == ' '
    ||| c == '\u{85}'
    ||| c == '\u{a0}'
    ||| c == '\u{1680}'
    ||| '\u{2000}' <= c <= '\u{200a}'
    ||| c == '\u{2028}'
    ||| c == '\u{2029}'
    ||| c == '\u{202f}'
    ||| c == '\u{205f}'
    ||| c == '\u{3000}'
}

/// `s` without its leading white space.
pub open spec fn trim_start(s: Seq<char>) -> Seq<char>
    decreases s.len(),
{
    if s.len() > 0 && is_white_space(s[0]) {
        trim_start(s.drop_first())
    } else {
        s
    }
}

/// `s` without its trailing white space.
pub open spec fn trim_end(s: Seq<char>) -> Seq<char>
    decreases s.len(),
{
    if s.len() > 0 && is_white_space(s.last()) {
        trim_end(s.drop_last())
    } else {
        s
    }
}

/// `s` without white space at either end, as `str::trim` gives it.
pub open spec fn trim(s: Seq<char>) -> Seq<char> {
    trim_end(trim_start(s))
}

/// `needle` occurs somewhere in `s` (the empty sequence occurs everywhere).
pub open spec fn seq_contains(s: Seq<char>, needle: Seq<char>) -> bool {
    exists|i: int|
        0 <= i && i + needle.len() <= s.len() && #[trigger] s.subrange(i, i + needle.len())
            == needle
}

/// `s` without `prefix` when it starts with it, `s` itself otherwise
/// (`str::strip_prefix(..).unwrap_or(s)`).
pub open spec fn strip_prefix_or_self(s: Seq<char>, prefix: Seq<char>) -> Seq<char> {
    if prefix.is_prefix_of(s) {
        s.skip(prefix.len() as int)
    } else {
        s
    }
}

/// `s` after removing `prefix` from its front as often as it occurs there
/// (`str::trim_start_matches` with a non-empty string pattern).
pub open spec fn strip_prefix_repeated(s: Seq<char>, prefix: Seq<char>) -> Seq<char>
    decreases s.len(),
{
    if prefix.len() > 0 && prefix.is_prefix_of(s) {
        strip_prefix_repeated(s.skip(prefix.len() as int), prefix)
    } else {
        s
    }
}

/// Index of the first line feed in `s`, or the length of `s` when it has none.
pub open spec fn line_end(s: Seq<char>) -> int
    decreases s.len(),
{
    if s.len() == 0 {
        0
    } else if s[0] == '\n' {
        0
    } else {
        1 + line_end(s.drop_first())
    }
}

/// The characters of a string slice, in order.
pub fn chars_of(s: &str) -> (v: Vec<char>)
    ensures
        v@ == s@,
{
    let mut v: Vec<char> = Vec::new();
    for c in it: s.chars()
        invariant
            v@ == it.seq().take(it.index() as int),
            it.seq() == s@,
    {
        v.push(c);
    }
    v
}

/// A `String` holding the characters `chars[lo..hi]`.
///
/// Calls `Iterator::collect` on the characters of the slice; trusted to give
/// a `String` whose characters are exactly those of the slice.
#[verifier::external_body]
pub fn string_from_chars(chars: &[char], lo: usize, hi: usize) -> (s: String)
    requires
        lo <= hi <= chars@.len(),
    ensures
        s@ == chars@.subrange(lo as int, hi as int),
{
    chars[lo..hi].iter().collect()
}

/// A `String` holding all characters of `chars`.
pub fn string_of(chars: &[char]) -> (s: String)
    ensures
        s@ == chars@,
{
    let s = string_from_chars(chars, 0, chars.len());
    assert(chars@.subrange(0, chars@.len() as int) =~= chars@);
    s
}

/// `char::is_whitespace`.
pub fn is_white_space_char(c: char) -> (r: bool)
    ensures
        r == is_white_space(c),
{
    ('\u{9}' <= c && c <= '\u{d}') || c == ' ' || c == '\u{85}' || c == '\u{a0}' || c
        == '\u{1680}' || ('\u{2000}' <= c && c <= '\u{200a}') || c == '\u{2028}' || c
        == '\u{2029}' || c == '\u{202f}' || c == '\u{205f}' || c == '\u{3000}'
}

/// `s[at..]` starts with `prefix`.
pub fn matches_at(s: &[char], at: usize, prefix: &[char]) -> (r: bool)
    requires
        at <= s@.len(),
    ensures
        r == prefix@.is_prefix_of(s@.skip(at as int)),
{
    let n = s.len();
    if prefix.len() > n - at {
        return false;
    }
    let mut i: usize = 0;
    while i < prefix.len()
        invariant
            n == s@.len(),
            at <= s@.len(),
            prefix@.len() <= s@.len() - at,
            0 <= i <= prefix@.len(),
            forall|j: int| 0 <= j < i ==> prefix@[j] == s@[at + j],
        decreases prefix@.len() - i,
    {
        if prefix[i] != s[at + i] {
            assert(s@.skip(at as int)[i as int] == s@[at + i]);
            return false;
        }
        i = i + 1;
    }
    proof {
        assert forall|j: int| 0 <= j < prefix@.len() implies prefix@[j] == s@.skip(
            at as int,
        )[j] by {
            assert(s@.skip(at as int)[j] == s@[at + j]);
        }
    }
    true
}

/// `s` starts with `prefix` (`str::starts_with`).
pub fn starts_with(s: &[char], prefix: &[char]) -> (r: bool)
    ensures
        r == prefix@.is_prefix_of(s@),
{
    let r = matches_at(s, 0, prefix);
    assert(s@.skip(0) =~= s@);
    r
}

/// `needle` occurs in `s` (`str::contains` with a string pattern).
pub fn contains(s: &[char], needle: &[char]) -> (r: bool)
    ensures
        r == seq_contains(s@, needle@),
{
    if needle.len() > s.len() {
        return false;
    }
    let mut i: usize = 0;
    while i <= s.len() - needle.len()
        invariant
            needle@.len() <= s@.len(),
            0 <= i <= s@.len() - needle@.len() + 1,
            forall|j: int|
                0 <= j < i ==> #[trigger] s@.subrange(j, j + needle@.len()) != needle@,
        decreases s@.len() - needle@.len() + 1 - i,
    {
        if matches_at(s, i, needle) {
            assert(s@.subrange(i as int, i + needle@.len()) =~= s@.skip(i as int).subrange(
                0,
                needle@.len() as int,
            ));
            return true;
        }
        assert(s@.subrange(i as int, i + needle@.len()) != needle@) by {
            if s@.subrange(i as int, i + needle@.len()) == needle@ {
                assert(s@.skip(i as int).subrange(0, needle@.len() as int) =~= s@.subrange(
                    i as int,
                    i + needle@.len(),
                ));
            }
        }
        i = i + 1;
    }
    false
}

/// Unfolding `trim_start` one character at a time over a subrange.
proof fn lemma_trim_start_step(s: Seq<char>, a: int, b: int)
    requires
        0 <= a < b <= s.len(),
        is_white_space(s[a]),
    ensures
        trim_start(s.subrange(a, b)) == trim_start(s.subrange(a + 1, b)),
{
    assert(s.subrange(a, b).drop_first() =~= s.subrange(a + 1, b));
}

/// Unfolding `trim_end` one character at a time over a subrange.
proof fn lemma_trim_end_step(s: Seq<char>, a: int, b: int)
    requires
        0 <= a < b <= s.len(),
        is_white_space(s[b - 1]),
    ensures
        trim_end(s.subrange(a, b)) == trim_end(s.subrange(a, b - 1)),
{
    assert(s.subrange(a, b).drop_last() =~= s.subrange(a, b - 1));
}

/// The bounds of `s[lo..hi]` with white space removed at both ends:
/// `s[r.0..r.1]` is `str::trim` of `s[lo..hi]`.
pub fn trim_bounds(s: &[char], lo: usize, hi: usize) -> (r: (usize, usize))
    requires
        lo <= hi <= s@.len(),
    ensures
        lo <= r.0 <= r.1 <= hi,
        s@.subrange(r.0 as int, r.1 as int) == trim(s@.subrange(lo as int, hi as int)),
{
    let mut a = lo;
    while a < hi && is_white_space_char(s[a])
        invariant
            lo <= a <= hi <= s@.len(),
            trim_start(s@.subrange(lo as int, hi as int)) == trim_start(
                s@.subrange(a as int, hi as int),
            ),
        decreases hi - a,
    {
        proof {
            lemma_trim_start_step(s@, a as int, hi as int);
        }
        a = a + 1;
    }
    assert(trim_start(s@.subrange(a as int, hi as int)) == s@.subrange(a as int, hi as int));
    let mut b = hi;
    while b > a && is_white_space_char(s[b - 1])
        invariant
            lo <= a <= b <= hi <= s@.len(),
            trim_end(s@.subrange(a as int, hi as int)) == trim_end(
                s@.subrange(a as int, b as int),
            ),
        decreases b - a,
    {
        proof {
            lemma_trim_end_step(s@, a as int, b as int);
        }
        b = b - 1;
    }
    assert(trim_end(s@.subrange(a as int, b as int)) == s@.subrange(a as int, b as int));
    (a, b)
}

/// Index of the first line feed at or after `from`, or the length of `s`.
pub fn find_line_end(s: &[char], from: usize) -> (r: usize)
    requires
        from <= s@.len(),
    ensures
        from <= r <= s@.len(),
        r - from == line_end(s@.skip(from as int)),
{
    let mut i = from;
    while i < s.len() && s[i] != '\n'
        invariant
            from <= i <= s@.len(),
            line_end(s@.skip(from as int)) == (i - from) + line_end(s@.skip(i as int)),
        decreases s@.len() - i,
    {
        assert(s@.skip(i as int).drop_first() =~= s@.skip(i + 1));
        i = i + 1;
    }
    if i < s.len() {
        assert(s@.skip(i as int)[0] == s@[i as int]);
    } else {
        assert(s@.skip(i as int).len() == 0);
    }
    i
}

} // verus!

verus! {

/// The characters of an optional string.
pub open spec fn opt_string_view(o: Option<String>) -> Option<Seq<char>> {
    match o {
        Some(s) => Some(s@),
        None => None,
    }
}

} // verus!

verus! {

/// What `String::from_utf8_lossy` decodes from a sequence of bytes.
pub uninterp spec fn utf8_lossy(bytes: Seq<u8>) -> Seq<char>;

/// The text of a sequence of bytes, with each invalid UTF-8 sequence
/// replaced by U+FFFD.
///
/// Calls `String::from_utf8_lossy`; trusted to give the characters that
/// `utf8_lossy` names.
#[verifier::external_body]
pub fn string_from_utf8_lossy(bytes: &[u8]) -> (s: String)
    ensures
        s@ == utf8_lossy(bytes@),
{
    String::from_utf8_lossy(bytes).into_owned()
}

/// `a` and `b` hold the same characters.
pub fn chars_eq(a: &[char], b: &[char]) -> (r: bool)
    ensures
        r == (a@ == b@),
{
    if a.len() != b.len() {
        return false;
    }
    let r = starts_with(a, b);
    proof {
        if r {
            assert(a@.subrange(0, b@.len() as int) =~= a@);
        }
    }
    r
}

/// Index where `s[from..]` continues once `prefix` is removed from its
/// front as often as it occurs there.
pub fn skip_prefix_repeated(s: &[char], from: usize, prefix: &[char]) -> (r: usize)
    requires
        from <= s@.len(),
        prefix@.len() > 0,
    ensures
        from <= r <= s@.len(),
        s@.skip(r as int) == strip_prefix_repeated(s@.skip(from as int), prefix@),
{
    let n = s.len();
    let mut i = from;
    while matches_at(s, i, prefix)
        invariant
            n == s@.len(),
            from <= i <= s@.len(),
            prefix@.len() > 0,
            strip_prefix_repeated(s@.skip(from as int), prefix@) == strip_prefix_repeated(
                s@.skip(i as int),
                prefix@,
            ),
        decreases s@.len() - i,
    {
        assert(prefix@.len() <= n - i);
        assert(s@.skip(i as int).skip(prefix@.len() as int) =~= s@.skip(i + prefix@.len()));
        i = i + prefix.len();
    }
    i
}

/// Index where `s[from..]` continues once `prefix` is removed from its
/// front, if it starts with it.
pub fn skip_prefix(s: &[char], from: usize, prefix: &[char]) -> (r: usize)
    requires
        from <= s@.len(),
    ensures
        from <= r <= s@.len(),
        s@.skip(r as int) == strip_prefix_or_self(s@.skip(from as int), prefix@),
{
    let n = s.len();
    if matches_at(s, from, prefix) {
        assert(prefix@.len() <= n - from);
        assert(s@.skip(from as int).skip(prefix@.len() as int) =~= s@.skip(from + prefix@.len()));
        from + prefix.len()
    } else {
        from
    }
}

/// The characters of `s[from..]` as a `String`.
pub fn string_from_index(s: &[char], from: usize) -> (r: String)
    requires
        from <= s@.len(),
    ensures
        r@ == s@.skip(from as int),
{
    let r = string_from_chars(s, from, s.len());
    assert(s@.subrange(from as int, s@.len() as int) =~= s@.skip(from as int));
    r
}

/// `a` followed by `b`.
pub fn concat(a: &String, b: &str) -> (r: String)
    ensures
        r@ == a@ + b@,
{
    let mut r = a.clone();
    r.append(b);
    r
}

} // verus!
