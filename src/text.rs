//! Character-level helpers shared by process matching and path handling.

use vstd::prelude::*;

verus! {

/// What `str::to_lowercase` makes of a sequence of characters.
pub uninterp spec fn lower_of(s: Seq<char>) -> Seq<char>;

/// Relies on `str::to_lowercase`: its result is a function of the characters
/// alone, and the empty string stays empty.
#[verifier::external_body]
pub(crate) fn lowercase(s: &str) -> (r: String)
    ensures
        r@ == lower_of(s@),
        s@.len() == 0 ==> r@.len() == 0,
{
    s.to_lowercase()
}

/// The character sequences of a list of strings.
pub open spec fn views_of(v: Seq<String>) -> Seq<Seq<char>> {
    Seq::new(v.len(), |i: int| v[i]@)
}

/// `pat` stands in `s` starting at index `i`.
pub open spec fn occurs_at(s: Seq<char>, pat: Seq<char>, i: int) -> bool {
    0 <= i && i + pat.len() <= s.len() && s.subrange(i, i + pat.len()) == pat
}

/// `pat` stands somewhere in `s` (the empty pattern stands everywhere).
pub open spec fn contains_seq(s: Seq<char>, pat: Seq<char>) -> bool {
    exists|i: int| occurs_at(s, pat, i)
}

/// Does `pat` occur in `s`?
pub fn contains(s: &str, pat: &str) -> (r: bool)
    ensures
        r == contains_seq(s@, pat@),
{
    let n = s.unicode_len();
    let m = pat.unicode_len();
    if m > n {
        return false;
    }
    let mut i: usize = 0;
    while i <= n - m
        invariant
            n == s@.len(),
            m == pat@.len(),
            m <= n,
            i <= n - m + 1,
            forall|k: int| 0 <= k < i ==> !#[trigger] occurs_at(s@, pat@, k),
        decreases n - m + 1 - i,
    {
        let mut j: usize = 0;
        let mut same = true;
        while j < m
            invariant_except_break
                same,
            invariant
                n == s@.len(),
                m == pat@.len(),
                i + m <= n,
                j <= m,
                forall|t: int| 0 <= t < j ==> s@[i + t] == pat@[t],
            ensures
                same ==> j == m && forall|t: int| 0 <= t < m ==> s@[i + t] == pat@[t],
                !same ==> j < m && s@[i + j] != pat@[j as int],
            decreases m - j,
        {
            if s.get_char(i + j) != pat.get_char(j) {
                same = false;
                break;
            }
            j = j + 1;
        }
        if same {
            assert(s@.subrange(i as int, i + m) =~= pat@);
            assert(occurs_at(s@, pat@, i as int));
            return true;
        }
        assert(!occurs_at(s@, pat@, i as int)) by {
            if s@.subrange(i as int, i + m) == pat@ {
                assert(s@.subrange(i as int, i + m)[j as int] == s@[i + j]);
            }
        }
        i = i + 1;
    }
    false
}

/// A path separator on either of the supported platforms.
pub open spec fn is_separator(c: char) -> bool {
    c == '/' || c == '\\'
}

/// The directory part of a path: everything before its last separator, or
/// nothing when it has none.
pub open spec fn directory_of(p: Seq<char>) -> Seq<char>
    decreases p.len(),
{
    if p.len() == 0 {
        p
    } else if is_separator(p.last()) {
        p.drop_last()
    } else {
        directory_of(p.drop_last())
    }
}

/// The directory part of `path`, as `directory_of` describes it.
pub fn directory(path: &str) -> (r: String)
    ensures
        r@ == directory_of(path@),
{
    let n = path.unicode_len();
    let mut k: usize = n;
    assert(path@.subrange(0, n as int) =~= path@);
    while k > 0
        invariant
            k <= n,
            n == path@.len(),
            directory_of(path@) == directory_of(path@.subrange(0, k as int)),
        decreases k,
    {
        let c = path.get_char(k - 1);
        assert(path@.subrange(0, k as int).drop_last() =~= path@.subrange(0, k - 1));
        if c == '/' || c == '\\' {
            let d = path.substring_char(0, k - 1);
            return d.to_owned();
        }
        k = k - 1;
    }
    assert(path@.subrange(0, 0) =~= Seq::<char>::empty());
    String::new()
}

/// What `str::trim` makes of a sequence of characters.
pub uninterp spec fn trimmed_of(s: Seq<char>) -> Seq<char>;

/// Relies on `str::trim`: the characters without leading and trailing white
/// space; the result depends on the characters alone and is never longer.
#[verifier::external_body]
pub(crate) fn trim(s: &str) -> (r: &str)
    ensures
        r@ == trimmed_of(s@),
        r@.len() <= s@.len(),
{
    s.trim()
}

/// An answer accepts when it starts with 'y', after trimming and lower-casing.
pub open spec fn accepts(normalized: Seq<char>) -> bool {
    normalized.len() > 0 && normalized[0] == 'y'
}

/// Does an already trimmed and lower-cased answer accept?
pub fn is_yes(normalized: &str) -> (r: bool)
    ensures
        r == accepts(normalized@),
{
    normalized.unicode_len() > 0 && normalized.get_char(0) == 'y'
}

/// Does a typed answer accept: trimmed and lower-cased, does it start with
/// 'y'?
pub fn is_confirmation(answer: &str) -> (r: bool)
    ensures
        r == accepts(lower_of(trimmed_of(answer@))),
{
    let t = trim(answer);
    let l = lowercase(t);
    is_yes(l.as_str())
}

} // verus!
