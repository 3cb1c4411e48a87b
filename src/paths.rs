//! Names of encrypted files and of the outputs derived from them.

use vstd::prelude::*;
use vstd::string::StringExecFns;
use crate::text::contains_seq;

verus! {

/// `s` ends with `suffix`.
pub open spec fn ends_with(s: Seq<char>, suffix: Seq<char>) -> bool {
    suffix.len() <= s.len() && s.subrange(s.len() - suffix.len(), s.len() as int) == suffix
}

/// Does `s` end with `suffix`?
pub fn has_suffix(s: &str, suffix: &str) -> (r: bool)
    ensures
        r == ends_with(s@, suffix@),
{
    let n = s.unicode_len();
    let m = suffix.unicode_len();
    if m > n {
        return false;
    }
    let mut j: usize = 0;
    while j < m
        invariant
            n == s@.len(),
            m == suffix@.len(),
            m <= n,
            j <= m,
            forall|t: int| 0 <= t < j ==> s@[n - m + t] == suffix@[t],
        decreases m - j,
    {
        if s.get_char(n - m + j) != suffix.get_char(j) {
            assert(s@.subrange(n - m, n as int)[j as int] == s@[n - m + j]);
            return false;
        }
        j = j + 1;
    }
    assert(s@.subrange(n - m, n as int) =~= suffix@);
    true
}

/// The file name marks an encrypted file: it ends with ".enc".
pub fn has_enc_suffix(name: &str) -> (r: bool)
    ensures
        r == ends_with(name@, ".enc"@),
{
    has_suffix(name, ".enc")
}

/// Where the encryption of `source` is written when no output is named.
pub fn encrypted_output_name(source: &str) -> (r: String)
    ensures
        r@ == source@ + ".enc"@,
{
    source.to_owned().concat(".enc")
}

/// Where the decryption of `source` is written when no output is named:
/// `source` without its ".enc" suffix, or `source` with ".decrypted" added.
pub fn decrypted_output_name(source: &str) -> (r: String)
    ensures
        ends_with(source@, ".enc"@) ==> r@ == source@.subrange(0, source@.len() - 4),
        !ends_with(source@, ".enc"@) ==> r@ == source@ + ".decrypted"@,
{
    proof {
        reveal_strlit(".enc");
    }
    if has_suffix(source, ".enc") {
        let n = source.unicode_len();
        source.substring_char(0, n - 4).to_owned()
    } else {
        source.to_owned().concat(".decrypted")
    }
}

/// The last component of a path: the characters after its last '/'.
pub open spec fn last_component(p: Seq<char>) -> Seq<char>
    decreases p.len(),
{
    if p.len() == 0 {
        p
    } else if p.last() == '/' {
        Seq::empty()
    } else {
        last_component(p.drop_last()).push(p.last())
    }
}

/// The index of the last '.' of `s`, or -1 when it has none.
pub open spec fn last_dot(s: Seq<char>) -> int
    decreases s.len(),
{
    if s.len() == 0 {
        -1
    } else if s.last() == '.' {
        s.len() - 1
    } else {
        last_dot(s.drop_last())
    }
}

/// The extension of a file name: what follows its last dot, unless that dot
/// is the name's first character.
pub open spec fn name_extension(name: Seq<char>) -> Option<Seq<char>> {
    if last_dot(name) > 0 {
        Some(name.subrange(last_dot(name) + 1, name.len() as int))
    } else {
        None
    }
}

/// A path that every platform splits the same way: no backslash, no colon,
/// no trailing '/', and a last component that is neither "." nor "..".
pub open spec fn plain_path(p: Seq<char>) -> bool {
    &&& !p.contains('\\')
    &&& !p.contains(':')
    &&& !(p.len() > 0 && p.last() == '/')
    &&& last_component(p) != seq!['.']
    &&& last_component(p) != seq!['.', '.']
}

/// The extension of a plain path.
pub open spec fn plain_extension(p: Seq<char>) -> Option<Seq<char>> {
    name_extension(last_component(p))
}

/// Relies on `Path::extension`: the part of the file name after its final
/// dot, when there is one and it is not the name's first character; it holds
/// no dot and follows a dot in the path. Which characters separate
/// components depends on the platform; on a plain path the file name is the
/// text after the last '/'.
#[verifier::external_body]
fn path_extension(path: &str) -> (r: Option<String>)
    ensures
        r matches Some(e) ==> contains_seq(path@, seq!['.'] + e@) && !contains_seq(e@, seq!['.']),
        plain_path(path@) ==> match r {
            Some(e) => plain_extension(path@) == Some(e@),
            None => plain_extension(path@) is None,
        },
{
    match std::path::Path::new(path).extension() {
        Some(e) => match e.to_str() {
            Some(t) => Some(t.to_owned()),
            None => None,
        },
        None => None,
    }
}

/// Relies on `PathBuf::set_extension` with an empty extension: the path with
/// its extension, and the dot before it, removed. What counts as the
/// extension depends on the platform; on a plain path it ends the path.
#[verifier::external_body]
fn without_extension(path: &str) -> (r: String)
    ensures
        plain_path(path@) && plain_extension(path@) is Some ==> r@ == path@.subrange(
            0,
            path@.len() - plain_extension(path@)->Some_0.len() - 1,
        ),
{
    let mut p = std::path::PathBuf::from(path);
    p.set_extension("");
    p.to_string_lossy().into_owned()
}

/// The extension is exactly "enc".
pub fn is_enc_extension(ext: &Option<String>) -> (r: bool)
    ensures
        r == (ext matches Some(e) && e@ == "enc"@),
{
    match ext {
        Some(e) => e.as_str().to_owned() == "enc".to_owned(),
        None => false,
    }
}

/// The path's extension is "enc".
pub fn is_encrypted_file(path: &str) -> (r: bool)
    ensures
        r ==> contains_seq(path@, ".enc"@),
        plain_path(path@) ==> (r <==> plain_extension(path@) == Some("enc"@)),
{
    let ext = path_extension(path);
    let r = is_enc_extension(&ext);
    proof {
        reveal_strlit(".enc");
        reveal_strlit("enc");
        if r {
            assert(seq!['.'] + ext->Some_0@ =~= ".enc"@);
        }
    }
    r
}

/// The name an encrypted file decrypts to: the path without its "enc"
/// extension; nothing for a path without that extension.
pub fn get_decrypted_name(path: &str) -> (r: Option<String>)
    ensures
        r is Some ==> contains_seq(path@, ".enc"@),
        plain_path(path@) ==> (r is Some <==> plain_extension(path@) == Some("enc"@)),
        plain_path(path@) && r is Some ==> r->Some_0@ == path@.subrange(0, path@.len() - 4),
{
    if is_encrypted_file(path) {
        let n = without_extension(path);
        proof {
            reveal_strlit("enc");
        }
        Some(n)
    } else {
        None
    }
}

/// What `String::from_utf16_lossy` makes of UTF-16 code units.
pub uninterp spec fn utf16_lossy(units: Seq<u16>) -> Seq<char>;

/// Relies on `String::from_utf16_lossy`: decodes UTF-16, replacing invalid
/// sequences; the result depends on the units alone, and no units decode to
/// the empty string.
#[verifier::external_body]
fn decode_utf16(units: &[u16]) -> (r: String)
    ensures
        r@ == utf16_lossy(units@),
        units@.len() == 0 ==> r@.len() == 0,
{
    String::from_utf16_lossy(units)
}

/// The index of the first zero unit, or the length when there is none.
pub open spec fn nul_position(w: Seq<u16>, i: int) -> bool {
    &&& 0 <= i <= w.len()
    &&& (i < w.len() ==> w[i] == 0)
    &&& forall|k: int| 0 <= k < i ==> #[trigger] w[k] != 0
}

/// Decodes a NUL-terminated wide string: the units before the first zero.
pub fn wide_string_to_string(wide: &[u16]) -> (r: String)
    ensures
        exists|i: int| nul_position(wide@, i) && r@ == utf16_lossy(wide@.subrange(0, i)),
{
    let mut i: usize = 0;
    while i < wide.len() && wide[i] != 0
        invariant
            i <= wide@.len(),
            forall|k: int| 0 <= k < i ==> #[trigger] wide@[k] != 0,
        decreases wide@.len() - i,
    {
        i = i + 1;
    }
    let (head, _) = wide.split_at(i);
    assert(nul_position(wide@, i as int));
    decode_utf16(head)
}

} // verus!
