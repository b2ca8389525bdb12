//! Text predicates shared by the matching rules, stated over sequences of
//! characters, and the few string operations of the standard library that
//! the rules are built on.

use vstd::prelude::*;
use vstd::string::*;

verus! {

/// `needle` occurs in `hay` as a contiguous run of characters.
pub open spec fn occurs_in(needle: Seq<char>, hay: Seq<char>) -> bool {
    exists|i: int|
        0 <= i && i + needle.len() <= hay.len() && #[trigger] hay.subrange(i, i + needle.len())
            == needle
}

/// The lower-case form of a text, as the standard library computes it.
pub uninterp spec fn lowercase(s: Seq<char>) -> Seq<char>;

/// `str::to_lowercase`: the result is the lower-case form of the argument,
/// which depends on the characters of the argument alone.
#[verifier::external_body]
pub(crate) fn to_lowercase(s: &str) -> (r: String)
    ensures
        r@ == lowercase(s@),
{
    s.to_lowercase()
}

/// `str::contains` with a string pattern: true exactly when the pattern
/// matches a sub-slice of the text.
#[verifier::external_body]
pub(crate) fn contains(s: &str, needle: &str) -> (b: bool)
    ensures
        b == occurs_in(needle@, s@),
{
    s.contains(needle)
}

/// `str::starts_with` with a string pattern: true exactly when the pattern
/// matches a prefix of the text.
#[verifier::external_body]
pub(crate) fn starts_with(s: &str, prefix: &str) -> (b: bool)
    ensures
        b == prefix@.is_prefix_of(s@),
{
    s.starts_with(prefix)
}

/// `str::ends_with` with a string pattern: true exactly when the pattern
/// matches a suffix of the text.
#[verifier::external_body]
pub(crate) fn ends_with(s: &str, suffix: &str) -> (b: bool)
    ensures
        b == suffix@.is_suffix_of(s@),
{
    s.ends_with(suffix)
}

/// Whether two texts hold the same characters.
pub fn same_text(a: &str, b: &str) -> (r: bool)
    ensures
        r == (a@ == b@),
{
    let la: usize = a.unicode_len();
    let lb: usize = b.unicode_len();
    if la != lb {
        return false;
    }
    let r = starts_with(a, b);
    proof {
        if r {
            assert(a@.subrange(0, b@.len() as int) =~= a@);
        }
        if a@ == b@ {
            assert(a@.subrange(0, b@.len() as int) =~= a@);
        }
    }
    r
}

/// The text without the given suffix, where it ends with it.
pub fn strip_suffix<'a>(s: &'a str, suffix: &str) -> (r: Option<&'a str>)
    ensures
        match r {
            Some(rest) => rest@ + suffix@ == s@,
            None => !suffix@.is_suffix_of(s@),
        },
{
    if ends_with(s, suffix) {
        let n: usize = s.unicode_len();
        let m: usize = suffix.unicode_len();
        let rest = s.substring_char(0, n - m);
        proof {
            assert(rest@ + suffix@ =~= s@);
        }
        Some(rest)
    } else {
        None
    }
}

/// A position in a list as a mathematical integer.
pub open spec fn index_of(r: Option<usize>) -> Option<int> {
    match r {
        Some(i) => Some(i as int),
        None => None,
    }
}

/// The part of a text after its last `/`, or the whole text where it has none.
pub open spec fn last_segment(s: Seq<char>) -> Seq<char>
    decreases s.len(),
{
    if s.len() == 0 {
        s
    } else if s.last() == '/' {
        Seq::empty()
    } else {
        last_segment(s.drop_last()).push(s.last())
    }
}

} // verus!
