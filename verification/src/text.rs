//! Small character-level helpers shared by the engine: string equality,
//! ASCII classification and case folding.

use vstd::prelude::*;
use vstd::string::StrSliceExecFns;

verus! {

/// Exact equality of two string slices, decided character by character.
pub fn str_eq(a: &str, b: &str) -> (r: bool)
    ensures
        r == (a@ == b@),
{
    let a_len = a.unicode_len();
    let b_len = b.unicode_len();
    if a_len != b_len {
        return false;
    }
    let mut i: usize = 0;
    while i < a_len
        invariant
            a@.len() == a_len,
            b@.len() == b_len,
            a_len == b_len,
            i <= a_len,
            forall|j: int| 0 <= j < i ==> a@[j] == b@[j],
        decreases a_len - i,
    {
        if a.get_char(i) != b.get_char(i) {
            return false;
        }
        i += 1;
    }
    proof {
        assert(a@ =~= b@);
    }
    true
}

/// Relies on String::push of std: appends exactly the given character.
#[verifier::external_body]
pub(crate) fn push_char(s: &mut String, c: char)
    ensures
        final(s)@ == old(s)@.push(c),
{
    s.push(c);
}

/// The lower-case form of a character, folding ASCII letters only.
pub open spec fn spec_ascii_lower(c: char) -> char {
    if 'A' <= c <= 'Z' {
        ((c as u8) + 0x20) as char
    } else {
        c
    }
}

/// A string with every ASCII upper-case letter folded to lower case.
pub open spec fn spec_ascii_lower_str(s: Seq<char>) -> Seq<char> {
    s.map_values(|c: char| spec_ascii_lower(c))
}

/// Folds one character to lower case if it is an ASCII upper-case letter.
pub fn ascii_lower(c: char) -> (r: char)
    ensures
        r == spec_ascii_lower(c),
{
    if 'A' <= c && c <= 'Z' {
        (c as u8 + 0x20) as char
    } else {
        c
    }
}

/// Whether `p` is a prefix of `s` once both are folded to ASCII lower case.
pub open spec fn spec_starts_with_ignore_ascii_case(s: Seq<char>, p: Seq<char>) -> bool {
    p.len() <= s.len() && spec_ascii_lower_str(s.take(p.len() as int)) == spec_ascii_lower_str(p)
}

/// Decides whether `s` starts with `p`, ignoring ASCII case.
pub fn starts_with_ignore_ascii_case(s: &str, p: &str) -> (r: bool)
    ensures
        r == spec_starts_with_ignore_ascii_case(s@, p@),
{
    let s_len = s.unicode_len();
    let p_len = p.unicode_len();
    if p_len > s_len {
        return false;
    }
    let mut i: usize = 0;
    while i < p_len
        invariant
            s@.len() == s_len,
            p@.len() == p_len,
            p_len <= s_len,
            i <= p_len,
            forall|j: int| 0 <= j < i ==> spec_ascii_lower(s@[j]) == spec_ascii_lower(p@[j]),
        decreases p_len - i,
    {
        if ascii_lower(s.get_char(i)) != ascii_lower(p.get_char(i)) {
            proof {
                let pre = s@.take(p@.len() as int);
                assert(spec_ascii_lower_str(pre)[i as int] == spec_ascii_lower(s@[i as int]));
                assert(spec_ascii_lower_str(p@)[i as int] == spec_ascii_lower(p@[i as int]));
            }
            return false;
        }
        i += 1;
    }
    proof {
        let pre = s@.take(p@.len() as int);
        assert forall|j: int| 0 <= j < p@.len() implies spec_ascii_lower_str(pre)[j]
            == spec_ascii_lower_str(p@)[j] by {
            assert(spec_ascii_lower(s@[j]) == spec_ascii_lower(p@[j]));
        }
        assert(spec_ascii_lower_str(pre) =~= spec_ascii_lower_str(p@));
    }
    true
}

/// Two strings equal once both are folded to ASCII lower case.
pub open spec fn spec_eq_ignore_ascii_case(a: Seq<char>, b: Seq<char>) -> bool {
    spec_ascii_lower_str(a) == spec_ascii_lower_str(b)
}

/// Decides whether two strings are equal, ignoring ASCII case.
pub fn eq_ignore_ascii_case(a: &str, b: &str) -> (r: bool)
    ensures
        r == spec_eq_ignore_ascii_case(a@, b@),
{
    let a_len = a.unicode_len();
    let b_len = b.unicode_len();
    if a_len != b_len {
        proof {
            assert(spec_ascii_lower_str(a@).len() == a@.len());
            assert(spec_ascii_lower_str(b@).len() == b@.len());
        }
        return false;
    }
    let mut i: usize = 0;
    while i < a_len
        invariant
            a@.len() == a_len,
            b@.len() == b_len,
            a_len == b_len,
            i <= a_len,
            forall|j: int| 0 <= j < i ==> spec_ascii_lower(a@[j]) == spec_ascii_lower(b@[j]),
        decreases a_len - i,
    {
        if ascii_lower(a.get_char(i)) != ascii_lower(b.get_char(i)) {
            proof {
                assert(spec_ascii_lower_str(a@)[i as int] == spec_ascii_lower(a@[i as int]));
                assert(spec_ascii_lower_str(b@)[i as int] == spec_ascii_lower(b@[i as int]));
            }
            return false;
        }
        i += 1;
    }
    proof {
        assert forall|j: int| 0 <= j < a@.len() implies spec_ascii_lower_str(a@)[j]
            == spec_ascii_lower_str(b@)[j] by {
            assert(spec_ascii_lower(a@[j]) == spec_ascii_lower(b@[j]));
        }
        assert(spec_ascii_lower_str(a@) =~= spec_ascii_lower_str(b@));
    }
    true
}

/// What std's lossy UTF-8 decoding yields on `b`: the result depends on the
/// bytes alone.
pub uninterp spec fn utf8_lossy_of(b: Seq<u8>) -> Seq<char>;

/// Relies on String::from_utf8_lossy of std: decodes the bytes as UTF-8,
/// replacing invalid sequences with U+FFFD instead of rejecting them.
#[verifier::external_body]
pub(crate) fn utf8_lossy(b: &Vec<u8>) -> (r: String)
    ensures
        r@ == utf8_lossy_of(b@),
{
    String::from_utf8_lossy(b.as_slice()).to_string()
}

} // verus!
