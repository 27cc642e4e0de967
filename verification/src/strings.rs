//! String helpers: measuring, appending, concatenating, and cutting the
//! first word out of a byte string.

use vstd::prelude::*;
use vstd::string::StringExecFns;
use vstd::string::StringSliceAdditionalSpecFns;

verus! {

/// The length of a character sequence once encoded as UTF-8.
pub open spec fn byte_len(s: Seq<char>) -> nat {
    vstd::utf8::encode_utf8(s).len()
}

/// The length of a string in bytes.
pub fn calculate_length(s: &String) -> (n: usize)
    ensures
        n == byte_len(s@) as usize,
        byte_len(s@) <= usize::MAX ==> n == byte_len(s@),
{
    let r = s.as_str();
    let n = r.len();
    proof {
        assert(r.spec_bytes() == vstd::utf8::encode_utf8(r@));
        assert(r@ == s@);
    }
    n
}

/// Appends a fixed closing line to the string.
pub fn update_string(s: &mut String)
    ensures
        final(s)@ == old(s)@ + " — Even so we must, believe that everything will be just fine."@,
{
    s.append(" — Even so we must, believe that everything will be just fine.");
}

/// Glues two strings together, the first before the second.
pub fn concat_strings(a: &str, b: &str) -> (r: String)
    ensures
        r@ == a@ + b@,
{
    let mut r = a.to_owned();
    r.append(b);
    r
}

/// The first word of a byte string: the prefix before the first space, or
/// the whole string when it holds no space.
pub fn first_word(s: &[u8]) -> (w: &[u8])
    ensures
        w@.len() <= s@.len(),
        w@ == s@.subrange(0, w@.len() as int),
        forall|j: int| 0 <= j < w@.len() ==> s@[j] != 32,
        w@.len() < s@.len() ==> s@[w@.len() as int] == 32,
{
    let n = s.len();
    let mut i: usize = 0;
    while i < n
        invariant
            0 <= i <= n,
            n == s@.len(),
            forall|j: int| 0 <= j < i ==> s@[j] != 32,
        decreases n - i,
    {
        if s[i] == 32 {
            return &s[0..i];
        }
        i = i + 1;
    }
    &s[0..n]
}

} // verus!
