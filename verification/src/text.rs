//! Small helpers for byte strings and their rendering as text.

use vstd::prelude::*;

verus! {

/// The decimal digits of `n`, most significant first, as ASCII bytes.
pub open spec fn dec_rep(n: nat) -> Seq<u8>
    decreases n,
{
    if n < 10 {
        seq![(0x30 + n) as u8]
    } else {
        dec_rep(n / 10) + seq![(0x30 + n % 10) as u8]
    }
}

/// Render `n` in decimal.
pub fn to_decimal(n: u64) -> (r: Vec<u8>)
    ensures
        r@ == dec_rep(n as nat),
    decreases n,
{
    if n < 10 {
        let mut digits: Vec<u8> = Vec::new();
        digits.push(0x30 + n as u8);
        digits
    } else {
        let mut digits = to_decimal(n / 10);
        digits.push(0x30 + (n % 10) as u8);
        assert(digits@ =~= dec_rep(n as nat));
        digits
    }
}

/// Every digit byte that `dec_rep` produces is an ASCII code point.
pub proof fn dec_rep_ascii(n: nat)
    ensures
        all_ascii(dec_rep(n)),
    decreases n,
{
    if n >= 10 {
        dec_rep_ascii(n / 10);
    }
}

/// Whether every byte is an ASCII code point.
pub open spec fn all_ascii(bytes: Seq<u8>) -> bool {
    forall|i: int| 0 <= i < bytes.len() ==> bytes[i] < 0x80
}

/// Relies on String::from_utf8: a sequence of bytes below 0x80 is valid
/// UTF-8 and decodes to the characters with the same code points.
#[verifier::external_body]
pub(crate) fn ascii_to_string(bytes: &Vec<u8>) -> (r: String)
    requires
        all_ascii(bytes@),
    ensures
        r@ == bytes@.map_values(|b: u8| b as char),
{
    String::from_utf8(bytes.clone()).unwrap_or_default()
}

/// Relies on core::fmt (through the format macro) to concatenate a static
/// text with a detail rendered by String::from_utf8_lossy.  Nothing is
/// claimed of the result; messages are for the user's eyes only.
#[verifier::external_body]
pub(crate) fn message_with(text: &str, detail: &[u8]) -> String {
    format!("{}{}", text, String::from_utf8_lossy(detail))
}

/// Copy a byte string.
pub fn clone_bytes(v: &Vec<u8>) -> (r: Vec<u8>)
    ensures
        r@ == v@,
{
    let n = v.len();
    let mut r: Vec<u8> = Vec::new();
    let mut i: usize = 0;
    while i < n
        invariant
            i <= n,
            n == v@.len(),
            r@ == v@.subrange(0, i as int),
        decreases n - i,
    {
        r.push(v[i]);
        assert(r@ =~= v@.subrange(0, i + 1));
        i = i + 1;
    }
    proof {
        assert(r@ =~= v@);
    }
    r
}

/// Relies on core::fmt (through the format macro) to join fixed texts
/// with details rendered by String::from_utf8_lossy.  Nothing is claimed
/// of the result; messages are for the user's eyes only.
#[verifier::external_body]
pub(crate) fn message_join(a: &str, d1: &[u8], b: &str, d2: &[u8], c: &str) -> String {
    format!(
        "{}{}{}{}{}",
        a,
        String::from_utf8_lossy(d1),
        b,
        String::from_utf8_lossy(d2),
        c,
    )
}

/// Compare two byte strings.
pub fn bytes_eq(a: &[u8], b: &[u8]) -> (r: bool)
    ensures
        r == (a@ == b@),
{
    if a.len() != b.len() {
        assert(a@.len() != b@.len());
        return false;
    }
    let n = a.len();
    let mut i: usize = 0;
    while i < n
        invariant
            i <= n,
            n == a@.len(),
            n == b@.len(),
            forall|j: int| 0 <= j < i ==> a@[j] == b@[j],
        decreases n - i,
    {
        if a[i] != b[i] {
            return false;
        }
        i = i + 1;
    }
    proof {
        assert(a@ =~= b@);
    }
    true
}

} // verus!

verus! {

/// Whether `needle` occurs as a contiguous run inside `haystack`.
pub open spec fn has_substring(haystack: Seq<u8>, needle: Seq<u8>) -> bool {
    exists|i: int|
        0 <= i <= haystack.len() - needle.len() && #[trigger] haystack.subrange(
            i,
            i + needle.len() as int,
        ) =~= needle
}

/// Search for `needle` inside `haystack`.
pub fn bytes_contains(haystack: &[u8], needle: &[u8]) -> (r: bool)
    ensures
        r == has_substring(haystack@, needle@),
{
    let hn = haystack.len();
    let nn = needle.len();
    if nn > hn {
        return false;
    }
    let mut i: usize = 0;
    while i <= hn - nn
        invariant
            nn <= hn,
            hn == haystack@.len(),
            nn == needle@.len(),
            i <= hn - nn + 1,
            forall|k: int|
                0 <= k < i ==> !(#[trigger] haystack@.subrange(k, k + needle@.len() as int)
                    =~= needle@),
        decreases hn - nn + 1 - i,
    {
        let mut j: usize = 0;
        let mut matched = true;
        while j < nn
            invariant
                j <= nn,
                nn <= hn,
                hn == haystack@.len(),
                nn == needle@.len(),
                i <= hn - nn,
                matched == (forall|k: int| 0 <= k < j ==> haystack@[i + k] == needle@[k]),
                !matched ==> j == nn,
            decreases nn - j,
        {
            if haystack[i + j] != needle[j] {
                matched = false;
                j = nn;
            } else {
                proof {
                    assert(forall|k: int|
                        0 <= k < j + 1 ==> haystack@[i + k] == needle@[k]);
                }
                j = j + 1;
            }
        }
        if matched {
            proof {
                assert(haystack@.subrange(i as int, i + needle@.len() as int) =~= needle@);
            }
            return true;
        }
        proof {
            assert(!(haystack@.subrange(i as int, i + needle@.len() as int) =~= needle@));
        }
        i = i + 1;
    }
    proof {
        assert forall|k: int|
            0 <= k <= haystack@.len() - needle@.len() implies !(#[trigger] haystack@.subrange(
            k,
            k + needle@.len() as int,
        ) =~= needle@) by {}
    }
    false
}

} // verus!
