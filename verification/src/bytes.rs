//! Verified helpers on byte vectors.
//!
//! Identifiers, authority identities and hash values are all plain byte
//! strings in this crate, so equality tests, copies and concatenation of
//! byte vectors come up everywhere. The three helpers here are fully
//! verified loops; nothing in this module is trusted.

use vstd::prelude::*;

verus! {

/// Byte-wise equality of two byte vectors.
pub fn bytes_eq(a: &Vec<u8>, b: &Vec<u8>) -> (r: bool)
    ensures
        r == (a@ == b@),
{
    if a.len() != b.len() {
        assert(a@ != b@);
        return false;
    }
    let n = a.len();
    let mut i: usize = 0;
    while i < n
        invariant
            n == a@.len() && n == b@.len(),
            i <= n,
            forall|k: int| 0 <= k < i ==> a@[k] == b@[k],
        decreases n - i,
    {
        if a[i] != b[i] {
            assert(a@ != b@);
            return false;
        }
        i = i + 1;
    }
    assert(a@ =~= b@);
    true
}

/// A fresh byte vector with the same contents.
pub fn clone_bytes(a: &Vec<u8>) -> (r: Vec<u8>)
    ensures
        r@ == a@,
{
    let mut r: Vec<u8> = Vec::new();
    let n = a.len();
    let mut i: usize = 0;
    while i < n
        invariant
            n == a@.len(),
            i <= n,
            r@ =~= a@.subrange(0, i as int),
        decreases n - i,
    {
        r.push(a[i]);
        i = i + 1;
    }
    assert(r@ =~= a@);
    r
}

/// The concatenation of two byte vectors.
pub fn concat_bytes(a: &Vec<u8>, b: &Vec<u8>) -> (r: Vec<u8>)
    requires
        a@.len() + b@.len() <= usize::MAX,
    ensures
        r@ == a@ + b@,
{
    let mut r: Vec<u8> = Vec::new();
    let na = a.len();
    let mut i: usize = 0;
    while i < na
        invariant
            na == a@.len(),
            i <= na,
            r@ =~= a@.subrange(0, i as int),
        decreases na - i,
    {
        r.push(a[i]);
        i = i + 1;
    }
    let nb = b.len();
    let mut j: usize = 0;
    while j < nb
        invariant
            na == a@.len() && nb == b@.len(),
            j <= nb,
            r@ =~= a@ + b@.subrange(0, j as int),
        decreases nb - j,
    {
        r.push(b[j]);
        j = j + 1;
    }
    assert(r@ =~= a@ + b@);
    r
}

} // verus!
