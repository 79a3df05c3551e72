//! The commitment builder.
//!
//! A commitment over an ordered collection of certificate identifiers is a
//! single hash: each identifier is hashed into a leaf, and adjacent pairs
//! are repeatedly combined (duplicating the last node of a level with an
//! odd count) until one hash remains. An empty collection commits to the
//! hash of the empty byte string. Because the leaves follow the insertion
//! order of the identifiers, the commitment is a function of the identifier
//! sequence, not of the identifier set.

use vstd::prelude::*;

use crate::bytes::concat_bytes;
use crate::hashing::{sha256, sha256_of};

verus! {

/// The views of a sequence of byte vectors.
pub open spec fn views_of(s: Seq<Vec<u8>>) -> Seq<Seq<u8>> {
    s.map_values(|v: Vec<u8>| v@)
}

/// The parent hash of two adjacent nodes: the hash of the fixed-length
/// binary concatenation of the two child hashes.
pub open spec fn combine(l: Seq<u8>, r: Seq<u8>) -> Seq<u8> {
    sha256_of(l + r)
}

/// One reduction round: adjacent pairs in order, the last node paired with
/// itself when the level has an odd count.
pub open spec fn pair_up(level: Seq<Seq<u8>>) -> Seq<Seq<u8>> {
    Seq::new(
        ((level.len() + 1) / 2) as nat,
        |k: int|
            if 2 * k + 1 < level.len() {
                combine(level[2 * k], level[2 * k + 1])
            } else {
                combine(level[2 * k], level[2 * k])
            },
    )
}

/// The root of a level of node hashes: reduce rounds until one hash
/// remains. A level of one node is its own root; an empty level's root is
/// the hash of the empty byte string.
pub open spec fn root_of_level(level: Seq<Seq<u8>>) -> Seq<u8>
    decreases level.len(),
{
    if level.len() == 0 {
        sha256_of(Seq::empty())
    } else if level.len() == 1 {
        level[0]
    } else {
        root_of_level(pair_up(level))
    }
}

/// The leaf hashes of a sequence of identifiers: only the identifier bytes
/// are hashed, nothing else of an entry.
pub open spec fn leaf_hashes(ids: Seq<Seq<u8>>) -> Seq<Seq<u8>> {
    ids.map_values(|id: Seq<u8>| sha256_of(id))
}

/// The commitment over an ordered sequence of identifiers.
pub open spec fn merkle_root_of(ids: Seq<Seq<u8>>) -> Seq<u8> {
    root_of_level(leaf_hashes(ids))
}

/// The commitment of an empty collection is the hash of the empty byte
/// string: a defined sentinel root, not an absent one.
pub proof fn lemma_empty_commitment()
    ensures
        merkle_root_of(Seq::empty()) == sha256_of(Seq::empty()),
{
    assert(leaf_hashes(Seq::empty()) =~= Seq::<Seq<u8>>::empty());
}

/// The commitment of a single identifier is that identifier's leaf hash:
/// the reduction terminates immediately on a one-node level.
pub proof fn lemma_single_commitment(id: Seq<u8>)
    ensures
        merkle_root_of(seq![id]) == sha256_of(id),
{
    assert(leaf_hashes(seq![id]) =~= seq![sha256_of(id)]);
}

/// Builds the commitment over `ids` in order.
pub fn build_merkle_root(env: &soroban_sdk::Env, ids: &Vec<Vec<u8>>) -> (r: Vec<u8>)
    requires
        ids@.len() < usize::MAX,
    ensures
        r@ == merkle_root_of(views_of(ids@)),
        r@.len() == 32,
{
    let n = ids.len();
    if n == 0 {
        let empty: Vec<u8> = Vec::new();
        let r = sha256(env, empty.as_slice());
        proof {
            assert(views_of(ids@) =~= Seq::<Seq<u8>>::empty());
            lemma_empty_commitment();
        }
        return r;
    }

    let mut level: Vec<Vec<u8>> = Vec::new();
    let mut i: usize = 0;
    while i < n
        invariant
            n == ids@.len(),
            i <= n,
            level@.len() == i,
            views_of(level@) =~= leaf_hashes(views_of(ids@)).take(i as int),
            forall|k: int| 0 <= k < level@.len() ==> (#[trigger] level@[k])@.len() == 32,
        decreases n - i,
    {
        let h = sha256(env, ids[i].as_slice());
        level.push(h);
        i = i + 1;
        assert(views_of(level@) =~= leaf_hashes(views_of(ids@)).take(i as int));
    }
    proof {
        assert(views_of(level@) =~= leaf_hashes(views_of(ids@)));
    }

    while level.len() > 1
        invariant
            1 <= level@.len() < usize::MAX,
            root_of_level(views_of(level@)) == merkle_root_of(views_of(ids@)),
            forall|k: int| 0 <= k < level@.len() ==> (#[trigger] level@[k])@.len() == 32,
        decreases level@.len(),
    {
        let m = level.len();
        let mut next: Vec<Vec<u8>> = Vec::new();
        let mut j: usize = 0;
        while j < m
            invariant
                m == level@.len(),
                2 <= m < usize::MAX,
                j % 2 == 0,
                j <= m + 1,
                next@.len() == (j + 1) / 2,
                views_of(next@) =~= pair_up(views_of(level@)).take(((j + 1) / 2) as int),
                forall|k: int| 0 <= k < level@.len() ==> (#[trigger] level@[k])@.len() == 32,
                forall|k: int| 0 <= k < next@.len() ==> (#[trigger] next@[k])@.len() == 32,
            decreases m + 2 - j,
        {
            let left = &level[j];
            let combined = if j + 1 < m {
                concat_bytes(left, &level[j + 1])
            } else {
                concat_bytes(left, left)
            };
            let h = sha256(env, combined.as_slice());
            proof {
                assert(2 * ((j / 2) as int) == j as int);
                assert(h@ == pair_up(views_of(level@))[(j / 2) as int]);
            }
            next.push(h);
            j = j + 2;
            assert(views_of(next@) =~= pair_up(views_of(level@)).take(((j + 1) / 2) as int));
        }
        proof {
            assert(next@.len() == pair_up(views_of(level@)).len());
            assert(views_of(next@) =~= pair_up(views_of(level@)));
        }
        level = next;
    }

    let ghost last_level = level@;
    let r = level.pop().unwrap();
    proof {
        assert(r == last_level[0]);
        assert(views_of(last_level)[0] == r@);
    }
    r
}

} // verus!
