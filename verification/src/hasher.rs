//! Header hashing: SHA-256 over a Merkle tree of the canonically encoded
//! header fields.
//!
//! The hasher is a swappable capability behind the `Hasher` trait; `ProdHasher`
//! is the production implementation. Two light blocks committed at the same
//! height represent the same chain exactly when their header digests agree.

use vstd::prelude::*;

use crate::encode::{header_leaves, header_leaves_spec};
use crate::types::{Header, HeaderView};

verus! {

/// Digest that SHA-256 assigns to a byte string. The compression function
/// itself is not restated here; the digest is a function of the input bytes
/// alone, on every machine.
pub uninterp spec fn sha256_of(data: Seq<u8>) -> Seq<u8>;

/// Relies on sha2's `Sha256::digest`: a 32-byte digest computed from the
/// input bytes alone.
#[verifier::external_body]
fn sha256(data: &Vec<u8>) -> (r: Vec<u8>)
    ensures
        r@ == sha256_of(data@),
        r@.len() == 32,
{
    <sha2::Sha256 as sha2::Digest>::digest(data.as_slice()).to_vec()
}

/// Hash of a Merkle leaf: the leaf bytes behind a domain-separating zero byte.
pub open spec fn leaf_hash_spec(leaf: Seq<u8>) -> Seq<u8> {
    sha256_of(seq![0u8] + leaf)
}

/// Hash of a Merkle inner node: both children behind a domain-separating one
/// byte.
pub open spec fn inner_hash_spec(left: Seq<u8>, right: Seq<u8>) -> Seq<u8> {
    sha256_of(seq![1u8] + left + right)
}

/// Size of the left subtree of a Merkle tree over `n >= 2` leaves: the
/// largest power of two strictly below `n`.
pub open spec fn split_point(n: nat) -> nat
    decreases n,
{
    if n <= 2 {
        1
    } else {
        2 * split_point(((n + 1) / 2) as nat)
    }
}

/// The split point of `n >= 2` leaves lies strictly between zero and `n`.
pub proof fn lemma_split_point_bounds(n: nat)
    requires
        n >= 2,
    ensures
        1 <= split_point(n) < n,
    decreases n,
{
    if n > 2 {
        lemma_split_point_bounds(((n + 1) / 2) as nat);
    }
}

/// Whether a number is a power of two.
pub open spec fn is_pow2(k: nat) -> bool
    decreases k,
{
    if k == 0 {
        false
    } else if k == 1 {
        true
    } else {
        k % 2 == 0 && is_pow2(k / 2)
    }
}

/// The split point of `n >= 2` leaves is the largest power of two strictly
/// below `n`: it is a power of two, below `n`, and doubling it reaches `n`.
pub proof fn lemma_split_point_is_largest_pow2(n: nat)
    requires
        n >= 2,
    ensures
        is_pow2(split_point(n)),
        split_point(n) < n,
        2 * split_point(n) >= n,
    decreases n,
{
    lemma_split_point_bounds(n);
    if n > 2 {
        let m = ((n + 1) / 2) as nat;
        lemma_split_point_is_largest_pow2(m);
        let k = split_point(m);
        assert((2 * k) % 2 == 0 && (2 * k) / 2 == k);
    }
}

/// Root hash of the Merkle tree over a list of leaves: leaves are hashed with
/// the leaf prefix, siblings are combined with the inner prefix, and the left
/// subtree holds the largest power of two of leaves below the total.
pub open spec fn merkle_root_spec(leaves: Seq<Seq<u8>>) -> Seq<u8>
    decreases leaves.len()
        via merkle_root_spec_dec
{
    if leaves.len() == 0 {
        sha256_of(Seq::<u8>::empty())
    } else if leaves.len() == 1 {
        leaf_hash_spec(leaves[0])
    } else {
        let k = split_point(leaves.len()) as int;
        inner_hash_spec(
            merkle_root_spec(leaves.subrange(0, k)),
            merkle_root_spec(leaves.subrange(k, leaves.len() as int)),
        )
    }
}

#[via_fn]
proof fn merkle_root_spec_dec(leaves: Seq<Seq<u8>>) {
    if leaves.len() >= 2 {
        lemma_split_point_bounds(leaves.len());
    }
}

/// Digest of a header under the production hasher: the Merkle root of its
/// canonically encoded fields.
pub open spec fn header_hash_spec(h: HeaderView) -> Seq<u8> {
    merkle_root_spec(header_leaves_spec(h))
}

/// The views of a list of byte vectors.
pub open spec fn byte_views(s: Seq<Vec<u8>>) -> Seq<Seq<u8>> {
    s.map_values(|v: Vec<u8>| v@)
}

/// Hashes one Merkle leaf.
fn leaf_hash(leaf: &Vec<u8>) -> (r: Vec<u8>)
    ensures
        r@ == leaf_hash_spec(leaf@),
        r@.len() == 32,
{
    let mut buf: Vec<u8> = Vec::new();
    buf.push(0u8);
    let mut body = crate::types::clone_bytes(leaf);
    buf.append(&mut body);
    proof {
        assert(buf@ =~= seq![0u8] + leaf@);
    }
    sha256(&buf)
}

/// Combines two Merkle child hashes.
fn inner_hash(left: &Vec<u8>, right: &Vec<u8>) -> (r: Vec<u8>)
    ensures
        r@ == inner_hash_spec(left@, right@),
        r@.len() == 32,
{
    let mut buf: Vec<u8> = Vec::new();
    buf.push(1u8);
    let mut l = crate::types::clone_bytes(left);
    buf.append(&mut l);
    let mut rt = crate::types::clone_bytes(right);
    buf.append(&mut rt);
    proof {
        assert(buf@ =~= seq![1u8] + left@ + right@);
    }
    sha256(&buf)
}

/// Computes the split point of `n >= 2` leaves.
fn split_point_exec(n: usize) -> (r: usize)
    requires
        2 <= n,
    ensures
        r as nat == split_point(n as nat),
        1 <= r < n,
    decreases n,
{
    proof {
        lemma_split_point_bounds(n as nat);
    }
    if n <= 2 {
        1
    } else {
        let half = n / 2 + n % 2;
        proof {
            assert(half as nat == ((n as nat + 1) / 2) as nat);
        }
        2 * split_point_exec(half)
    }
}

/// Merkle root of the leaves in positions `lo .. hi`.
fn merkle_root_range(leaves: &Vec<Vec<u8>>, lo: usize, hi: usize) -> (r: Vec<u8>)
    requires
        lo < hi <= leaves@.len(),
    ensures
        r@ == merkle_root_spec(byte_views(leaves@).subrange(lo as int, hi as int)),
        r@.len() == 32,
    decreases hi - lo,
{
    let ghost range = byte_views(leaves@).subrange(lo as int, hi as int);
    let n = hi - lo;
    if n == 1 {
        let r = leaf_hash(&leaves[lo]);
        proof {
            assert(range[0] == leaves@[lo as int]@);
        }
        r
    } else {
        let k = split_point_exec(n);
        proof {
            assert(range.subrange(0, k as int) =~= byte_views(leaves@).subrange(
                lo as int,
                lo as int + k as int,
            ));
            assert(range.subrange(k as int, range.len() as int) =~= byte_views(leaves@).subrange(
                lo as int + k as int,
                hi as int,
            ));
        }
        let left = merkle_root_range(leaves, lo, lo + k);
        let right = merkle_root_range(leaves, lo + k, hi);
        inner_hash(&left, &right)
    }
}

/// Merkle root of a non-empty list of leaves.
pub fn merkle_root(leaves: &Vec<Vec<u8>>) -> (r: Vec<u8>)
    requires
        leaves@.len() >= 1,
    ensures
        r@ == merkle_root_spec(byte_views(leaves@)),
        r@.len() == 32,
{
    let r = merkle_root_range(leaves, 0, leaves.len());
    proof {
        assert(byte_views(leaves@).subrange(0, leaves@.len() as int) =~= byte_views(leaves@));
    }
    r
}

/// Capability that assigns a digest to a header. Tests and callers may swap
/// in their own; `ProdHasher` is the production implementation.
pub trait Hasher: Sized {
    /// Digest this hasher assigns to a header.
    spec fn hash_spec(&self, h: HeaderView) -> Seq<u8>;

    /// Computes the digest of a header.
    fn hash_header(&self, h: &Header) -> (r: Vec<u8>)
        ensures
            r@ == self.hash_spec(h@),
            r@.len() == 32,
    ;
}

/// Production header hasher: SHA-256 over the canonical Merkle encoding of
/// the header fields in their fixed order.
#[derive(Clone, Copy, Debug, PartialEq, Eq, Structural)]
pub struct ProdHasher;

impl Hasher for ProdHasher {
    open spec fn hash_spec(&self, h: HeaderView) -> Seq<u8> {
        header_hash_spec(h)
    }

    fn hash_header(&self, h: &Header) -> (r: Vec<u8>) {
        let leaves = header_leaves(h);
        let r = merkle_root(&leaves);
        proof {
            assert(byte_views(leaves@) == header_leaves_spec(h@));
        }
        r
    }
}

} // verus!
