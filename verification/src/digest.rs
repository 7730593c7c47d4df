//! Fixed-width digests and the hash oracle.
//!
//! A [`Digest`] is a 32-byte value: a message identifier or an internal tree
//! node. Two digests are combined into their parent's digest by an opaque,
//! deterministic hash function, named in specifications by [`hash_two`].

use vstd::prelude::*;
use vstd::string::StringExecFns;
use crate::text::{hex_digit_str, hex_seq};

verus! {

/// A 32-byte digest: a tree leaf or an internal node value.
#[derive(Clone, Copy, PartialEq, Eq, Debug)]
pub struct Digest {
    bytes: [u8; 32],
}

impl View for Digest {
    type V = Seq<u8>;

    closed spec fn view(&self) -> Seq<u8> {
        self.bytes@
    }
}

/// The digest of the concatenation of two digests, as the hash oracle
/// computes it. Opaque: nothing is assumed of it beyond determinism.
pub uninterp spec fn hash_two(left: Seq<u8>, right: Seq<u8>) -> Seq<u8>;

/// The all-zero digest value, standing for an empty leaf slot.
pub open spec fn zero_leaf() -> Seq<u8> {
    Seq::new(32, |i: int| 0u8)
}

impl Digest {
    /// Wraps 32 raw bytes as a digest.
    pub fn new(bytes: [u8; 32]) -> (d: Digest)
        ensures
            d@ == bytes@,
    {
        Digest { bytes }
    }

    /// The all-zero digest.
    pub fn zero() -> (d: Digest)
        ensures
            d@ == zero_leaf(),
    {
        broadcast use vstd::array::group_array_axioms;

        let d = Digest { bytes: [0u8; 32] };
        proof {
            assert(d@ =~= zero_leaf());
        }
        d
    }

    /// Byte-wise equality of two digests.
    pub fn eq_digest(&self, other: &Digest) -> (r: bool)
        ensures
            r == (self@ == other@),
    {
        broadcast use vstd::array::group_array_axioms;

        let mut i: usize = 0;
        while i < 32
            invariant
                i <= 32,
                forall|k: int| 0 <= k < i ==> self.bytes@[k] == other.bytes@[k],
            decreases 32 - i,
        {
            if self.bytes[i] != other.bytes[i] {
                assert(self@[i as int] != other@[i as int]);
                return false;
            }
            i = i + 1;
        }
        proof {
            assert(self@ =~= other@);
        }
        true
    }

    /// Lower-case hexadecimal rendering of the digest, two digits per byte.
    pub fn to_hex(&self) -> (r: String)
        ensures
            r@ == hex_seq(self@),
    {
        broadcast use vstd::array::group_array_axioms;

        let mut s = String::new();
        let mut i: usize = 0;
        while i < 32
            invariant
                i <= 32,
                s@ == hex_seq(self@).take(2 * i as int),
            decreases 32 - i,
        {
            let b = self.bytes[i];
            s.append(hex_digit_str(b / 16));
            s.append(hex_digit_str(b % 16));
            i = i + 1;
            proof {
                assert(s@ =~= hex_seq(self@).take(2 * i as int));
            }
        }
        proof {
            assert(hex_seq(self@).take(64) =~= hex_seq(self@));
        }
        s
    }
}

/// Copies a vector of digests.
pub(crate) fn copy_digests(v: &Vec<Digest>) -> (r: Vec<Digest>)
    ensures
        r@ == v@,
{
    let mut r: Vec<Digest> = Vec::new();
    let mut i: usize = 0;
    while i < v.len()
        invariant
            i <= v@.len(),
            r@ == v@.take(i as int),
        decreases v@.len() - i,
    {
        r.push(v[i]);
        i = i + 1;
        proof {
            assert(r@ =~= v@.take(i as int));
        }
    }
    proof {
        assert(v@.take(v@.len() as int) =~= v@);
    }
    r
}

/// Relies on `sha3::Keccak256` through `sha3::Digest::digest`: the keccak-256
/// digest of the 64-byte concatenation of the two inputs, 32 bytes long and a
/// function of the input bytes alone.
#[verifier::external_body]
pub(crate) fn keccak_pair(left: &Digest, right: &Digest) -> (r: Digest)
    ensures
        r@ == hash_two(left@, right@),
{
    let mut buf = [0u8; 64];
    buf[..32].copy_from_slice(&left.bytes);
    buf[32..].copy_from_slice(&right.bytes);
    let out = <sha3::Keccak256 as sha3::Digest>::digest(&buf);
    Digest { bytes: out.into() }
}

} // verus!
