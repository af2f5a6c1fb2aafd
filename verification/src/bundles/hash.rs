//! The two path-hash functions of the archive format and the rule that picks
//! between them.

use crate::bytes::{le_u64_at, u64_at};
use crate::text::ascii_lower;
use vstd::prelude::*;

verus! {

/// Seed of the archive's MurmurHash64A variant.
pub const MURMUR_SEED: u64 = 0x1337B33F;

/// Multiplier of MurmurHash64A.
pub const MURMUR_M: u64 = 0xc6a4a7935bd1e995;

/// Right shift of MurmurHash64A.
pub const MURMUR_R: u64 = 47;

/// Offset basis of FNV-1a-64.
pub const FNV_OFFSET_BASIS: u64 = 0xcbf29ce484222325;

/// Prime of FNV-1a-64.
pub const FNV_PRIME: u64 = 0x100000001b3;

/// Root directory hash of archives that key their files by MurmurHash64A.
pub const MURMUR_ROOT_HASH: u64 = 0xF42A94E69CFF42FE;

/// Root directory hash of archives that key their files by FNV-1a-64.
pub const FNV_ROOT_HASH: u64 = 0x07E47507B4A92E53;

/// The state after one full eight-byte block `k` has been mixed into `h`.
pub open spec fn murmur_mix(h: u64, k: u64) -> u64 {
    let k1 = k.wrapping_mul(MURMUR_M);
    let k2 = k1 ^ (k1 >> MURMUR_R);
    let k3 = k2.wrapping_mul(MURMUR_M);
    (h ^ k3).wrapping_mul(MURMUR_M)
}

/// The state after the first `n` eight-byte blocks of `key`, starting from `h`.
pub open spec fn murmur_blocks(key: Seq<u8>, n: nat, h: u64) -> u64
    decreases n,
{
    if n == 0 {
        h
    } else {
        murmur_mix(murmur_blocks(key, (n - 1) as nat, h), le_u64_at(key, 8 * (n - 1)) as u64)
    }
}

/// `h` with every byte of `tail` XORed in at its byte position, the highest
/// index first.
pub open spec fn murmur_tail_xor(h: u64, tail: Seq<u8>) -> u64
    decreases tail.len(),
{
    if tail.len() == 0 {
        h
    } else {
        murmur_tail_xor(
            h ^ ((tail.last() as u64) << ((8 * (tail.len() - 1)) as u64)),
            tail.drop_last(),
        )
    }
}

/// The state after the one to seven trailing bytes; unchanged when there are
/// none.
pub open spec fn murmur_tail(h: u64, tail: Seq<u8>) -> u64 {
    if tail.len() == 0 {
        h
    } else {
        murmur_tail_xor(h, tail).wrapping_mul(MURMUR_M)
    }
}

/// The final avalanche.
pub open spec fn murmur_finish(h: u64) -> u64 {
    let a = h ^ (h >> MURMUR_R);
    let b = a.wrapping_mul(MURMUR_M);
    b ^ (b >> MURMUR_R)
}

/// MurmurHash64A of `key` with the archive's fixed seed.
pub open spec fn murmur64a(key: Seq<u8>) -> u64 {
    let blocks = key.len() / 8;
    let start = MURMUR_SEED ^ (key.len() as u64).wrapping_mul(MURMUR_M);
    murmur_finish(
        murmur_tail(
            murmur_blocks(key, blocks, start),
            key.subrange(8 * blocks as int, key.len() as int),
        ),
    )
}

/// FNV-1a-64 of `key`.
pub open spec fn fnv1a(key: Seq<u8>) -> u64
    decreases key.len(),
{
    if key.len() == 0 {
        FNV_OFFSET_BASIS
    } else {
        (fnv1a(key.drop_last()) ^ (key.last() as u64)).wrapping_mul(FNV_PRIME)
    }
}

/// The hashes of the empty path: under MurmurHash64A it is the Murmur root
/// hash, under FNV-1a-64 the offset basis.
pub proof fn lemma_hashes_of_the_empty_path()
    ensures
        murmur64a(Seq::<u8>::empty()) == MURMUR_ROOT_HASH,
        murmur64a(Seq::<u8>::empty()) == 0xF42A94E69CFF42FEu64,
        fnv1a(Seq::<u8>::empty()) == 0xcbf29ce484222325u64,
{
    let key = Seq::<u8>::empty();
    let start = MURMUR_SEED ^ (0u64).wrapping_mul(MURMUR_M);
    assert(key.subrange(0, 0) =~= key);
    assert((0u64).wrapping_mul(MURMUR_M) == 0);
    assert(0x1337B33Fu64 ^ 0u64 == 0x1337B33Fu64) by (bit_vector);
    assert(start == 0x1337B33Fu64);
    assert(murmur_blocks(key, 0, start) == start);
    assert(murmur_tail(start, key) == start);
    let a = start ^ (start >> MURMUR_R);
    assert(0x1337B33Fu64 ^ (0x1337B33Fu64 >> 47u64) == 0x1337B33Fu64) by (bit_vector);
    assert(a == 0x1337B33Fu64);
    let b = a.wrapping_mul(MURMUR_M);
    assert((0x1337B33F * 0xc6a4a7935bd1e995) % 0x1_0000_0000_0000_0000 == 0xf42a94e69cfeaaab)
        by (nonlinear_arith);
    assert(b == 0xf42a94e69cfeaaabu64);
    assert(0xf42a94e69cfeaaabu64 ^ (0xf42a94e69cfeaaabu64 >> 47u64) == 0xF42A94E69CFF42FEu64)
        by (bit_vector);
}

/// How the paths of an archive were hashed into the keys of its file table.
#[derive(Debug, Clone, Copy, PartialEq, Eq, Structural)]
pub enum HashAlgorithm {
    /// MurmurHash64A of the path as written.
    Murmur64A,
    /// FNV-1a-64 of the path as written; failing that, of its lower-case form.
    Fnv1a,
    /// Not recognised: both functions are tried, each on the path as written
    /// and on its lower-case form.
    Unknown,
}

/// The algorithm that the hash of the first directory announces.
pub open spec fn algorithm_for_root(root: u64) -> HashAlgorithm {
    if root == MURMUR_ROOT_HASH {
        HashAlgorithm::Murmur64A
    } else if root == FNV_ROOT_HASH {
        HashAlgorithm::Fnv1a
    } else {
        HashAlgorithm::Unknown
    }
}

/// The first of `candidates` that is one of `keys`.
pub open spec fn first_hit(keys: Set<u64>, candidates: Seq<u64>) -> Option<u64>
    decreases candidates.len(),
{
    if candidates.len() == 0 {
        None
    } else if keys.contains(candidates[0]) {
        Some(candidates[0])
    } else {
        first_hit(keys, candidates.drop_first())
    }
}

/// A hit is one of the keys and one of the candidates.
pub proof fn lemma_first_hit_is_key(keys: Set<u64>, candidates: Seq<u64>)
    ensures
        first_hit(keys, candidates) matches Some(hash) ==> keys.contains(hash)
            && candidates.contains(hash),
    decreases candidates.len(),
{
    if candidates.len() > 0 {
        if keys.contains(candidates[0]) {
            assert(candidates.contains(candidates[0]));
        } else {
            lemma_first_hit_is_key(keys, candidates.drop_first());
            if first_hit(keys, candidates) is Some {
                let hash = first_hit(keys, candidates).unwrap();
                let i = choose|i: int|
                    0 <= i < candidates.drop_first().len() && candidates.drop_first()[i] == hash;
                assert(candidates[i + 1] == hash);
            }
        }
    }
}

impl HashAlgorithm {
    /// The hashes under which `path` is looked up, in the order in which they
    /// are tried.
    pub open spec fn candidates(self, path: Seq<u8>) -> Seq<u64> {
        match self {
            HashAlgorithm::Murmur64A => seq![murmur64a(path)],
            HashAlgorithm::Fnv1a => seq![fnv1a(path), fnv1a(ascii_lower(path))],
            HashAlgorithm::Unknown => seq![
                murmur64a(path),
                murmur64a(ascii_lower(path)),
                fnv1a(path),
                fnv1a(ascii_lower(path)),
            ],
        }
    }

    /// Picks the algorithm from the hash of the archive's first directory.
    pub fn from_root_hash(root: u64) -> (algorithm: HashAlgorithm)
        ensures
            algorithm == algorithm_for_root(root),
    {
        if root == MURMUR_ROOT_HASH {
            HashAlgorithm::Murmur64A
        } else if root == FNV_ROOT_HASH {
            HashAlgorithm::Fnv1a
        } else {
            HashAlgorithm::Unknown
        }
    }
}

/// Computes MurmurHash64A of `key` with the archive's fixed seed.
pub fn murmur_hash64a(key: &[u8]) -> (h: u64)
    ensures
        h == murmur64a(key@),
{
    let len = key.len();
    let blocks = len / 8;
    let start: u64 = MURMUR_SEED ^ (len as u64).wrapping_mul(MURMUR_M);
    let mut h: u64 = start;
    let mut i: usize = 0;
    while i < blocks
        invariant
            len == key@.len(),
            blocks == len / 8,
            i <= blocks,
            h == murmur_blocks(key@, i as nat, start),
        decreases blocks - i,
    {
        let k = u64_at(key, i * 8);
        let k1 = k.wrapping_mul(MURMUR_M);
        let k2 = k1 ^ (k1 >> MURMUR_R);
        let k3 = k2.wrapping_mul(MURMUR_M);
        h = (h ^ k3).wrapping_mul(MURMUR_M);
        i += 1;
    }
    let tail_start = blocks * 8;
    let ghost tail = key@.subrange(tail_start as int, len as int);
    let ghost before = h;
    let mut j: usize = len - tail_start;
    if j > 0 {
        assert(tail.subrange(0, j as int) =~= tail);
        while j > 0
            invariant
                len == key@.len(),
                tail_start + j <= len,
                j <= 7,
                tail == key@.subrange(tail_start as int, len as int),
                murmur_tail_xor(before, tail) == murmur_tail_xor(h, tail.subrange(0, j as int)),
            decreases j,
        {
            j -= 1;
            proof {
                let cur = tail.subrange(0, j + 1);
                assert(cur.last() == key@[tail_start + j]);
                assert(cur.drop_last() =~= tail.subrange(0, j as int));
            }
            h = h ^ ((key[tail_start + j] as u64) << ((8 * j) as u64));
        }
        assert(tail.subrange(0, 0) =~= Seq::<u8>::empty());
        h = h.wrapping_mul(MURMUR_M);
    }
    let a = h ^ (h >> MURMUR_R);
    let b = a.wrapping_mul(MURMUR_M);
    b ^ (b >> MURMUR_R)
}

/// Computes FNV-1a-64 of `key`.
pub fn fnv1a64(key: &[u8]) -> (h: u64)
    ensures
        h == fnv1a(key@),
{
    let mut h: u64 = FNV_OFFSET_BASIS;
    let mut i: usize = 0;
    while i < key.len()
        invariant
            i <= key@.len(),
            h == fnv1a(key@.subrange(0, i as int)),
        decreases key@.len() - i,
    {
        proof {
            let next = key@.subrange(0, i + 1);
            assert(next.drop_last() =~= key@.subrange(0, i as int));
            assert(next.last() == key@[i as int]);
        }
        h = (h ^ (key[i] as u64)).wrapping_mul(FNV_PRIME);
        i += 1;
    }
    proof {
        assert(key@.subrange(0, key@.len() as int) =~= key@);
    }
    h
}

} // verus!
