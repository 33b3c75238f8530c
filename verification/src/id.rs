use vstd::prelude::*;

verus! {

use crate::MAX_NODE_IDS;

/// Offset basis of the 64-bit FNV-1a hash.
pub const FNV_OFFSET: u64 = 0xcbf29ce484222325;

/// Multiplier of the 64-bit FNV-1a hash.
pub const FNV_PRIME: u64 = 0x100000001b3;

/// One FNV-1a round: fold a byte into the running hash.
pub open spec fn fnv1a_step(h: u64, b: u8) -> u64 {
    vstd::wrapping::u64_specs::wrapping_mul(h ^ (b as u64), FNV_PRIME)
}

/// FNV-1a hash of a byte sequence, folded left to right.
pub open spec fn fnv1a(bytes: Seq<u8>) -> u64
    decreases bytes.len(),
{
    if bytes.len() == 0 {
        FNV_OFFSET
    } else {
        fnv1a_step(fnv1a(bytes.drop_last()), bytes.last())
    }
}

/// The id derived from a name: its UTF-8 hash, reduced into the id space.
pub open spec fn spec_derive(name: Seq<char>) -> u32 {
    (fnv1a(vstd::utf8::encode_utf8(name)) % (MAX_NODE_IDS as u64)) as u32
}

/// Source of node identities: fresh pseudo-random ids and
/// name-derived deterministic ids, both within [0, MAX_NODE_IDS).
pub struct Allocator {
    _private: (),
}

/// Relies on rand::random: draws an arbitrary value from the thread-local
/// generator; nothing is assumed of which value comes back.
#[verifier::external_body]
fn random_u32() -> u32 {
    rand::random::<u32>()
}

impl Allocator {
    pub fn new() -> (a: Allocator) {
        Allocator { _private: () }
    }

    /// A pseudo-random id. Distinct calls may return anything in range;
    /// callers must not rely on any relation between results.
    pub fn fresh(&mut self) -> (id: u32)
        ensures
            id < MAX_NODE_IDS,
    {
        random_u32() % MAX_NODE_IDS
    }

    /// The deterministic id of a name: equal names always map to equal ids.
    /// Collisions between distinct names are possible and are not detected;
    /// colliding entities merge silently into one node.
    pub fn derive(&self, name: &str) -> (id: u32)
        ensures
            id == spec_derive(name@),
            id < MAX_NODE_IDS,
    {
        let bytes = name.as_bytes_vec();
        let mut h: u64 = FNV_OFFSET;
        let mut i: usize = 0;
        proof {
            assert(bytes@.subrange(0, 0) =~= Seq::<u8>::empty());
        }
        while i < bytes.len()
            invariant
                i <= bytes.len(),
                bytes@ == vstd::utf8::encode_utf8(name@),
                h == fnv1a(bytes@.subrange(0, i as int)),
            decreases bytes.len() - i,
        {
            let b = bytes[i];
            h = (h ^ (b as u64)).wrapping_mul(FNV_PRIME);
            proof {
                let pre = bytes@.subrange(0, i as int);
                let post = bytes@.subrange(0, i + 1);
                assert(post.drop_last() =~= pre);
                assert(post.last() == bytes@[i as int]);
            }
            i = i + 1;
        }
        proof {
            assert(bytes@.subrange(0, bytes@.len() as int) =~= bytes@);
        }
        (h % (MAX_NODE_IDS as u64)) as u32
    }
}

/// Deriving an id is stable: the same name always yields the same id,
/// in every call and in every run.
pub proof fn lemma_derive_deterministic(name1: Seq<char>, name2: Seq<char>)
    requires
        name1 == name2,
    ensures
        spec_derive(name1) == spec_derive(name2),
{
}

} // verus!
