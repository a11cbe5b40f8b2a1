//! The hash function used to key instance lookups by identifier.
use vstd::prelude::*;

verus! {

/// The FNV-1a offset basis.
pub const FNV_OFFSET: u64 = 0xcbf2_9ce4_8422_2325;

/// The FNV-1a prime.
pub const FNV_PRIME: u64 = 0x0000_0100_0000_01b3;

/// The multiplier that mixes a 64-bit word into the running state.
pub const WORD_MIX: u64 = 0x517c_c1b7_2722_0a95;

/// The 64-bit FNV-1a hash of `bytes`.
pub open spec fn fnv1a(bytes: Seq<u8>) -> u64
    decreases bytes.len(),
{
    if bytes.len() == 0 {
        FNV_OFFSET
    } else {
        ((fnv1a(bytes.drop_last()) ^ (bytes.last() as u64)) as int * FNV_PRIME as int % 0x1_0000_0000_0000_0000) as u64
    }
}

/// `x` rotated left by `n` bits (modulo 64).
pub open spec fn rotated_left(x: u64, n: u32) -> u64 {
    (x << (n % 64)) | (x >> ((64 - n % 64) % 64))
}

/// The state after mixing the 64-bit word `value` into `state`.
pub open spec fn mixed(state: u64, value: u64) -> u64 {
    ((rotated_left(state, 5) ^ value) as int * WORD_MIX as int % 0x1_0000_0000_0000_0000) as u64
}

/// Rotates `x` left by `n` bits, the bits shifted out at the top coming
/// back in at the bottom.
fn rotate_left(x: u64, n: u32) -> (rotated: u64)
    ensures
        rotated == rotated_left(x, n),
{
    let shift: u32 = n % 64;
    (x << shift) | (x >> ((64 - shift) % 64))
}

/// A hasher for instance identifiers: FNV-1a over byte input, a rotate, xor
/// and multiply step for each 64-bit word.
#[derive(Clone, Copy, Debug, Default)]
pub struct InstanceIdHasher(pub u64);

impl InstanceIdHasher {
    /// The current hash state.
    pub fn finish(&self) -> (hash: u64)
        ensures
            hash == self.0,
    {
        self.0
    }

    /// Replaces the state with the FNV-1a hash of `bytes`.
    pub fn write(&mut self, bytes: &[u8])
        ensures
            final(self).0 == fnv1a(bytes@),
    {
        let mut hash: u64 = FNV_OFFSET;
        let mut i: usize = 0;
        while i < bytes.len()
            invariant
                i <= bytes@.len(),
                hash == fnv1a(bytes@.take(i as int)),
            decreases bytes@.len() - i,
        {
            proof {
                assert(bytes@.take(i + 1).drop_last() =~= bytes@.take(i as int));
            }
            hash = (hash ^ bytes[i] as u64).wrapping_mul(FNV_PRIME);
            i = i + 1;
        }
        assert(bytes@.take(bytes@.len() as int) =~= bytes@);
        self.0 = hash;
    }

    /// Mixes the word `value` into the state.
    pub fn write_u64(&mut self, value: u64)
        ensures
            final(self).0 == mixed(old(self).0, value),
    {
        self.0 = (rotate_left(self.0, 5) ^ value).wrapping_mul(WORD_MIX);
    }
}

} // verus!
