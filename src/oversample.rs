use vstd::prelude::*;

verus! {

/// Capacity of the scratch buffer, in samples at the oversampled rate.
pub const BUFFER_SIZE: usize = 32;

/// Ratio of the internal rate to the host rate.
pub const OVERSAMPLE_FACTOR: usize = 2;

/// Most input samples taken through the stages as one unit, so that their
/// oversampled image fits in the scratch buffer.
pub const CHUNK_CAPACITY: usize = BUFFER_SIZE / OVERSAMPLE_FACTOR;

/// Number of input samples that the next chunk takes when `remaining` are left.
pub open spec fn chunk_len_spec(remaining: nat) -> nat {
    if remaining < CHUNK_CAPACITY {
        remaining
    } else {
        CHUNK_CAPACITY as nat
    }
}

/// Length of the next chunk: all that is left, up to `CHUNK_CAPACITY`.
pub fn chunk_len(remaining: usize) -> (r: usize)
    ensures
        r == chunk_len_spec(remaining as nat),
        remaining > 0 ==> 1 <= r,
        r <= CHUNK_CAPACITY,
        r * OVERSAMPLE_FACTOR <= BUFFER_SIZE,
{
    if remaining < CHUNK_CAPACITY {
        remaining
    } else {
        CHUNK_CAPACITY
    }
}

} // verus!
