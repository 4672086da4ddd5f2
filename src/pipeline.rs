use vstd::prelude::*;

use crate::oversample::{chunk_len, chunk_len_spec, OVERSAMPLE_FACTOR};

verus! {

/// One call into a DSP stage of one channel, in the order the pipeline makes them.
///
/// Positions are indices into the block's input and output slices; every stage
/// reads and writes the scratch buffer from its front.
#[derive(Clone, Copy, Debug, PartialEq, Eq, Structural)]
pub enum Step {
    /// The upsampler reads the `len` input samples at `start` and writes
    /// `OVERSAMPLE_FACTOR * len` samples to the scratch buffer.
    Upsample { channel: usize, start: usize, len: usize },
    /// The distortion stage runs in place over the first `len` scratch samples.
    Distort { channel: usize, len: usize },
    /// The downsampler reads the first `len` scratch samples and writes
    /// `len / OVERSAMPLE_FACTOR` samples to the output at `start`.
    Downsample { channel: usize, start: usize, len: usize },
}

impl Step {
    /// The channel whose stage state the step advances.
    pub open spec fn channel_of(self) -> usize {
        match self {
            Step::Upsample { channel, .. } => channel,
            Step::Distort { channel, .. } => channel,
            Step::Downsample { channel, .. } => channel,
        }
    }
}

/// The three steps that take the `len` input samples at `start` through
/// upsampler, distortion and downsampler.
pub open spec fn chunk_steps(channel: usize, start: nat, len: nat) -> Seq<Step> {
    seq![
        Step::Upsample { channel, start: start as usize, len: len as usize },
        Step::Distort { channel, len: (OVERSAMPLE_FACTOR * len) as usize },
        Step::Downsample {
            channel,
            start: start as usize,
            len: (OVERSAMPLE_FACTOR * len) as usize,
        },
    ]
}

/// Every step, in order, that processes the `remaining` samples from `start` on:
/// chunks of `chunk_len_spec` samples, one after another.
pub open spec fn block_steps(channel: usize, start: nat, remaining: nat) -> Seq<Step>
    decreases remaining,
{
    if remaining == 0 {
        Seq::empty()
    } else {
        let n = chunk_len_spec(remaining);
        chunk_steps(channel, start, n) + block_steps(channel, start + n, (remaining - n) as nat)
    }
}

/// The steps of one block of one channel, handed out one at a time.
///
/// It allocates nothing: the caller asks for the next step, performs it on the
/// stage states and buffers it owns, and asks again until `None` comes.
pub struct BlockRun {
    channel: usize,
    n_samples: usize,
    /// Input position of the chunk under way.
    offset: usize,
    /// How many steps of that chunk were handed out.
    phase: usize,
}

impl BlockRun {
    #[verifier::type_invariant]
    spec fn inv(self) -> bool {
        &&& self.offset <= self.n_samples
        &&& self.phase < 3
        &&& self.phase > 0 ==> self.offset < self.n_samples
    }

    /// The steps still to come.
    pub closed spec fn steps_left(self) -> Seq<Step> {
        block_steps(
            self.channel,
            self.offset as nat,
            (self.n_samples - self.offset) as nat,
        ).skip(self.phase as int)
    }

    /// Starts the block of `n_samples` samples of `channel`.
    pub(crate) fn new(channel: usize, n_samples: usize) -> (r: Self)
        ensures
            r.steps_left() == block_steps(channel, 0, n_samples as nat),
    {
        let r = BlockRun { channel, n_samples, offset: 0, phase: 0 };
        assert(r.steps_left() =~= block_steps(channel, 0, n_samples as nat));
        r
    }

    /// Hands out the next step, or `None` once the block is done.
    pub fn next(&mut self) -> (r: Option<Step>)
        ensures
            old(self).steps_left().len() == 0 ==> r is None && final(self).steps_left()
                == old(self).steps_left(),
            old(self).steps_left().len() > 0 ==> r == Some(old(self).steps_left()[0])
                && final(self).steps_left() == old(self).steps_left().drop_first(),
    {
        proof {
            use_type_invariant(&*self);
        }
        if self.offset == self.n_samples {
            return None;
        }
        let n = chunk_len(self.n_samples - self.offset);
        let ghost rest = block_steps(
            self.channel,
            (self.offset + n) as nat,
            (self.n_samples - self.offset - n) as nat,
        );
        let ghost chunk = chunk_steps(self.channel, self.offset as nat, n as nat);
        assert(block_steps(
            self.channel,
            self.offset as nat,
            (self.n_samples - self.offset) as nat,
        ) == chunk + rest);
        let step = if self.phase == 0 {
            Step::Upsample { channel: self.channel, start: self.offset, len: n }
        } else if self.phase == 1 {
            Step::Distort { channel: self.channel, len: OVERSAMPLE_FACTOR * n }
        } else {
            Step::Downsample { channel: self.channel, start: self.offset, len: OVERSAMPLE_FACTOR * n }
        };
        let ghost before = (chunk + rest).skip(self.phase as int);
        if self.phase == 2 {
            *self = BlockRun {
                channel: self.channel,
                n_samples: self.n_samples,
                offset: self.offset + n,
                phase: 0,
            };
            assert(self.steps_left() =~= before.drop_first());
        } else {
            *self = BlockRun {
                channel: self.channel,
                n_samples: self.n_samples,
                offset: self.offset,
                phase: self.phase + 1,
            };
            assert(self.steps_left() =~= before.drop_first());
        }
        Some(step)
    }
}

} // verus!
