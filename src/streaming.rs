use vstd::prelude::*;

use crate::oversample::{chunk_len_spec, BUFFER_SIZE, CHUNK_CAPACITY, OVERSAMPLE_FACTOR};
use crate::pipeline::{block_steps, chunk_steps, Step};

verus! {

/// The `len` consecutive positions from `start` on.
pub open spec fn span(start: int, len: int) -> Seq<int> {
    Seq::new(len as nat, |i: int| start + i)
}

/// Input positions that the upsampler reads over `steps`, in order.
pub open spec fn upsampler_feed(steps: Seq<Step>) -> Seq<int>
    decreases steps.len(),
{
    if steps.len() == 0 {
        Seq::empty()
    } else {
        upsampler_feed(steps.drop_last()) + match steps.last() {
            Step::Upsample { start, len, .. } => span(start as int, len as int),
            _ => Seq::empty(),
        }
    }
}

/// Output positions that the downsampler writes over `steps`, in order.
pub open spec fn downsampler_output(steps: Seq<Step>) -> Seq<int>
    decreases steps.len(),
{
    if steps.len() == 0 {
        Seq::empty()
    } else {
        downsampler_output(steps.drop_last()) + match steps.last() {
            Step::Downsample { start, len, .. } => span(
                start as int,
                len as int / OVERSAMPLE_FACTOR as int,
            ),
            _ => Seq::empty(),
        }
    }
}

/// Chunk `j` of `steps` upsamples between one and `CHUNK_CAPACITY` input samples
/// of `channel`, lying below `end`, into the scratch buffer; the distortion stage
/// then works over exactly the oversampled samples so produced, and the
/// downsampler consumes exactly them and writes as many samples as were read, at
/// the same position. A chunk reads its input before it writes that position, so
/// input and output may share storage.
pub open spec fn is_chunk(channel: usize, end: int, steps: Seq<Step>, j: int) -> bool {
    match steps[3 * j] {
        Step::Upsample { channel: c, start, len } => {
            &&& c == channel
            &&& 1 <= len <= CHUNK_CAPACITY
            &&& OVERSAMPLE_FACTOR * len <= BUFFER_SIZE
            &&& start + len <= end
            &&& steps[3 * j + 1] == Step::Distort { channel, len: (OVERSAMPLE_FACTOR * len) as usize }
            &&& steps[3 * j + 2] == Step::Downsample {
                channel,
                start,
                len: (OVERSAMPLE_FACTOR * len) as usize,
            }
        },
        _ => false,
    }
}

/// `steps` is a run of whole chunks of `channel` within the positions below `end`.
/// Each one fits the scratch buffer, and nothing is left in it from one chunk to
/// the next.
pub open spec fn whole_chunks(channel: usize, end: int, steps: Seq<Step>) -> bool {
    &&& steps.len() % 3 == 0
    &&& forall|j: int| 0 <= j < steps.len() / 3 ==> #[trigger] is_chunk(channel, end, steps, j)
}

proof fn lemma_feed_append(a: Seq<Step>, b: Seq<Step>)
    ensures
        upsampler_feed(a + b) == upsampler_feed(a) + upsampler_feed(b),
        downsampler_output(a + b) == downsampler_output(a) + downsampler_output(b),
    decreases b.len(),
{
    if b.len() == 0 {
        assert(a + b =~= a);
        assert(upsampler_feed(a) + upsampler_feed(b) =~= upsampler_feed(a));
        assert(downsampler_output(a) + downsampler_output(b) =~= downsampler_output(a));
    } else {
        lemma_feed_append(a, b.drop_last());
        assert((a + b).drop_last() =~= a + b.drop_last());
        assert((a + b).last() == b.last());
        assert(upsampler_feed(a + b) =~= upsampler_feed(a) + upsampler_feed(b));
        assert(downsampler_output(a + b) =~= downsampler_output(a) + downsampler_output(b));
    }
}

proof fn lemma_chunk_feeds(channel: usize, start: nat, len: nat)
    requires
        start + len <= usize::MAX,
        len <= CHUNK_CAPACITY,
    ensures
        upsampler_feed(chunk_steps(channel, start, len)) == span(start as int, len as int),
        downsampler_output(chunk_steps(channel, start, len)) == span(start as int, len as int),
{
    let c = chunk_steps(channel, start, len);
    assert(c.drop_last().drop_last().drop_last() =~= Seq::<Step>::empty());
    reveal_with_fuel(upsampler_feed, 4);
    reveal_with_fuel(downsampler_output, 4);
    assert(upsampler_feed(c) =~= span(start as int, len as int));
    assert(downsampler_output(c) =~= span(start as int, len as int));
}

/// What one block of `remaining` samples from `start` on hands out: whole chunks of
/// its channel within the block, whose upsampler reads every input position of the
/// block once, in order, and whose downsampler writes every output position of the
/// block once, in order.
pub proof fn lemma_block_steps(channel: usize, start: nat, remaining: nat)
    requires
        start + remaining <= usize::MAX,
    ensures
        whole_chunks(channel, (start + remaining) as int, block_steps(channel, start, remaining)),
        upsampler_feed(block_steps(channel, start, remaining)) == span(
            start as int,
            remaining as int,
        ),
        downsampler_output(block_steps(channel, start, remaining)) == span(
            start as int,
            remaining as int,
        ),
        forall|i: int|
            0 <= i < block_steps(channel, start, remaining).len() ==> (#[trigger] block_steps(
                channel,
                start,
                remaining,
            )[i]).channel_of() == channel,
    decreases remaining,
{
    let steps = block_steps(channel, start, remaining);
    if remaining > 0 {
        let n = chunk_len_spec(remaining);
        let chunk = chunk_steps(channel, start, n);
        let rest = block_steps(channel, start + n, (remaining - n) as nat);
        lemma_block_steps(channel, start + n, (remaining - n) as nat);
        lemma_chunk_feeds(channel, start, n);
        lemma_feed_append(chunk, rest);
        assert(steps == chunk + rest);
        assert(upsampler_feed(steps) =~= span(start as int, remaining as int));
        assert(downsampler_output(steps) =~= span(start as int, remaining as int));
        assert forall|j: int| 0 <= j < steps.len() / 3 implies #[trigger] is_chunk(
            channel,
            (start + remaining) as int,
            steps,
            j,
        ) by {
            if j > 0 {
                assert(is_chunk(channel, (start + remaining) as int, rest, j - 1));
                assert(steps[3 * j] == rest[3 * (j - 1)]);
                assert(steps[3 * j + 1] == rest[3 * (j - 1) + 1]);
                assert(steps[3 * j + 2] == rest[3 * (j - 1) + 2]);
            }
        }
        assert forall|i: int| 0 <= i < steps.len() implies (#[trigger] steps[i]).channel_of()
            == channel by {
            if i >= 3 {
                assert(steps[i] == rest[i - 3]);
            }
        }
    } else {
        assert(upsampler_feed(steps) =~= span(start as int, remaining as int));
        assert(downsampler_output(steps) =~= span(start as int, remaining as int));
    }
}

/// `step`, made by a call whose slices begin `offset` positions into the stream,
/// with its positions counted from the start of the stream.
pub open spec fn relocated_step(step: Step, offset: nat) -> Step {
    match step {
        Step::Upsample { channel, start, len } => Step::Upsample {
            channel,
            start: (start + offset) as usize,
            len,
        },
        Step::Distort { .. } => step,
        Step::Downsample { channel, start, len } => Step::Downsample {
            channel,
            start: (start + offset) as usize,
            len,
        },
    }
}

/// `steps`, made by a call whose slices begin `offset` positions into the stream,
/// with their positions counted from the start of the stream.
pub open spec fn relocated(steps: Seq<Step>, offset: nat) -> Seq<Step> {
    steps.map_values(|step: Step| relocated_step(step, offset))
}

/// Sum of the block sizes of consecutive calls.
pub open spec fn total(parts: Seq<nat>) -> nat
    decreases parts.len(),
{
    if parts.len() == 0 {
        0
    } else {
        parts[0] + total(parts.drop_first())
    }
}

/// The steps of consecutive calls on `channel` with block sizes `parts`, the first
/// call's slices beginning `offset` positions into the stream and each later
/// call's where the one before ended; positions are counted from the start of the
/// stream.
pub open spec fn split_steps(channel: usize, offset: nat, parts: Seq<nat>) -> Seq<Step>
    decreases parts.len(),
{
    if parts.len() == 0 {
        Seq::empty()
    } else {
        relocated(block_steps(channel, 0, parts[0]), offset) + split_steps(
            channel,
            offset + parts[0],
            parts.drop_first(),
        )
    }
}

proof fn lemma_relocate_block(channel: usize, start: nat, remaining: nat, offset: nat)
    requires
        start + remaining + offset <= usize::MAX,
    ensures
        relocated(block_steps(channel, start, remaining), offset) == block_steps(
            channel,
            start + offset,
            remaining,
        ),
    decreases remaining,
{
    if remaining > 0 {
        let n = chunk_len_spec(remaining);
        let chunk = chunk_steps(channel, start, n);
        let rest = block_steps(channel, start + n, (remaining - n) as nat);
        lemma_relocate_block(channel, start + n, (remaining - n) as nat, offset);
        assert(relocated(chunk + rest, offset) =~= relocated(chunk, offset) + relocated(
            rest,
            offset,
        ));
        assert(relocated(chunk, offset) =~= chunk_steps(channel, start + offset, n));
    } else {
        assert(relocated(block_steps(channel, start, remaining), offset) =~= Seq::empty());
    }
}

proof fn lemma_whole_chunks_append(channel: usize, end: int, a: Seq<Step>, b: Seq<Step>)
    requires
        whole_chunks(channel, end, a),
        whole_chunks(channel, end, b),
    ensures
        whole_chunks(channel, end, a + b),
{
    let s = a + b;
    assert forall|j: int| 0 <= j < s.len() / 3 implies #[trigger] is_chunk(channel, end, s, j) by {
        if j < a.len() / 3 {
            assert(is_chunk(channel, end, a, j));
            assert(s[3 * j] == a[3 * j]);
            assert(s[3 * j + 1] == a[3 * j + 1]);
            assert(s[3 * j + 2] == a[3 * j + 2]);
        } else {
            let k = j - a.len() / 3;
            assert(is_chunk(channel, end, b, k));
            assert(s[3 * j] == b[3 * k]);
            assert(s[3 * j + 1] == b[3 * k + 1]);
            assert(s[3 * j + 2] == b[3 * k + 2]);
        }
    }
}

proof fn lemma_whole_chunks_widen(channel: usize, end: int, wider: int, steps: Seq<Step>)
    requires
        whole_chunks(channel, end, steps),
        end <= wider,
    ensures
        whole_chunks(channel, wider, steps),
{
    assert forall|j: int| 0 <= j < steps.len() / 3 implies #[trigger] is_chunk(
        channel,
        wider,
        steps,
        j,
    ) by {
        assert(is_chunk(channel, end, steps, j));
    }
}

proof fn lemma_split_steps(channel: usize, offset: nat, parts: Seq<nat>)
    requires
        offset + total(parts) <= usize::MAX,
    ensures
        whole_chunks(channel, (offset + total(parts)) as int, split_steps(channel, offset, parts)),
        upsampler_feed(split_steps(channel, offset, parts)) == span(
            offset as int,
            total(parts) as int,
        ),
        downsampler_output(split_steps(channel, offset, parts)) == span(
            offset as int,
            total(parts) as int,
        ),
    decreases parts.len(),
{
    let steps = split_steps(channel, offset, parts);
    if parts.len() == 0 {
        assert(upsampler_feed(steps) =~= span(offset as int, 0));
        assert(downsampler_output(steps) =~= span(offset as int, 0));
    } else {
        let first = block_steps(channel, offset, parts[0]);
        let rest = split_steps(channel, offset + parts[0], parts.drop_first());
        lemma_relocate_block(channel, 0, parts[0], offset);
        lemma_block_steps(channel, offset, parts[0]);
        lemma_split_steps(channel, offset + parts[0], parts.drop_first());
        lemma_whole_chunks_widen(
            channel,
            (offset + parts[0]) as int,
            (offset + total(parts)) as int,
            first,
        );
        lemma_whole_chunks_append(channel, (offset + total(parts)) as int, first, rest);
        lemma_feed_append(first, rest);
        assert(steps == first + rest);
        assert(upsampler_feed(steps) =~= span(offset as int, total(parts) as int));
        assert(downsampler_output(steps) =~= span(offset as int, total(parts) as int));
    }
}

/// However a block of one channel is split into consecutive calls, the calls
/// hand the channel's upsampler the same input samples in the same order as one
/// call over the whole block, and the downsampler writes the same output
/// positions in the same order. Every chunk stays whole, so the distortion stage
/// and the downsampler are handed exactly what the upsampler made from those
/// samples: each stage sees the same stream as under the single call.
pub proof fn lemma_streaming_equivalence(channel: usize, parts: Seq<nat>)
    requires
        total(parts) <= usize::MAX,
    ensures
        whole_chunks(channel, total(parts) as int, split_steps(channel, 0, parts)),
        upsampler_feed(split_steps(channel, 0, parts)) == upsampler_feed(
            block_steps(channel, 0, total(parts)),
        ),
        downsampler_output(split_steps(channel, 0, parts)) == downsampler_output(
            block_steps(channel, 0, total(parts)),
        ),
{
    lemma_split_steps(channel, 0, parts);
    lemma_block_steps(channel, 0, total(parts));
}

/// A call on one channel hands out steps of that channel alone, so the stage
/// states of every other channel are left as they were.
pub proof fn lemma_channel_independence(channel: usize, other: usize, n_samples: usize)
    requires
        other != channel,
    ensures
        forall|i: int|
            0 <= i < block_steps(channel, 0, n_samples as nat).len() ==> (#[trigger] block_steps(
                channel,
                0,
                n_samples as nat,
            )[i]).channel_of() != other,
{
    lemma_block_steps(channel, 0, n_samples as nat);
}

/// A call with no samples hands out no step: it touches no stage state and no
/// output sample.
pub proof fn lemma_empty_block(channel: usize)
    ensures
        block_steps(channel, 0, 0).len() == 0,
{
}

} // verus!
