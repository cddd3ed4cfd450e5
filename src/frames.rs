//! How a sample buffer is cut into fixed-size frames.
use vstd::prelude::*;

verus! {

/// Samples in one frame: 100 ms at the target rate.
pub const FRAME_SIZE: usize = 1600;

/// The sample rate that frames are cut at and that the classifier expects.
pub const TARGET_SAMPLE_RATE: u32 = 16000;

/// Number of frames that a buffer of `len` samples is cut into: `ceil(len / FRAME_SIZE)`.
pub open spec fn spec_frame_count(len: nat) -> nat {
    if len % (FRAME_SIZE as nat) == 0 {
        len / (FRAME_SIZE as nat)
    } else {
        len / (FRAME_SIZE as nat) + 1
    }
}

/// First sample of frame `index`.
pub open spec fn spec_frame_start(index: nat) -> nat {
    index * (FRAME_SIZE as nat)
}

/// One past the last sample of frame `index` in a buffer of `len` samples.
pub open spec fn spec_frame_end(len: nat, index: nat) -> nat {
    if (index + 1) * (FRAME_SIZE as nat) <= len {
        (index + 1) * (FRAME_SIZE as nat)
    } else {
        len
    }
}

/// Number of frames in a buffer of `len` samples; the last one may be short.
pub fn frame_count(len: usize) -> (r: usize)
    ensures
        r == spec_frame_count(len as nat),
{
    let whole: usize = len / FRAME_SIZE;
    if len % FRAME_SIZE == 0 {
        whole
    } else {
        whole + 1
    }
}

/// The half-open range `[start, end)` of samples of frame `index`.
pub fn frame_bounds(len: usize, index: usize) -> (r: (usize, usize))
    requires
        index < spec_frame_count(len as nat),
    ensures
        r.0 == spec_frame_start(index as nat),
        r.1 == spec_frame_end(len as nat, index as nat),
{
    proof {
        lemma_frame_start_in_buffer(len as nat, index as nat);
    }
    let start: usize = index * FRAME_SIZE;
    let end: usize = if len - start >= FRAME_SIZE {
        start + FRAME_SIZE
    } else {
        len
    };
    proof {
        assert((index as nat + 1) * (FRAME_SIZE as nat) == start as nat + FRAME_SIZE as nat)
            by (nonlinear_arith)
            requires
                start as nat == index as nat * (FRAME_SIZE as nat),
        ;
    }
    (start, end)
}

/// Zeros appended to a frame of `frame_len` samples to fill a whole frame.
pub fn padding_len(frame_len: usize) -> (r: usize)
    requires
        frame_len <= FRAME_SIZE,
    ensures
        frame_len + r == FRAME_SIZE,
{
    FRAME_SIZE - frame_len
}

/// Whether a buffer recorded at `sample_rate` must be resampled before framing.
pub fn needs_resampling(sample_rate: u32) -> (r: bool)
    ensures
        r == (sample_rate != TARGET_SAMPLE_RATE),
{
    sample_rate != TARGET_SAMPLE_RATE
}

/// Number of mono samples that `len` interleaved samples of `channels` channels
/// give; a trailing incomplete group of channels is dropped.
pub fn mono_len(len: usize, channels: u16) -> (r: usize)
    requires
        channels >= 1,
    ensures
        r == len as nat / channels as nat,
        r * (channels as nat) <= len,
        len < (r + 1) * (channels as nat),
{
    let r: usize = len / (channels as usize);
    proof {
        let c = channels as int;
        let l = len as int;
        assert(r as int * c <= l && l < (r as int + 1) * c) by (nonlinear_arith)
            requires
                c >= 1,
                l >= 0,
                r as int == l / c,
        ;
    }
    r
}

proof fn lemma_frame_start_in_buffer(len: nat, index: nat)
    requires
        index < spec_frame_count(len),
    ensures
        spec_frame_start(index) < len,
{
    let f = FRAME_SIZE as nat;
    assert(index * f < len) by (nonlinear_arith)
        requires
            f == 1600,
            index < (if len % f == 0 { len / f } else { len / f + 1 }),
    ;
}

/// Frames cut a buffer into consecutive, non-overlapping, non-empty pieces that
/// cover it exactly: there are `ceil(len / FRAME_SIZE)` of them, each frame but
/// the last holds exactly `FRAME_SIZE` samples, and the last holds between one
/// and `FRAME_SIZE`, so that zero padding fills it to a whole frame.
pub proof fn lemma_frames_partition(len: nat)
    ensures
        spec_frame_count(len) * (FRAME_SIZE as nat) >= len,
        spec_frame_count(len) == 0 <==> len == 0,
        len > 0 ==> spec_frame_start(0) == 0,
        len > 0 ==> spec_frame_end(len, (spec_frame_count(len) - 1) as nat) == len,
        forall|i: nat|
            i < spec_frame_count(len) ==> spec_frame_start(i) < #[trigger] spec_frame_end(len, i)
                <= spec_frame_start(i) + FRAME_SIZE,
        forall|i: nat|
            i + 1 < spec_frame_count(len) ==> #[trigger] spec_frame_end(len, i) == spec_frame_start(i + 1)
                && spec_frame_end(len, i) - spec_frame_start(i) == FRAME_SIZE,
{
    let f = FRAME_SIZE as nat;
    let n = spec_frame_count(len);
    assert(n * f >= len && (n == 0 <==> len == 0)) by (nonlinear_arith)
        requires
            f == 1600,
            n == (if len % f == 0 { len / f } else { len / f + 1 }),
    ;
    if len > 0 {
        assert((n - 1) * f < len) by (nonlinear_arith)
            requires
                f == 1600,
                n >= 1,
                n == (if len % f == 0 { len / f } else { len / f + 1 }),
        ;
        assert(spec_frame_end(len, (n - 1) as nat) == len) by (nonlinear_arith)
            requires
                f == 1600,
                n >= 1,
                n * f >= len,
                spec_frame_end(len, (n - 1) as nat) == (if n * f <= len { n * f } else { len }),
        ;
    }
    assert forall|i: nat| i < n implies spec_frame_start(i) < #[trigger] spec_frame_end(len, i)
        <= spec_frame_start(i) + f by {
        lemma_frame_start_in_buffer(len, i);
        assert((i + 1) * f == i * f + f) by (nonlinear_arith);
    }
    assert forall|i: nat| i + 1 < n implies #[trigger] spec_frame_end(len, i) == spec_frame_start(i + 1)
        && spec_frame_end(len, i) - spec_frame_start(i) == f by {
        lemma_frame_start_in_buffer(len, i + 1);
        assert((i + 1) * f == i * f + f) by (nonlinear_arith);
    }
}

} // verus!
