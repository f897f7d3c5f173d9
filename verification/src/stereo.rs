use vstd::prelude::*;

verus! {

/// An interleaved stereo buffer that plays `frames` on both channels: left
/// and right samples alternate, and both carry the frame's value.
pub open spec fn is_dual_mono<T>(buffer: Seq<T>, frames: Seq<T>) -> bool {
    &&& buffer.len() == 2 * frames.len()
    &&& forall|i: int| 0 <= i < frames.len() ==> #[trigger] buffer[2 * i] == frames[i]
    &&& forall|i: int| 0 <= i < frames.len() ==> #[trigger] buffer[2 * i + 1] == frames[i]
}

/// Writes one mono value per stereo frame of an interleaved buffer, to the
/// left and the right sample of that frame alike.
pub fn fill_dual_mono<T: Copy>(buffer: &mut Vec<T>, frames: &[T])
    requires
        old(buffer)@.len() == 2 * frames@.len(),
    ensures
        is_dual_mono(final(buffer)@, frames@),
        final(buffer)@.len() == old(buffer)@.len(),
        forall|j: int| 0 <= j < final(buffer)@.len() ==> #[trigger] final(buffer)@[j] == frames@[j / 2],
{
    let n = frames.len();
    let mut i: usize = 0;
    while i < n
        invariant
            n == frames@.len(),
            buffer.len() == 2 * n,
            i <= n,
            forall|j: int| 0 <= j < i ==> #[trigger] buffer@[2 * j] == frames@[j],
            forall|j: int| 0 <= j < i ==> #[trigger] buffer@[2 * j + 1] == frames@[j],
        decreases n - i,
    {
        let v = frames[i];
        buffer.set(2 * i, v);
        buffer.set(2 * i + 1, v);
        i = i + 1;
    }
    proof {
        assert forall|j: int| 0 <= j < buffer@.len() implies #[trigger] buffer@[j] == frames@[j / 2] by {
            let h = j / 2;
            if j % 2 == 0 {
                assert(j == 2 * h);
                assert(buffer@[2 * h] == frames@[h]);
            } else {
                assert(j == 2 * h + 1);
                assert(buffer@[2 * h + 1] == frames@[h]);
            }
        }
    }
}

/// The number of stereo frames in an interleaved buffer of `len` samples, or
/// `None` when `len` is odd and the last frame would be cut short.
pub fn stereo_frames(len: usize) -> (frames: Option<usize>)
    ensures
        frames is Some <==> len % 2 == 0,
        frames matches Some(n) ==> 2 * n == len,
{
    if len % 2 == 0 {
        Some(len / 2)
    } else {
        None
    }
}

/// Reading back the left channel (even samples) or the right channel (odd
/// samples) of a dual-mono buffer gives the frames that went in.
pub proof fn lemma_channels_read_back<T>(buffer: Seq<T>, frames: Seq<T>)
    requires
        is_dual_mono(buffer, frames),
    ensures
        Seq::new(frames.len(), |i: int| buffer[2 * i]) == frames,
        Seq::new(frames.len(), |i: int| buffer[2 * i + 1]) == frames,
{
    assert(Seq::new(frames.len(), |i: int| buffer[2 * i]) =~= frames);
    assert(Seq::new(frames.len(), |i: int| buffer[2 * i + 1]) =~= frames);
}

} // verus!
