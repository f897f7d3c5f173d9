use vstd::prelude::*;

verus! {

/// The recorded sample that a delay of `delay` samples echoes at output
/// position `position`, if the echo has started there.
pub open spec fn tap_source(position: int, delay: int) -> Option<usize> {
    if position >= delay {
        Some((position - delay) as usize)
    } else {
        None
    }
}

/// Which recorded samples make up one output sample of a multi-tap echo over
/// a recorded take: the dry sample at `source`, and for each echo delay, the
/// sample that delay echoes, if any. `taps[k]` goes with the `k`-th delay.
#[derive(Debug)]
pub struct EchoFrame {
    pub source: usize,
    pub taps: Vec<Option<usize>>,
}

/// The frame at output position `position`: the dry sample there and one tap
/// per delay.
pub open spec fn frame_matches(frame: EchoFrame, position: int, delays: Seq<usize>) -> bool {
    &&& frame.source == position
    &&& frame.taps@.len() == delays.len()
    &&& forall|k: int| 0 <= k < delays.len() ==>
            #[trigger] frame.taps@[k] == tap_source(position, delays[k] as int)
}

/// How many samples a block of `frames` output samples plays from a take of
/// `recorded_len` samples when playback stands at `position`.
pub open spec fn samples_played(position: int, recorded_len: int, frames: int) -> int {
    if position < recorded_len {
        if frames <= recorded_len - position {
            frames
        } else {
            recorded_len - position
        }
    } else {
        0
    }
}

/// The position at which a multi-tap echo plays back a recorded take. It
/// moves on by one for every output sample while there is recorded sound
/// left, and stays put, giving silence, once the take has run out.
pub struct EchoPlayback {
    position: usize,
}

/// The echo delays, in samples, of the recorded-take echo: one and two
/// seconds at 44.1 kHz.
pub fn echo_delays() -> (delays: Vec<usize>)
    ensures
        delays@ == seq![44100usize, 88200usize],
{
    let mut delays: Vec<usize> = Vec::new();
    delays.push(44100);
    delays.push(88200);
    delays
}

impl EchoPlayback {
    /// The playback position, in samples from the start of the take.
    pub closed spec fn position(self) -> nat {
        self.position as nat
    }

    /// Playback from the start of the take.
    pub fn new() -> (p: EchoPlayback)
        ensures
            p.position() == 0,
    {
        EchoPlayback { position: 0 }
    }

    /// The playback position.
    pub fn current(&self) -> (pos: usize)
        ensures
            pos == self.position(),
    {
        self.position
    }

    /// The recorded samples that make up the output sample at `position` of a
    /// take of `recorded_len` samples, or `None` (silence) past its end.
    pub fn frame_at(position: usize, recorded_len: usize, delays: &[usize]) -> (frame: Option<EchoFrame>)
        ensures
            frame is Some <==> position < recorded_len,
            frame matches Some(f) ==> frame_matches(f, position as int, delays@),
            frame matches Some(f) ==> forall|k: int| 0 <= k < f.taps@.len() ==>
                (#[trigger] f.taps@[k] matches Some(s) ==> s < recorded_len),
            frame matches Some(f) ==> f.source == position && f.taps@.len() == delays@.len(),
            frame matches Some(f) ==> forall|k: int| 0 <= k < delays@.len() ==>
                (#[trigger] f.taps@[k] is Some <==> position >= delays@[k]),
            frame matches Some(f) ==> forall|k: int| 0 <= k < delays@.len() ==>
                (#[trigger] f.taps@[k] matches Some(s) ==> s + delays@[k] == position),
    {
        if position >= recorded_len {
            return None;
        }
        let mut taps: Vec<Option<usize>> = Vec::new();
        let mut k: usize = 0;
        while k < delays.len()
            invariant
                position < recorded_len,
                k <= delays@.len(),
                taps@.len() == k,
                forall|j: int| 0 <= j < k ==>
                    #[trigger] taps@[j] == tap_source(position as int, delays@[j] as int),
            decreases delays.len() - k,
        {
            let delay = delays[k];
            if position >= delay {
                let echo_position = position - delay;
                if echo_position < recorded_len {
                    taps.push(Some(echo_position));
                } else {
                    taps.push(None);
                }
            } else {
                taps.push(None);
            }
            k = k + 1;
        }
        Some(EchoFrame { source: position, taps })
    }

    /// Plans the next output sample and moves on by one if there was recorded
    /// sound left to play.
    pub fn next_frame(&mut self, recorded_len: usize, delays: &[usize]) -> (frame: Option<EchoFrame>)
        ensures
            frame is Some <==> old(self).position() < recorded_len,
            frame matches Some(f) ==> frame_matches(f, old(self).position() as int, delays@),
            final(self).position() == old(self).position()
                + samples_played(old(self).position() as int, recorded_len as int, 1),
            final(self).position() == if old(self).position() < recorded_len {
                old(self).position() + 1
            } else {
                old(self).position()
            },
            frame matches Some(f) ==> f.source == old(self).position(),
    {
        let frame = Self::frame_at(self.position, recorded_len, delays);
        if self.position < recorded_len {
            self.position = self.position + 1;
        }
        frame
    }

    /// Plans a block of `frames` output samples, in order.
    pub fn plan_block(&mut self, recorded_len: usize, delays: &[usize], frames: usize) -> (plan: Vec<Option<EchoFrame>>)
        ensures
            plan@.len() == frames,
            final(self).position() == old(self).position()
                + samples_played(old(self).position() as int, recorded_len as int, frames as int),
            forall|k: int| 0 <= k < frames ==> {
                let played = samples_played(old(self).position() as int, recorded_len as int, frames as int);
                &&& (#[trigger] plan@[k] is Some <==> k < played)
                &&& (plan@[k] matches Some(f) ==> frame_matches(f, old(self).position() + k, delays@))
            },
            old(self).position() < recorded_len ==> final(self).position() == if old(self).position() + frames
                <= recorded_len {
                old(self).position() + frames
            } else {
                recorded_len as int
            },
            old(self).position() >= recorded_len ==> final(self).position() == old(self).position(),
            forall|k: int| 0 <= k < frames ==>
                (#[trigger] plan@[k] is Some <==> old(self).position() + k < recorded_len),
            forall|k: int| 0 <= k < frames ==>
                (#[trigger] plan@[k] matches Some(f) ==> f.source == old(self).position() + k),
    {
        let ghost p0 = self.position as int;
        let mut plan: Vec<Option<EchoFrame>> = Vec::new();
        let mut i: usize = 0;
        while i < frames
            invariant
                i <= frames,
                plan@.len() == i,
                self.position == p0 + samples_played(p0, recorded_len as int, i as int),
                forall|k: int| 0 <= k < i ==> {
                    &&& (#[trigger] plan@[k] is Some <==> k < samples_played(p0, recorded_len as int, frames as int))
                    &&& (plan@[k] matches Some(f) ==> frame_matches(f, p0 + k, delays@))
                },
            decreases frames - i,
        {
            let f = self.next_frame(recorded_len, delays);
            plan.push(f);
            i = i + 1;
        }
        plan
    }
}

/// Playback never runs past the end of the take: a position inside it stays
/// inside it (or at its end) however many samples are planned.
pub proof fn lemma_playback_stays_in_take(position: int, recorded_len: int, frames: int)
    requires
        0 <= position <= recorded_len,
        0 <= frames,
    ensures
        position + samples_played(position, recorded_len, frames) <= recorded_len,
        0 <= samples_played(position, recorded_len, frames) <= frames,
{
}

/// Planning `a` samples and then `b` more plays as much of the take as
/// planning `a + b` samples at once.
pub proof fn lemma_blocks_play_alike(position: int, recorded_len: int, a: int, b: int)
    requires
        0 <= position,
        0 <= a,
        0 <= b,
    ensures
        samples_played(position, recorded_len, a)
            + samples_played(position + samples_played(position, recorded_len, a), recorded_len, b)
            == samples_played(position, recorded_len, a + b),
{
}

/// A tap reads the recorded sample exactly `delay` samples before the output
/// position, and exists exactly once the output has got that far into the
/// take.
pub proof fn lemma_tap_reads_delay_back(position: int, delay: int)
    requires
        0 <= position <= usize::MAX,
        0 <= delay,
    ensures
        tap_source(position, delay) is Some <==> position >= delay,
        tap_source(position, delay) matches Some(s) ==> s + delay == position,
        position >= delay ==> tap_source(position, delay) == Some((position - delay) as usize),
{
}

/// While there is recorded sound left, each output sample plays exactly one
/// recorded sample; a block plays as many samples as it has frames, cut short
/// only by the end of the take, and nothing past it.
pub proof fn lemma_playback_plays_one_sample_per_frame(position: int, recorded_len: int, frames: int)
    requires
        0 <= position,
        0 <= frames,
    ensures
        position < recorded_len ==> samples_played(position, recorded_len, 1) == 1,
        position < recorded_len && frames <= recorded_len - position ==>
            samples_played(position, recorded_len, frames) == frames,
        position < recorded_len && frames > recorded_len - position ==>
            position + samples_played(position, recorded_len, frames) == recorded_len,
        position >= recorded_len ==> samples_played(position, recorded_len, frames) == 0,
{
}

} // verus!
