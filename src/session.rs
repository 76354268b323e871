//! What one render period writes: processed samples pass through the delay
//! line, or, without a fresh block, the delay line drains; the mono result
//! is duplicated into an interleaved stereo block and every position is set.
use vstd::prelude::*;
use crate::delay::{
    DelayLine, drained, feed_buf, feed_out, lemma_delay_silence_then_input, lemma_feed_out_len,
};
use crate::rate::SampleRate;

verus! {

/// Channels of the capture and render streams.
pub const CHANNELS: usize = 2;

/// The sample an optional value stands for, `silence` when there is none.
pub open spec fn sample_or<T>(o: Option<T>, silence: T) -> T {
    match o {
        Some(x) => x,
        None => silence,
    }
}

/// Mono frames of an input block that fit an output block of `out_len`
/// interleaved samples of `channels` channels.
pub fn frames_to_process(out_len: usize, in_len: usize, channels: usize) -> (r: usize)
    requires
        channels > 0,
    ensures
        r == (if out_len / channels < in_len {
            out_len / channels
        } else {
            in_len
        }),
{
    let fit = out_len / channels;
    if fit < in_len {
        fit
    } else {
        in_len
    }
}

/// Feeds the processed samples of this period through the delay line and
/// returns `frames` mono outputs: what the line emitted for each processed
/// sample, then silence (`None`) for the frames no sample reached.
pub fn render_with_input<T: Copy>(
    line: &mut DelayLine<T>,
    processed: &Vec<T>,
    frames: usize,
    delay: usize,
) -> (r: Vec<Option<T>>)
    requires
        old(line).wf(),
        delay <= old(line).cap(),
        processed@.len() <= frames,
    ensures
        final(line).wf(),
        final(line).cap() == old(line).cap(),
        final(line)@ == feed_buf(old(line)@, processed@, delay as nat),
        r@.len() == frames,
        r@.subrange(0, processed@.len() as int) == feed_out(
            old(line)@,
            processed@,
            delay as nat,
        ),
        forall|i: int| processed@.len() <= i < frames ==> (#[trigger] r@[i]).is_none(),
{
    let ghost start = line@;
    let mut out: Vec<Option<T>> = Vec::with_capacity(frames);
    let mut i: usize = 0;
    while i < processed.len()
        invariant
            i <= processed@.len() <= frames,
            line.wf(),
            line.cap() == old(line).cap(),
            delay <= line.cap(),
            line@ == feed_buf(start, processed@.subrange(0, i as int), delay as nat),
            out@ == feed_out(start, processed@.subrange(0, i as int), delay as nat),
        decreases processed@.len() - i,
    {
        let ghost before = processed@.subrange(0, i as int);
        let ghost after = processed@.subrange(0, i + 1);
        assert(after.drop_last() =~= before);
        assert(after.last() == processed@[i as int]);
        let emitted = line.step(processed[i], delay);
        out.push(emitted);
        i = i + 1;
    }
    assert(processed@.subrange(0, processed@.len() as int) =~= processed@);
    proof {
        lemma_feed_out_len(start, processed@, delay as nat);
        assert(out@.subrange(0, processed@.len() as int) =~= out@);
    }
    let ghost fed = out@;
    while i < frames
        invariant
            processed@.len() <= i <= frames,
            out@.len() == i,
            out@.subrange(0, processed@.len() as int) == fed,
            forall|j: int| processed@.len() <= j < i ==> (#[trigger] out@[j]).is_none(),
        decreases frames - i,
    {
        out.push(None);
        i = i + 1;
        assert(out@.subrange(0, processed@.len() as int) =~= fed);
    }
    out
}

/// With no fresh block, emits `frames` mono outputs by draining the delay
/// line: its oldest samples while more than `delay` wait, then silence.
pub fn render_without_input<T: Copy>(line: &mut DelayLine<T>, frames: usize, delay: usize) -> (r:
    Vec<Option<T>>)
    requires
        old(line).wf(),
    ensures
        final(line).wf(),
        final(line).cap() == old(line).cap(),
        r@.len() == frames,
        ({
            let k = drained(old(line)@.len(), frames as nat, delay as nat);
            &&& final(line)@ == old(line)@.subrange(k as int, old(line)@.len() as int)
            &&& forall|i: int| 0 <= i < k ==> #[trigger] r@[i] == Some(old(line)@[i])
            &&& forall|i: int| k <= i < frames ==> (#[trigger] r@[i]).is_none()
        }),
{
    let ghost start = line@;
    let mut out: Vec<Option<T>> = Vec::with_capacity(frames);
    let mut i: usize = 0;
    while i < frames
        invariant
            i <= frames,
            line.wf(),
            line.cap() == old(line).cap(),
            out@.len() == i,
            line@ == start.subrange(drained(start.len(), i as nat, delay as nat) as int, start.len() as int),
            forall|j: int|
                0 <= j < drained(start.len(), i as nat, delay as nat) ==> #[trigger] out@[j] == Some(
                    start[j],
                ),
            forall|j: int|
                drained(start.len(), i as nat, delay as nat) <= j < i ==> (#[trigger] out@[j]).is_none(),
        decreases frames - i,
    {
        let emitted = line.drain(delay);
        out.push(emitted);
        i = i + 1;
    }
    out
}

/// Writes each mono frame to both channels of an interleaved stereo block of
/// `out_len` samples; positions past the mono frames, and frames that are
/// `None`, get `silence`.
pub fn interleave_stereo<T: Copy>(mono: &Vec<Option<T>>, out_len: usize, silence: T) -> (r: Vec<T>)
    ensures
        r@.len() == out_len,
        forall|j: int|
            0 <= j < out_len ==> #[trigger] r@[j] == (if j / 2 < mono@.len() {
                sample_or(mono@[j / 2], silence)
            } else {
                silence
            }),
{
    let mut out: Vec<T> = Vec::with_capacity(out_len);
    let mut j: usize = 0;
    while j < out_len
        invariant
            j <= out_len,
            out@.len() == j,
            forall|k: int|
                0 <= k < j ==> #[trigger] out@[k] == (if k / 2 < mono@.len() {
                    sample_or(mono@[k / 2], silence)
                } else {
                    silence
                }),
        decreases out_len - j,
    {
        let frame = j / 2;
        let s = if frame < mono.len() {
            match mono[frame] {
                Some(x) => x,
                None => silence,
            }
        } else {
            silence
        };
        out.push(s);
        j = j + 1;
    }
    out
}

/// One render period of `out_len` interleaved stereo samples. With the
/// processed samples of a fresh block, they pass through the delay line;
/// without one, the line drains. Each mono frame goes to both channels, and
/// every position no sample reaches gets `silence`.
pub fn render_period<T: Copy>(
    line: &mut DelayLine<T>,
    processed: Option<&Vec<T>>,
    out_len: usize,
    delay: usize,
    silence: T,
) -> (r: Vec<T>)
    requires
        old(line).wf(),
        delay <= old(line).cap(),
        processed matches Some(p) ==> p@.len() <= out_len / CHANNELS,
    ensures
        final(line).wf(),
        final(line).cap() == old(line).cap(),
        r@.len() == out_len,
        processed matches Some(p) ==> {
            &&& final(line)@ == feed_buf(old(line)@, p@, delay as nat)
            &&& forall|j: int|
                0 <= j < out_len ==> #[trigger] r@[j] == (if j / 2 < p@.len() {
                    sample_or(feed_out(old(line)@, p@, delay as nat)[j / 2], silence)
                } else {
                    silence
                })
        },
        processed is None ==> {
            let k = drained(old(line)@.len(), (out_len / CHANNELS) as nat, delay as nat);
            &&& final(line)@ == old(line)@.subrange(k as int, old(line)@.len() as int)
            &&& forall|j: int|
                0 <= j < out_len ==> #[trigger] r@[j] == (if j / 2 < k {
                    old(line)@[j / 2]
                } else {
                    silence
                })
        },
{
    let ghost start = line@;
    let frames = out_len / CHANNELS;
    let mono = match processed {
        Some(p) => render_with_input(line, p, frames, delay),
        None => render_without_input(line, frames, delay),
    };
    let r = interleave_stereo(&mono, out_len, silence);
    proof {
        match processed {
            Some(p) => {
                assert forall|j: int| 0 <= j < out_len implies #[trigger] r@[j] == (if j / 2
                    < p@.len() {
                    sample_or(feed_out(start, p@, delay as nat)[j / 2], silence)
                } else {
                    silence
                }) by {
                    if j / 2 < p@.len() {
                        assert(mono@.subrange(0, p@.len() as int)[j / 2] == mono@[j / 2]);
                    }
                }
            },
            None => {},
        }
    }
    r
}

/// Starting from an empty delay line at `rate`, a delay of `delay_ms`
/// milliseconds (at most the supported 100 ms) emits `delay_ms * hz / 1000`
/// silences first, rounded up, and then the fed samples in order.
pub proof fn lemma_delay_ms_silence_then_input<T>(rate: SampleRate, delay_ms: nat, xs: Seq<T>)
    requires
        delay_ms <= 100,
    ensures
        ({
            let d = (delay_ms * rate.hz() + 999) / 1000;
            let out = feed_out(Seq::<T>::empty(), xs, rate.delay_len(delay_ms));
            &&& rate.delay_len(delay_ms) == d
            &&& out.len() == xs.len()
            &&& forall|i: int|
                0 <= i < xs.len() ==> #[trigger] out[i] == (if i < d {
                    None
                } else {
                    Some(xs[i - d])
                })
        }),
{
    let d = (delay_ms * rate.hz() + 999) / 1000;
    assert(d <= rate.max_delay()) by (nonlinear_arith)
        requires
            delay_ms <= 100,
            d == (delay_ms * rate.hz() + 999) / 1000,
            rate.max_delay() * 10 == rate.hz(),
    ;
    lemma_delay_silence_then_input(xs, rate.delay_len(delay_ms));
}

} // verus!
