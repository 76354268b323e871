//! The output delay line: a bounded FIFO of processed samples that holds
//! each one back by a configured number of frames.
use vstd::prelude::*;
use std::collections::VecDeque;

verus! {

/// Queue contents after pushing `x` and emitting the head once more than
/// `delay` samples wait.
pub open spec fn step_buf<T>(b: Seq<T>, x: T, delay: nat) -> Seq<T> {
    let s = b.push(x);
    if s.len() > delay {
        s.drop_first()
    } else {
        s
    }
}

/// What one push emits: the head once more than `delay` samples wait, else
/// silence (`None`).
pub open spec fn step_out<T>(b: Seq<T>, x: T, delay: nat) -> Option<T> {
    let s = b.push(x);
    if s.len() > delay {
        Some(s[0])
    } else {
        None
    }
}

/// Queue contents after pushing every sample of `xs` in order.
pub open spec fn feed_buf<T>(b: Seq<T>, xs: Seq<T>, delay: nat) -> Seq<T>
    decreases xs.len(),
{
    if xs.len() == 0 {
        b
    } else {
        step_buf(feed_buf(b, xs.drop_last(), delay), xs.last(), delay)
    }
}

/// What pushing every sample of `xs` in order emits, one entry per sample.
pub open spec fn feed_out<T>(b: Seq<T>, xs: Seq<T>, delay: nat) -> Seq<Option<T>>
    decreases xs.len(),
{
    if xs.len() == 0 {
        Seq::empty()
    } else {
        feed_out(b, xs.drop_last(), delay).push(
            step_out(feed_buf(b, xs.drop_last(), delay), xs.last(), delay),
        )
    }
}

/// How many samples `n` drain steps pop from a queue of length `len`.
pub open spec fn drained(len: nat, n: nat, delay: nat) -> nat {
    if len <= delay {
        0
    } else if len - delay < n {
        (len - delay) as nat
    } else {
        n
    }
}

/// Bounded FIFO of samples awaiting emission.
pub struct DelayLine<T> {
    queue: VecDeque<T>,
    capacity: usize,
}

impl<T> View for DelayLine<T> {
    type V = Seq<T>;

    closed spec fn view(&self) -> Seq<T> {
        self.queue@
    }
}

impl<T> DelayLine<T> {
    /// The most samples the line may ever hold.
    pub closed spec fn cap(&self) -> nat {
        self.capacity as nat
    }

    pub closed spec fn wf(&self) -> bool {
        self.queue@.len() <= self.capacity
    }

    /// An empty line that holds at most `capacity` samples.
    pub fn new(capacity: usize) -> (r: Self)
        ensures
            r.wf(),
            r@ == Seq::<T>::empty(),
            r.cap() == capacity,
    {
        DelayLine { queue: VecDeque::with_capacity(capacity), capacity }
    }

    pub fn capacity(&self) -> (r: usize)
        ensures
            r == self.cap(),
    {
        self.capacity
    }

    pub fn len(&self) -> (r: usize)
        requires
            self.wf(),
        ensures
            r == self@.len(),
            r <= self.cap(),
    {
        self.queue.len()
    }

    /// Pushes one processed sample; emits the oldest one once more than
    /// `delay` samples wait, and silence (`None`) while the line fills.
    pub fn step(&mut self, sample: T, delay: usize) -> (r: Option<T>)
        requires
            old(self).wf(),
            delay <= old(self).cap(),
        ensures
            final(self).wf(),
            final(self).cap() == old(self).cap(),
            final(self)@ == step_buf(old(self)@, sample, delay as nat),
            final(self)@.len() <= final(self).cap(),
            r == step_out(old(self)@, sample, delay as nat),
    {
        self.queue.push_back(sample);
        if self.queue.len() > delay {
            self.queue.pop_front()
        } else {
            None
        }
    }

    /// Emits the oldest sample without feeding a new one, once more than
    /// `delay` samples wait; otherwise silence (`None`).
    pub fn drain(&mut self, delay: usize) -> (r: Option<T>)
        requires
            old(self).wf(),
        ensures
            final(self).wf(),
            final(self).cap() == old(self).cap(),
            final(self)@.len() <= final(self).cap(),
            old(self)@.len() > delay ==> r == Some(old(self)@[0]) && final(self)@
                == old(self)@.drop_first(),
            old(self)@.len() <= delay ==> r.is_none() && final(self)@ == old(self)@,
    {
        if self.queue.len() > delay {
            self.queue.pop_front()
        } else {
            None
        }
    }
}

/// Feeding emits one entry per sample fed.
pub proof fn lemma_feed_out_len<T>(b: Seq<T>, xs: Seq<T>, delay: nat)
    ensures
        feed_out(b, xs, delay).len() == xs.len(),
    decreases xs.len(),
{
    if xs.len() > 0 {
        lemma_feed_out_len(b, xs.drop_last(), delay);
    }
}

/// Feeding a sequence keeps the queue within `delay` samples once it starts
/// empty: it holds the last `min(n, delay)` samples fed.
pub proof fn lemma_feed_buf_from_empty<T>(xs: Seq<T>, delay: nat)
    ensures
        feed_buf(Seq::<T>::empty(), xs, delay) == (if xs.len() <= delay {
            xs
        } else {
            xs.subrange(xs.len() - delay, xs.len() as int)
        }),
    decreases xs.len(),
{
    if xs.len() > 0 {
        let p = xs.drop_last();
        lemma_feed_buf_from_empty(p, delay);
        let b = feed_buf(Seq::<T>::empty(), p, delay);
        if xs.len() <= delay {
            assert(b.push(xs.last()) =~= xs);
        } else if p.len() <= delay {
            assert(b.push(xs.last()).drop_first() =~= xs.subrange(xs.len() - delay, xs.len() as int));
        } else {
            assert(b.push(xs.last()).drop_first() =~= xs.subrange(xs.len() - delay, xs.len() as int));
        }
    }
}

/// A line that starts empty and is fed `xs` with a fixed delay of `delay`
/// samples emits exactly `delay` silences first, then `xs` in order.
pub proof fn lemma_delay_silence_then_input<T>(xs: Seq<T>, delay: nat)
    ensures
        feed_out(Seq::<T>::empty(), xs, delay).len() == xs.len(),
        forall|i: int|
            0 <= i < xs.len() ==> #[trigger] feed_out(Seq::<T>::empty(), xs, delay)[i] == (if i
                < delay {
                None
            } else {
                Some(xs[i - delay])
            }),
    decreases xs.len(),
{
    if xs.len() > 0 {
        let p = xs.drop_last();
        lemma_delay_silence_then_input(p, delay);
        lemma_feed_buf_from_empty(p, delay);
        let out = feed_out(Seq::<T>::empty(), xs, delay);
        assert forall|i: int| 0 <= i < xs.len() implies #[trigger] out[i] == (if i < delay {
            None
        } else {
            Some(xs[i - delay])
        }) by {
            if i < p.len() {
                assert(out[i] == feed_out(Seq::<T>::empty(), p, delay)[i]);
                if i >= delay {
                    assert(p[i - delay] == xs[i - delay]);
                }
            } else {
                let b = feed_buf(Seq::<T>::empty(), p, delay);
                assert(out[i] == step_out(b, xs.last(), delay));
                if xs.len() > delay {
                    assert(b.push(xs.last())[0] == xs[i - delay]);
                }
            }
        }
    }
}

/// Feeding `xs` in one period and `ys` in the next emits what feeding
/// `xs + ys` at once would, and leaves the same queue: the line keeps strict
/// sample order across periods.
pub proof fn lemma_feed_across_periods<T>(b: Seq<T>, xs: Seq<T>, ys: Seq<T>, delay: nat)
    ensures
        feed_buf(b, xs + ys, delay) == feed_buf(feed_buf(b, xs, delay), ys, delay),
        feed_out(b, xs + ys, delay) == feed_out(b, xs, delay) + feed_out(
            feed_buf(b, xs, delay),
            ys,
            delay,
        ),
    decreases ys.len(),
{
    if ys.len() == 0 {
        assert(xs + ys =~= xs);
        assert(feed_out(b, xs, delay) + Seq::<Option<T>>::empty() =~= feed_out(b, xs, delay));
    } else {
        let p = ys.drop_last();
        lemma_feed_across_periods(b, xs, p, delay);
        assert((xs + ys).drop_last() =~= xs + p);
        assert((xs + ys).last() == ys.last());
        let mid = feed_buf(b, xs, delay);
        assert(feed_out(b, xs, delay) + feed_out(mid, ys, delay) =~= (feed_out(b, xs, delay)
            + feed_out(mid, p, delay)).push(step_out(feed_buf(mid, p, delay), ys.last(), delay)));
    }
}

} // verus!
