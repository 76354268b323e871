//! Supported sample rates and the sample counts derived from them.
use vstd::prelude::*;

verus! {

/// The sample rates the control surface offers.
#[derive(Clone, Copy, Debug, PartialEq, Eq, Structural)]
pub enum SampleRate {
    Rate22050,
    Rate44100,
    Rate48000,
    Rate96000,
}

impl SampleRate {
    /// Frequency in hertz of this rate.
    pub open spec fn hz(self) -> nat {
        match self {
            SampleRate::Rate22050 => 22050,
            SampleRate::Rate44100 => 44100,
            SampleRate::Rate48000 => 48000,
            SampleRate::Rate96000 => 96000,
        }
    }

    pub fn to_hz(self) -> (r: u32)
        ensures
            r as nat == self.hz(),
    {
        match self {
            SampleRate::Rate22050 => 22050,
            SampleRate::Rate44100 => 44100,
            SampleRate::Rate48000 => 48000,
            SampleRate::Rate96000 => 96000,
        }
    }

    /// The supported rate of `hz` hertz, if there is one.
    pub fn from_hz(hz: u32) -> (r: Option<SampleRate>)
        ensures
            r matches Some(rate) ==> rate.hz() == hz,
            r.is_none() <==> (hz != 22050 && hz != 44100 && hz != 48000 && hz != 96000),
    {
        if hz == 22050 {
            Some(SampleRate::Rate22050)
        } else if hz == 44100 {
            Some(SampleRate::Rate44100)
        } else if hz == 48000 {
            Some(SampleRate::Rate48000)
        } else if hz == 96000 {
            Some(SampleRate::Rate96000)
        } else {
            None
        }
    }

    /// Samples in the longest supported delay, 100 ms at this rate.
    pub open spec fn max_delay(self) -> nat {
        self.hz() / 10
    }

    /// Samples in a delay of `delay_ms` milliseconds at this rate, rounded
    /// up and capped at the longest supported delay.
    pub open spec fn delay_len(self, delay_ms: nat) -> nat {
        let n = (delay_ms * self.hz() + 999) / 1000;
        if n < self.max_delay() {
            n
        } else {
            self.max_delay()
        }
    }

    pub fn max_delay_samples(self) -> (r: usize)
        ensures
            r == self.max_delay(),
    {
        (self.to_hz() / 10) as usize
    }

    pub fn delay_samples(self, delay_ms: u32) -> (r: usize)
        ensures
            r == self.delay_len(delay_ms as nat),
            r <= self.max_delay(),
    {
        let hz = self.to_hz() as u64;
        assert(delay_ms as u64 * hz <= 0xffff_ffff_u64 * 96000) by (nonlinear_arith)
            requires
                hz <= 96000,
        ;
        let n: u64 = (delay_ms as u64 * hz + 999) / 1000;
        let cap = self.max_delay_samples();
        if n < cap as u64 {
            n as usize
        } else {
            cap
        }
    }
}

/// Smallest and largest buffer sizes, in samples per period.
pub const MIN_BUFFER_SIZE: u32 = 64;

pub const MAX_BUFFER_SIZE: u32 = 2048;

/// Brings a requested buffer size into the supported range.
pub fn clamp_buffer_size(requested: u32) -> (r: u32)
    ensures
        MIN_BUFFER_SIZE <= r <= MAX_BUFFER_SIZE,
        MIN_BUFFER_SIZE <= requested <= MAX_BUFFER_SIZE ==> r == requested,
        requested < MIN_BUFFER_SIZE ==> r == MIN_BUFFER_SIZE,
        requested > MAX_BUFFER_SIZE ==> r == MAX_BUFFER_SIZE,
{
    if requested < MIN_BUFFER_SIZE {
        MIN_BUFFER_SIZE
    } else if requested > MAX_BUFFER_SIZE {
        MAX_BUFFER_SIZE
    } else {
        requested
    }
}

} // verus!
