//! Sample-accurate plumbing for a live voice-effects processor: sample-rate
//! settings, the output delay line, the capture-to-render bridge queue, the
//! ring buffers of the pitch shifter and the render-period frame logic.
pub mod bridge;
pub mod delay;
pub mod rate;
pub mod ring;
pub mod session;
