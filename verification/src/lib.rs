//! Core of a dual-channel RF front-end monitor: a cooperative, priority-based
//! task scheduler for a single-core, interrupt-driven microcontroller.
//!
//! The library models and verifies the parts with real invariants:
//! the monotonic clock source, the bounded activation queue with
//! priority-ordered dispatch, the interrupt-mask critical-section discipline
//! that guards shared state, and the periodic heartbeat / RF-sensing task
//! bodies. Hardware access (GPIO, ADC, the timer peripheral) stays outside;
//! callers read the hardware, hand plain values in, and drive the outputs
//! that the task bodies decide on.

pub mod clock;
pub mod monitor;
pub mod sched;
pub mod shared;
pub mod system;
