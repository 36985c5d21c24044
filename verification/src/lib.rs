//! RTTY-style text-to-tone encoder.
//!
//! Converts a text string into a deterministic, time-ordered schedule of
//! carrier-frequency changes that transmits each supported character as a
//! 5-bit ITA2 (Baudot) code word, framed by a start bit and a stop bit,
//! with Letters/Figures shift frames inserted on code-page transitions.
//!
//! Timestamps are counted in whole bit periods (at the standard 45.45-baud
//! rate one period is 1/45.45 s); rendering the schedule as sound, and any
//! conversion of periods to seconds, is the caller's concern.

pub mod code_table;
pub mod laws;
pub mod scheduler;

pub use code_table::{lookup, shift_code, Case, CodeWord};
pub use scheduler::{encode, frames, FrequencyEvent, MAX_TEXT_LEN};
