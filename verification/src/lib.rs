//! Input-to-report pipeline of a keyboard controller: quadrature decoding,
//! debouncing, matrix scanning, layer resolution and HID report assembly.
//!
//! Everything here works on plain values. Pins, timers and the USB transport
//! are the caller's business: it samples, hands the samples in, and sends what
//! comes back.

pub mod action;
pub mod debounce;
pub mod encoder;
pub mod encoder_controller;
pub mod key;
pub mod keyboard;
pub mod keycode;
pub mod matrix;
pub mod pins;
pub mod report;
pub mod state;
