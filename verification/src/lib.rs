//! Core of a driver that turns the frames of a serial steering-wheel rig into
//! events for a virtual input device.
//!
//! The rig holds a steering-angle sensor, up to four rotary encoders and up to
//! six buttons. Once per poll it sends one frame with all their readings.
//! This crate decodes the frames and decides what the virtual device is to be
//! told; it does no input or output itself. Its caller moves the bytes and
//! delivers the events.
//!
//! - [`frame`]: the frame and its wire format.
//! - [`reader`]: the poll cycle as a state machine, and decoding from a buffer.
//! - [`button_input`]: press and release edges of one button.
//! - [`rotary_input`]: calibration and emission policy of one rotary channel.
//! - [`dispatcher`]: one frame through all channels, and the steering
//!   calibration.
//! - [`sink`]: the events that the virtual device is sent.
//! - [`binary32`]: order and equality of single-precision numbers on their bit
//!   patterns, which is how this crate carries every real-valued quantity.

pub mod binary32;
pub mod button_input;
pub mod dispatcher;
pub mod frame;
pub mod reader;
pub mod rotary_input;
pub mod sink;
