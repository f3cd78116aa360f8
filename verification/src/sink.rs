//! What the core asks the virtual input device to do.

use vstd::prelude::*;
use uinput::Event;

verus! {

/// The outside type `uinput::Event`: the name that the virtual input device
/// gives to one of its buttons or axes. It is declared opaque. The core
/// carries such names from its configuration to the events it emits, never
/// looks inside them and assumes nothing about them.
#[verifier::external_type_specification]
#[verifier::external_body]
pub struct ExEvent(uinput::Event);

/// Value sent with a button event when the button goes down.
pub const PRESS: i32 = 255;

/// Value sent with a button event when the button comes up.
pub const RELEASE: i32 = 0;

/// One request to the virtual input device. Buttons and axes bear the names
/// that the caller configured; the core routes them unchanged.
#[derive(Debug, Clone, Copy, PartialEq, Eq)]
pub enum SinkEvent {
    /// A press (`PRESS`) or release (`RELEASE`) of a button.
    Button { control: Event, value: i32 },
    /// A new absolute position, between 0 and 255, of a rotary axis.
    Axis { axis: Event, value: i32 },
    /// A new steering position. The sink is to show seven times the
    /// difference of the two binary32 numbers whose bit patterns are given:
    /// the angle of the frame and the calibrated zero offset.
    Steering { axis: Event, angle: u32, offset: u32 },
    /// Flush everything sent since the last flush as one input report.
    Synchronize,
}

/// The events that an optional emission contributes to a report: none or one.
pub open spec fn emitted(event: Option<SinkEvent>) -> Seq<SinkEvent> {
    match event {
        Some(e) => seq![e],
        None => Seq::empty(),
    }
}

} // verus!
