use virtdriver::binary32::{ONE, ZERO};
use virtdriver::rotary_input::{RotaryInput, RotaryInputTarget};
use uinput::event::absolute::{Absolute, Position};
use uinput::event::controller::{Controller, GamePad};
use uinput::Event;
use virtdriver::sink::{SinkEvent, PRESS, RELEASE};

const AXIS_Y: Event = Event::Absolute(Absolute::Position(Position::Y));
const AXIS_Z: Event = Event::Absolute(Absolute::Position(Position::Z));
const PAD_TL: Event = Event::Controller(Controller::GamePad(GamePad::TL));
const PAD_TR: Event = Event::Controller(Controller::GamePad(GamePad::TR));

fn axis(flip: bool) -> RotaryInput {
    RotaryInput::new(RotaryInputTarget::Axis { axis: AXIS_Z, flip }, 0.0f32.to_bits())
}

fn button(cross_value: f32) -> RotaryInput {
    RotaryInput::new(
        RotaryInputTarget::Button { button: PAD_TL, cross_value: cross_value.to_bits() },
        0.0f32.to_bits(),
    )
}

#[test]
fn new_channel_reports_default_position() {
    let channel =
        RotaryInput::new(RotaryInputTarget::Axis { axis: AXIS_Z, flip: false }, 0.5f32.to_bits());
    assert_eq!(f32::from_bits(channel.get_cur()), 0.5);
}

#[test]
fn first_reading_becomes_baseline() {
    let mut channel = axis(false);
    assert_eq!(channel.update(1234), None);
    assert_eq!(channel.get_cur(), ZERO);
    assert_eq!(channel.update(1234), None);
    assert_eq!(f32::from_bits(channel.get_cur()), 0.0);
}

#[test]
fn baseline_is_never_latched_again() {
    let mut channel = axis(false);
    channel.update(100);
    channel.update(200);
    assert_eq!(channel.get_cur(), ONE);
    // Back at the first reading the channel is at rest; at the second it is not.
    channel.update(100);
    assert_eq!(channel.get_cur(), ZERO);
    channel.update(200);
    assert_eq!(channel.get_cur(), ONE);
}

#[test]
fn axis_emits_full_scale_on_any_movement() {
    let mut channel = axis(false);
    channel.update(5);
    assert_eq!(channel.update(6), Some(SinkEvent::Axis { axis: AXIS_Z, value: 255 }));
    assert_eq!(f32::from_bits(channel.get_cur()), 1.0);
}

#[test]
fn axis_saturates_at_one() {
    let mut channel = axis(false);
    channel.update(0);
    assert_eq!(channel.update(1000), Some(SinkEvent::Axis { axis: AXIS_Z, value: 255 }));
    assert_eq!(channel.update(-1000), None);
    assert_eq!(channel.get_cur(), ONE);
}

#[test]
fn axis_emits_only_on_change() {
    let mut channel = axis(false);
    assert_eq!(channel.update(7), None);
    assert_eq!(channel.update(8), Some(SinkEvent::Axis { axis: AXIS_Z, value: 255 }));
    assert_eq!(channel.update(9), None);
    assert_eq!(channel.update(7), Some(SinkEvent::Axis { axis: AXIS_Z, value: 0 }));
    assert_eq!(channel.update(7), None);
}

#[test]
fn flipped_axis_counts_from_the_other_end() {
    let mut channel = axis(true);
    channel.update(7);
    assert_eq!(channel.update(8), Some(SinkEvent::Axis { axis: AXIS_Z, value: 0 }));
    assert_eq!(channel.update(7), Some(SinkEvent::Axis { axis: AXIS_Z, value: 255 }));
}

#[test]
fn axis_compares_first_reading_with_default_position() {
    let mut channel =
        RotaryInput::new(RotaryInputTarget::Axis { axis: AXIS_Y, flip: false }, 1.0f32.to_bits());
    assert_eq!(channel.update(3), Some(SinkEvent::Axis { axis: AXIS_Y, value: 0 }));
}

#[test]
fn axis_handles_extreme_readings() {
    let mut channel = axis(false);
    channel.update(i16::MIN);
    assert_eq!(channel.update(i16::MAX), Some(SinkEvent::Axis { axis: AXIS_Z, value: 255 }));
    assert_eq!(channel.update(i16::MIN), Some(SinkEvent::Axis { axis: AXIS_Z, value: 0 }));
}

#[test]
fn button_presses_when_reading_rises_above_threshold() {
    let mut channel = button(0.25);
    assert_eq!(channel.update(10), None);
    assert_eq!(channel.update(11), Some(SinkEvent::Button { control: PAD_TL, value: 255 }));
    assert_eq!(channel.update(12), None);
}

#[test]
fn button_releases_when_reading_falls_to_threshold_or_below() {
    let mut channel = button(0.25);
    channel.update(10);
    channel.update(11);
    assert_eq!(channel.update(10), Some(SinkEvent::Button { control: PAD_TL, value: 0 }));
    assert_eq!(channel.update(10), None);
}

#[test]
fn button_values_are_press_and_release() {
    assert_eq!(PRESS, 255);
    assert_eq!(RELEASE, 0);
    let mut channel = button(0.25);
    channel.update(0);
    assert_eq!(channel.update(1), Some(SinkEvent::Button { control: PAD_TL, value: PRESS }));
    assert_eq!(channel.update(0), Some(SinkEvent::Button { control: PAD_TL, value: RELEASE }));
}

#[test]
fn threshold_of_one_is_never_exceeded() {
    // The crossing is strict: a reading equal to the threshold is not above it.
    let mut channel = button(1.0);
    assert_eq!(channel.update(0), None);
    assert_eq!(channel.update(50), None);
    assert_eq!(channel.update(0), None);
}

#[test]
fn negative_threshold_is_always_exceeded() {
    let mut channel = button(-0.5);
    // The default position 0.0 already lies above the threshold.
    assert_eq!(channel.update(0), None);
    assert_eq!(channel.update(50), None);
}

#[test]
fn threshold_of_zero_is_crossed_strictly() {
    let mut channel = button(0.0);
    assert_eq!(channel.update(3), None);
    assert_eq!(channel.update(4), Some(SinkEvent::Button { control: PAD_TL, value: 255 }));
    assert_eq!(channel.update(3), Some(SinkEvent::Button { control: PAD_TL, value: 0 }));
}

#[test]
fn nan_threshold_never_emits() {
    let mut channel = button(f32::NAN);
    assert_eq!(channel.update(0), None);
    assert_eq!(channel.update(1), None);
    assert_eq!(channel.update(0), None);
}

#[test]
fn button_compares_first_reading_with_default_position() {
    let mut channel = RotaryInput::new(
        RotaryInputTarget::Button { button: PAD_TR, cross_value: 0.25f32.to_bits() },
        1.0f32.to_bits(),
    );
    assert_eq!(channel.update(0), Some(SinkEvent::Button { control: PAD_TR, value: 0 }));
}

#[test]
fn emitted_event_names_the_configured_target() {
    let mut channel =
        RotaryInput::new(RotaryInputTarget::Axis { axis: AXIS_Y, flip: false }, 0.0f32.to_bits());
    channel.update(0);
    let event = channel.update(1);
    assert_eq!(event, Some(SinkEvent::Axis { axis: AXIS_Y, value: 255 }));
    assert_ne!(event, Some(SinkEvent::Axis { axis: AXIS_Z, value: 255 }));
    let target: Event = Position::Y.into();
    assert_eq!(target, AXIS_Y);
}

#[test]
fn distance_of_half_the_range_saturates_too() {
    let mut channel = axis(false);
    channel.update(-16384);
    assert_eq!(channel.update(16384), Some(SinkEvent::Axis { axis: AXIS_Z, value: 255 }));
    assert_eq!(f32::from_bits(channel.get_cur()), 1.0);
    let mut other = axis(false);
    other.update(0);
    assert_eq!(other.update(i16::MIN), Some(SinkEvent::Axis { axis: AXIS_Z, value: 255 }));
    assert_eq!(other.get_cur(), ONE);
}
