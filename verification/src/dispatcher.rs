//! The dispatcher: routes one decoded frame through the per-channel state and
//! keeps the zero offset of the steering axis.

use vstd::prelude::*;
use uinput::Event;
use crate::binary32::ZERO;
use crate::button_input::{ButtonInput, ButtonState};
use crate::frame::{Frame, FrameError, FrameView, MAX_BUTTONS, MAX_ENCODERS, decoding};
use crate::reader::decode;
use crate::rotary_input::{RotaryInput, RotaryState};
use crate::sink::{SinkEvent, emitted, PRESS, RELEASE};

verus! {

/// The per-channel state of the rig and the steering calibration.
pub struct Dispatcher {
    encoder_inputs: [RotaryInput; 4],
    button_inputs: [ButtonInput; 6],
    button_targets: [Event; 6],
    calibration_button: usize,
    steering_axis: Event,
    wheel_offset: u32,
}

/// What a dispatcher holds, as plain values.
pub struct DispatcherState {
    /// The rotary channels; there are `MAX_ENCODERS` of them.
    pub encoder_inputs: Seq<RotaryState>,
    /// The button trackers; there are `MAX_BUTTONS` of them.
    pub button_inputs: Seq<ButtonState>,
    /// The control that each button drives.
    pub button_targets: Seq<Event>,
    /// Index of the button that calibrates the steering axis instead of
    /// driving a control.
    pub calibration_button: usize,
    /// The axis that shows the steering angle.
    pub steering_axis: Event,
    /// Bit pattern of the angle that counts as straight ahead.
    pub wheel_offset: u32,
}

impl DispatcherState {
    /// Every channel that a well-formed frame can address exists.
    pub open spec fn wf(self) -> bool {
        &&& self.encoder_inputs.len() == MAX_ENCODERS
        &&& self.button_inputs.len() == MAX_BUTTONS
        &&& self.button_targets.len() == MAX_BUTTONS
    }

    /// The rotary channels after `frame`: each channel that the frame has a
    /// reading for takes it, the others stay.
    pub open spec fn encoders_after(self, frame: FrameView) -> Seq<RotaryState> {
        Seq::new(
            self.encoder_inputs.len(),
            |i: int|
                if i < frame.encoders.len() {
                    self.encoder_inputs[i].step(frame.encoders[i])
                } else {
                    self.encoder_inputs[i]
                },
        )
    }

    /// The button trackers after `frame`: each tracker that the frame has a
    /// level for takes it, the others stay.
    pub open spec fn buttons_after(self, frame: FrameView) -> Seq<ButtonState> {
        Seq::new(
            self.button_inputs.len(),
            |i: int|
                if i < frame.buttons.len() {
                    self.button_inputs[i].step(frame.buttons[i])
                } else {
                    self.button_inputs[i]
                },
        )
    }

    /// Whether `frame` releases the calibration button.
    pub open spec fn calibrates(self, frame: FrameView) -> bool {
        &&& self.calibration_button < frame.buttons.len()
        &&& self.button_inputs[self.calibration_button as int].step(
            frame.buttons[self.calibration_button as int],
        ).was_released
    }

    /// The zero offset after `frame`: the frame's own angle if the frame
    /// releases the calibration button, else the offset as it was.
    pub open spec fn offset_after(self, frame: FrameView) -> u32 {
        if self.calibrates(frame) {
            frame.angle
        } else {
            self.wheel_offset
        }
    }

    /// What the first `n` rotary channels emit for `frame`, in channel order.
    pub open spec fn encoder_events(self, frame: FrameView, n: nat) -> Seq<SinkEvent>
        decreases n,
    {
        if n == 0 {
            Seq::empty()
        } else {
            self.encoder_events(frame, (n - 1) as nat) + emitted(
                self.encoder_inputs[n - 1].emission(frame.encoders[n - 1]),
            )
        }
    }

    /// What button `i` emits for `frame`: nothing for the calibration button
    /// and nothing without an edge, else a press or a release of its control.
    pub open spec fn button_event(self, frame: FrameView, i: int) -> Option<SinkEvent> {
        let after = self.button_inputs[i].step(frame.buttons[i]);
        if i == self.calibration_button {
            None
        } else if after.was_pressed {
            Some(SinkEvent::Button { control: self.button_targets[i], value: PRESS })
        } else if after.was_released {
            Some(SinkEvent::Button { control: self.button_targets[i], value: RELEASE })
        } else {
            None
        }
    }

    /// What the first `n` buttons emit for `frame`, in channel order.
    pub open spec fn button_events(self, frame: FrameView, n: nat) -> Seq<SinkEvent>
        decreases n,
    {
        if n == 0 {
            Seq::empty()
        } else {
            self.button_events(frame, (n - 1) as nat) + emitted(
                self.button_event(frame, n - 1),
            )
        }
    }

    /// Everything that `frame` makes the dispatcher send, in order: the
    /// events of the rotary channels, those of the buttons, the steering
    /// position against the offset as it is after the frame, and the flush.
    pub open spec fn report(self, frame: FrameView) -> Seq<SinkEvent> {
        self.encoder_events(frame, frame.encoders.len()) + self.button_events(
            frame,
            frame.buttons.len(),
        ) + seq![
            SinkEvent::Steering {
                axis: self.steering_axis,
                angle: frame.angle,
                offset: self.offset_after(frame),
            },
            SinkEvent::Synchronize,
        ]
    }

    /// The state after `frame`.
    pub open spec fn step(self, frame: FrameView) -> DispatcherState {
        DispatcherState {
            encoder_inputs: self.encoders_after(frame),
            button_inputs: self.buttons_after(frame),
            wheel_offset: self.offset_after(frame),
            ..self
        }
    }
}

/// The rotary channels and the buttons each send at most one event per
/// frame.
pub proof fn lemma_events_are_bounded(d: DispatcherState, frame: FrameView, n: nat)
    ensures
        d.encoder_events(frame, n).len() <= n,
        d.button_events(frame, n).len() <= n,
    decreases n,
{
    if n > 0 {
        lemma_events_are_bounded(d, frame, (n - 1) as nat);
    }
}

/// Every report ends with the steering position and then the flush, and
/// holds at most one event more for each encoder and each button of the
/// frame.
pub proof fn law_report_ends_with_steering_and_flush(d: DispatcherState, frame: FrameView)
    ensures
        ({
            let report = d.report(frame);
            &&& 2 <= report.len() <= frame.encoders.len() + frame.buttons.len() + 2
            &&& report[report.len() - 2] == SinkEvent::Steering {
                axis: d.steering_axis,
                angle: frame.angle,
                offset: d.offset_after(frame),
            }
            &&& report.last() == SinkEvent::Synchronize
        }),
{
    lemma_events_are_bounded(d, frame, frame.encoders.len());
    lemma_events_are_bounded(d, frame, frame.buttons.len());
}

/// The zero offset moves only when a frame releases the calibration button,
/// that is when the frame reports the button up and the frame before
/// reported it down; it then becomes the angle of that frame.
pub proof fn law_offset_moves_only_on_calibration_release(d: DispatcherState, frame: FrameView)
    ensures
        d.calibrates(frame) <==> {
            &&& d.calibration_button < frame.buttons.len()
            &&& d.button_inputs[d.calibration_button as int].last
            &&& !frame.buttons[d.calibration_button as int]
        },
        d.calibrates(frame) ==> d.step(frame).wheel_offset == frame.angle,
        !d.calibrates(frame) ==> d.step(frame).wheel_offset == d.wheel_offset,
{
}

/// A frame leaves alone every channel that it has no value for, and the
/// configuration always.
pub proof fn law_unaddressed_channels_keep_their_state(d: DispatcherState, frame: FrameView)
    requires
        d.wf(),
    ensures
        d.step(frame).wf(),
        d.step(frame).button_targets == d.button_targets,
        d.step(frame).calibration_button == d.calibration_button,
        d.step(frame).steering_axis == d.steering_axis,
        forall|i: int|
            frame.encoders.len() <= i < MAX_ENCODERS ==> d.step(frame).encoder_inputs[i]
                == d.encoder_inputs[i],
        forall|i: int|
            frame.buttons.len() <= i < MAX_BUTTONS ==> d.step(frame).button_inputs[i]
                == d.button_inputs[i],
{
}

impl View for Dispatcher {
    type V = DispatcherState;

    closed spec fn view(&self) -> DispatcherState {
        DispatcherState {
            encoder_inputs: Seq::new(4, |i: int| self.encoder_inputs@[i]@),
            button_inputs: Seq::new(6, |i: int| self.button_inputs@[i]@),
            button_targets: self.button_targets@,
            calibration_button: self.calibration_button,
            steering_axis: self.steering_axis,
            wheel_offset: self.wheel_offset,
        }
    }
}

impl Dispatcher {
    /// A dispatcher over the given rotary channels, with fresh button
    /// trackers and a zero offset of zero. Button `i` drives
    /// `button_targets[i]`, except for `calibration_button`, whose release
    /// sets the zero offset of `steering_axis`.
    pub fn new(
        encoder_inputs: [RotaryInput; 4],
        button_targets: [Event; 6],
        calibration_button: usize,
        steering_axis: Event,
    ) -> (dispatcher: Dispatcher)
        ensures
            dispatcher@ == (DispatcherState {
                encoder_inputs: Seq::new(4, |i: int| encoder_inputs@[i]@),
                button_inputs: Seq::new(6, |i: int| ButtonState::initial()),
                button_targets: button_targets@,
                calibration_button,
                steering_axis,
                wheel_offset: ZERO,
            }),
            dispatcher@.wf(),
    {
        let dispatcher = Dispatcher {
            encoder_inputs,
            button_inputs: [ButtonInput::default();6],
            button_targets,
            calibration_button,
            steering_axis,
            wheel_offset: ZERO,
        };
        assert(dispatcher@.button_inputs =~= Seq::new(6, |i: int| ButtonState::initial()));
        dispatcher
    }

    /// Bit pattern of the angle that counts as straight ahead.
    pub fn wheel_offset(&self) -> (bits: u32)
        ensures
            bits == self@.wheel_offset,
    {
        self.wheel_offset
    }

    /// Rotary channel `i` as it stands, if there is one.
    pub fn encoder_input(&self, i: usize) -> (channel: Option<RotaryInput>)
        ensures
            channel is Some <==> i < MAX_ENCODERS,
            channel is Some ==> channel->0@ == self@.encoder_inputs[i as int],
    {
        if i < MAX_ENCODERS {
            Some(self.encoder_inputs[i])
        } else {
            None
        }
    }

    /// Button tracker `i` as it stands, if there is one.
    pub fn button_input(&self, i: usize) -> (tracker: Option<ButtonInput>)
        ensures
            tracker is Some <==> i < MAX_BUTTONS,
            tracker is Some ==> tracker->0@ == self@.button_inputs[i as int],
    {
        if i < MAX_BUTTONS {
            Some(self.button_inputs[i])
        } else {
            None
        }
    }

    /// Applies one decoded frame: updates every channel that the frame
    /// addresses, recalibrates the steering axis if the frame releases the
    /// calibration button, and returns what is to be sent, in order.
    pub fn dispatch(&mut self, frame: &Frame) -> (events: Vec<SinkEvent>)
        ensures
            final(self)@ == old(self)@.step(frame@),
            events@ == old(self)@.report(frame@),
            final(self)@.wf(),
    {
        let ghost prev = self@;
        let mut events: Vec<SinkEvent> = Vec::new();
        let encoders = frame.encoders();
        let mut i: usize = 0;
        while i < encoders.len()
            invariant
                i <= encoders@.len() <= 4,
                encoders@ == frame@.encoders,
                prev == old(self)@,
                events@ == prev.encoder_events(frame@, i as nat),
                forall|j: int|
                    0 <= j < i ==> self.encoder_inputs@[j]@ == prev.encoder_inputs[j].step(
                        encoders@[j],
                    ),
                forall|j: int| i <= j < 4 ==> self.encoder_inputs@[j]@ == prev.encoder_inputs[j],
                self.button_inputs == old(self).button_inputs,
                self.button_targets == old(self).button_targets,
                self.calibration_button == old(self).calibration_button,
                self.steering_axis == old(self).steering_axis,
                self.wheel_offset == old(self).wheel_offset,
            decreases encoders.len() - i,
        {
            let event = self.encoder_inputs[i].update(encoders[i]);
            match event {
                Some(e) => {
                    events.push(e);
                },
                None => {},
            }
            assert(events@ =~= prev.encoder_events(frame@, (i + 1) as nat));
            i += 1;
        }
        let ghost from_encoders = events@;
        let buttons = frame.buttons();
        let angle: u32 = frame.angle();
        let mut b: usize = 0;
        assert(events@ =~= from_encoders + prev.button_events(frame@, 0));
        while b < buttons.len()
            invariant
                b <= buttons@.len() <= 6,
                buttons@ == frame@.buttons,
                angle == frame@.angle,
                prev == old(self)@,
                events@ == from_encoders + prev.button_events(frame@, b as nat),
                forall|j: int|
                    0 <= j < b ==> self.button_inputs@[j]@ == prev.button_inputs[j].step(
                        buttons@[j],
                    ),
                forall|j: int| b <= j < 6 ==> self.button_inputs@[j]@ == prev.button_inputs[j],
                self.wheel_offset == if prev.calibration_button < b && prev.calibrates(frame@) {
                    angle
                } else {
                    prev.wheel_offset
                },
                forall|j: int|
                    0 <= j < 4 ==> self.encoder_inputs@[j]@ == prev.encoders_after(frame@)[j],
                self.button_targets == old(self).button_targets,
                self.calibration_button == old(self).calibration_button,
                self.steering_axis == old(self).steering_axis,
            decreases buttons.len() - b,
        {
            self.button_inputs[b].update(buttons[b]);
            if b == self.calibration_button {
                if self.button_inputs[b].was_released() {
                    self.wheel_offset = angle;
                }
            } else {
                let pressed: bool = self.button_inputs[b].was_pressed();
                if pressed || self.button_inputs[b].was_released() {
                    events.push(
                        SinkEvent::Button {
                            control: self.button_targets[b],
                            value: if pressed { PRESS } else { RELEASE },
                        },
                    );
                }
            }
            assert(events@ =~= from_encoders + prev.button_events(frame@, (b + 1) as nat));
            b += 1;
        }
        events.push(
            SinkEvent::Steering { axis: self.steering_axis, angle, offset: self.wheel_offset },
        );
        events.push(SinkEvent::Synchronize);
        proof {
            assert(self@.encoder_inputs =~= prev.encoders_after(frame@));
            assert(self@.button_inputs =~= prev.buttons_after(frame@));
            assert(events@ =~= prev.report(frame@));
        }
        events
    }

    /// Runs one whole cycle over a stream that is already in memory: decodes
    /// the next frame from `bytes` and applies it. A cycle that yields no
    /// frame changes nothing and sends nothing. The number returned beside
    /// the result says how many bytes the cycle took.
    pub fn process(&mut self, bytes: &[u8]) -> (out: (Result<Vec<SinkEvent>, FrameError>, usize))
        ensures
            out.1 == decoding(bytes@).1,
            match decoding(bytes@).0 {
                Ok(frame) => {
                    &&& final(self)@ == old(self)@.step(frame)
                    &&& out.0 matches Ok(events) && events@ == old(self)@.report(frame)
                },
                Err(error) => {
                    &&& final(self)@ == old(self)@
                    &&& out.0 matches Err(e) && e == error
                },
            },
    {
        let (result, taken) = decode(bytes);
        match result {
            Ok(frame) => (Ok(self.dispatch(&frame)), taken),
            Err(error) => (Err(error), taken),
        }
    }
}

} // verus!
