//! Calibration, normalisation and emission policy of one rotary channel.

use vstd::prelude::*;
use uinput::Event;
use crate::binary32::{
    greater_than, not_equal, is_nan, scaled, gt, ne, lemma_zero_and_one, ONE, ZERO,
};
use crate::sink::{SinkEvent, PRESS, RELEASE};

verus! {

/// What a rotary channel drives. Thresholds are binary32 bit patterns.
#[derive(Debug, Clone, Copy, PartialEq, Eq)]
pub enum RotaryInputTarget {
    /// A button that goes down while the normalised reading is above
    /// `cross_value` and comes up when it is no longer above it.
    Button { button: Event, cross_value: u32 },
    /// An axis that follows the normalised reading, mirrored if `flip` is set.
    Axis { axis: Event, flip: bool },
}

/// One rotary channel: its target, its calibration baseline once latched, and
/// the normalised readings of the last two updates as binary32 bit patterns.
#[derive(Debug, Clone, Copy)]
pub struct RotaryInput {
    target: RotaryInputTarget,
    initial: Option<i16>,
    last: u32,
    current: u32,
}

/// What a rotary channel holds, as plain values.
pub struct RotaryState {
    /// The configured target.
    pub target: RotaryInputTarget,
    /// The calibration baseline; `None` until the first update.
    pub initial: Option<i16>,
    /// Normalised reading that the next update compares against.
    pub last: u32,
    /// Normalised reading of the most recent update.
    pub current: u32,
}

/// Distance of `raw` from `baseline`, saturated at one.
pub open spec fn normalized(raw: i16, baseline: i16) -> int {
    let delta = raw - baseline;
    let distance = if delta < 0 { -delta } else { delta };
    if distance < 1 { distance } else { 1 }
}

/// The binary32 bit pattern of a normalised reading, which is 0 or 1.
pub open spec fn unit_bits(n: int) -> u32 {
    if n == 0 { ZERO } else { ONE }
}

/// The position sent to an axis for the normalised reading `n`: `255 * n`,
/// counted from the other end if `flip` is set.
pub open spec fn axis_output(n: int, flip: bool) -> int {
    if flip { 255 - 255 * n } else { 255 * n }
}

impl RotaryState {
    /// The baseline in force for an update with the reading `input`: the
    /// latched one, or `input` itself on the first update.
    pub open spec fn baseline(self, input: i16) -> i16 {
        match self.initial {
            Some(b) => b,
            None => input,
        }
    }

    /// The normalised reading of an update with `input`, as a bit pattern.
    pub open spec fn reading(self, input: i16) -> u32 {
        unit_bits(normalized(input, self.baseline(input)))
    }

    /// The state after an update with the reading `input`.
    pub open spec fn step(self, input: i16) -> RotaryState {
        RotaryState {
            target: self.target,
            initial: Some(self.baseline(input)),
            last: self.reading(input),
            current: self.reading(input),
        }
    }

    /// What an update with the reading `input` emits.
    pub open spec fn emission(self, input: i16) -> Option<SinkEvent> {
        let n = normalized(input, self.baseline(input));
        let now = unit_bits(n);
        match self.target {
            RotaryInputTarget::Button { button, cross_value } => {
                let above = greater_than(now, cross_value);
                if above != greater_than(self.last, cross_value) {
                    Some(
                        SinkEvent::Button {
                            control: button,
                            value: if above { PRESS } else { RELEASE },
                        },
                    )
                } else {
                    None
                }
            },
            RotaryInputTarget::Axis { axis, flip } => {
                if not_equal(now, self.last) {
                    Some(SinkEvent::Axis { axis, value: axis_output(n, flip) as i32 })
                } else {
                    None
                }
            },
        }
    }
}

impl View for RotaryInput {
    type V = RotaryState;

    closed spec fn view(&self) -> RotaryState {
        RotaryState {
            target: self.target,
            initial: self.initial,
            last: self.last,
            current: self.current,
        }
    }
}

impl RotaryInput {
    /// A channel for `target` that has seen no reading yet. `default_position`
    /// is the bit pattern of the normalised reading that the first update is
    /// compared against.
    pub fn new(target: RotaryInputTarget, default_position: u32) -> (channel: RotaryInput)
        ensures
            channel@ == (RotaryState {
                target,
                initial: None,
                last: default_position,
                current: default_position,
            }),
    {
        RotaryInput { target, initial: None, last: default_position, current: default_position }
    }

    /// Feeds the raw reading of this cycle. The first reading becomes the
    /// baseline; the reading is normalised against the baseline, and the event
    /// that the target calls for, if any, is returned.
    pub fn update(&mut self, input: i16) -> (event: Option<SinkEvent>)
        ensures
            final(self)@ == old(self)@.step(input),
            event == old(self)@.emission(input),
    {
        let initial: i16 = match self.initial {
            Some(initial) => initial,
            None => {
                self.initial = Some(input);
                input
            },
        };
        let delta: i32 = input as i32 - initial as i32;
        let distance: i32 = if delta < 0 { -delta } else { delta };
        let normalized: i32 = if distance < 1 { distance } else { 1 };
        let current: u32 = if normalized == 0 { ZERO } else { ONE };
        self.current = current;
        let event = match self.target {
            RotaryInputTarget::Button { button, cross_value } => {
                let above = gt(current, cross_value);
                if above != gt(self.last, cross_value) {
                    Some(
                        SinkEvent::Button {
                            control: button,
                            value: if above { PRESS } else { RELEASE },
                        },
                    )
                } else {
                    None
                }
            },
            RotaryInputTarget::Axis { axis, flip } => {
                if ne(current, self.last) {
                    let mut value: i32 = 255 * normalized;
                    if flip {
                        value = 255 - value;
                    }
                    Some(SinkEvent::Axis { axis, value })
                } else {
                    None
                }
            },
        };
        self.last = current;
        event
    }

    /// Bit pattern of the normalised reading of the most recent update, or of
    /// the default position before the first one.
    pub fn get_cur(&self) -> (bits: u32)
        ensures
            bits == self@.current,
    {
        self.current
    }
}

/// A normalised reading is 0 or 1, so it lies in the unit interval, and an
/// axis position lies between 0 and 255.
pub proof fn law_normalized_range(raw: i16, baseline: i16, flip: bool)
    ensures
        normalized(raw, baseline) == 0 || normalized(raw, baseline) == 1,
        normalized(raw, baseline) == 0 <==> raw == baseline,
        scaled(ZERO) <= scaled(unit_bits(normalized(raw, baseline))) <= scaled(ONE),
        0 <= axis_output(normalized(raw, baseline), flip) <= 255,
{
    lemma_zero_and_one();
}

/// The baseline latches on the first update and never moves afterwards.
pub proof fn law_baseline_latches(s: RotaryState, first: i16, later: i16)
    ensures
        s.step(first).initial == Some(s.baseline(first)),
        s.initial is None ==> s.step(first).initial == Some(first),
        s.step(first).step(later).initial == s.step(first).initial,
        s.step(first).baseline(later) == s.baseline(first),
{
}

/// Axis emulation, over two updates in a row: the second one emits exactly
/// when its normalised reading differs from that of the first, and what it
/// emits is the axis position of its own reading.
pub proof fn law_axis_emits_on_change(
    s: RotaryState,
    axis: Event,
    flip: bool,
    first: i16,
    second: i16,
)
    requires
        s.target == (RotaryInputTarget::Axis { axis, flip }),
    ensures
        ({
            let b = s.baseline(first);
            let before = normalized(first, b);
            let now = normalized(second, b);
            &&& s.step(first).emission(second) is Some <==> now != before
            &&& now != before ==> s.step(first).emission(second) == Some(
                SinkEvent::Axis { axis, value: axis_output(now, flip) as i32 },
            )
        }),
{
    lemma_zero_and_one();
}

/// Button emulation, over two updates in a row with a threshold that is a
/// number: the second one emits exactly when the normalised reading crossed
/// the threshold, a press when it rose above it and a release when it fell
/// to or below it.
pub proof fn law_button_emits_on_crossing(
    s: RotaryState,
    button: Event,
    cross_value: u32,
    first: i16,
    second: i16,
)
    requires
        s.target == (RotaryInputTarget::Button { button, cross_value }),
        !is_nan(cross_value),
    ensures
        ({
            let b = s.baseline(first);
            let before = scaled(unit_bits(normalized(first, b)));
            let now = scaled(unit_bits(normalized(second, b)));
            let t = scaled(cross_value);
            let rose = before <= t && t < now;
            let fell = now <= t && t < before;
            &&& s.step(first).emission(second) is Some <==> rose || fell
            &&& rose ==> s.step(first).emission(second) == Some(
                SinkEvent::Button { control: button, value: PRESS },
            )
            &&& fell ==> s.step(first).emission(second) == Some(
                SinkEvent::Button { control: button, value: RELEASE },
            )
        }),
{
    lemma_zero_and_one();
}

/// A threshold that is a NaN is never crossed: no update emits.
pub proof fn law_button_nan_threshold_is_silent(
    s: RotaryState,
    button: Event,
    cross_value: u32,
    input: i16,
)
    requires
        s.target == (RotaryInputTarget::Button { button, cross_value }),
        is_nan(cross_value),
    ensures
        s.emission(input) is None,
{
}

} // verus!
