//! Edge detection for one discrete button.

use vstd::prelude::*;

verus! {

/// Press/release edge tracker for a single button.
#[derive(Debug, Clone, Copy)]
pub struct ButtonInput {
    last: bool,
    current: bool,
    was_pressed: bool,
    was_released: bool,
}

/// What a tracker holds, as plain values.
pub struct ButtonState {
    /// Raw level seen by the most recent update.
    pub last: bool,
    /// Raw level currently reported.
    pub current: bool,
    /// The most recent update saw the level rise.
    pub was_pressed: bool,
    /// The most recent update saw the level fall.
    pub was_released: bool,
}

impl ButtonState {
    /// The state of a tracker that has seen no input yet.
    pub open spec fn initial() -> ButtonState {
        ButtonState { last: false, current: false, was_pressed: false, was_released: false }
    }

    /// The state after one update with the raw level `raw`.
    pub open spec fn step(self, raw: bool) -> ButtonState {
        ButtonState {
            last: raw,
            current: raw,
            was_pressed: !self.last && raw,
            was_released: self.last && !raw,
        }
    }

    /// The state after one update for each level of `inputs`, in order.
    pub open spec fn run(self, inputs: Seq<bool>) -> ButtonState
        decreases inputs.len(),
    {
        if inputs.len() == 0 {
            self
        } else {
            self.run(inputs.drop_last()).step(inputs.last())
        }
    }

    /// The two edge flags exclude each other, and the two levels agree.
    pub open spec fn wf(self) -> bool {
        !(self.was_pressed && self.was_released) && self.current == self.last
    }
}

/// After any updates at all, the level that the tracker remembers is the one
/// it was given last.
pub proof fn lemma_run_remembers_last(s: ButtonState, inputs: Seq<bool>)
    requires
        inputs.len() > 0,
    ensures
        s.run(inputs).last == inputs.last(),
        s.run(inputs).current == inputs.last(),
{
}

/// Whatever the inputs, the two edge flags are never set together. A flag is
/// set exactly when the last input differs from the level before it in the
/// matching direction, so it lasts for one update only: the flags say nothing
/// of any earlier input.
pub proof fn law_edges_follow_last_transition(s: ButtonState, inputs: Seq<bool>)
    requires
        inputs.len() > 0,
    ensures
        ({
            let before = if inputs.len() == 1 {
                s.last
            } else {
                inputs[inputs.len() - 2]
            };
            let now = inputs.last();
            let after = s.run(inputs);
            &&& !(after.was_pressed && after.was_released)
            &&& after.was_pressed <==> !before && now
            &&& after.was_released <==> before && !now
            &&& after.wf()
        }),
{
    if inputs.len() > 1 {
        lemma_run_remembers_last(s, inputs.drop_last());
    } else {
        assert(s.run(inputs.drop_last()) == s);
    }
}

/// A tracker that starts fresh never has both edge flags set, whatever it
/// is fed, not even before the first update.
pub proof fn law_edges_exclude_each_other(inputs: Seq<bool>)
    ensures
        ButtonState::initial().run(inputs).wf(),
{
    if inputs.len() > 0 {
        law_edges_follow_last_transition(ButtonState::initial(), inputs);
    }
}

impl View for ButtonInput {
    type V = ButtonState;

    closed spec fn view(&self) -> ButtonState {
        ButtonState {
            last: self.last,
            current: self.current,
            was_pressed: self.was_pressed,
            was_released: self.was_released,
        }
    }
}

impl ButtonInput {
    #[verifier::type_invariant]
    pub open spec fn well_formed(&self) -> bool {
        self@.wf()
    }

    /// Feeds the raw level read in this cycle and recomputes both edge flags.
    pub fn update(&mut self, current: bool)
        ensures
            final(self)@ == old(self)@.step(current),
            final(self)@.wf(),
    {
        *self = ButtonInput {
            last: current,
            current,
            was_pressed: current != self.last && current,
            was_released: current != self.last && !current,
        };
    }

    /// The raw level given to the most recent update.
    pub fn current(&self) -> (level: bool)
        ensures
            level == self@.current,
            self@.wf(),
    {
        proof {
            use_type_invariant(self);
        }
        self.current
    }

    /// Whether the most recent update saw a release edge.
    pub fn was_released(&self) -> (edge: bool)
        ensures
            edge == self@.was_released,
            self@.wf(),
    {
        proof {
            use_type_invariant(self);
        }
        self.was_released
    }

    /// Whether the most recent update saw a press edge.
    pub fn was_pressed(&self) -> (edge: bool)
        ensures
            edge == self@.was_pressed,
            self@.wf(),
    {
        proof {
            use_type_invariant(self);
        }
        self.was_pressed
    }
}

impl Default for ButtonInput {
    fn default() -> (tracker: ButtonInput)
        ensures
            tracker@ == ButtonState::initial(),
    {
        ButtonInput { last: false, current: false, was_pressed: false, was_released: false }
    }
}

} // verus!
