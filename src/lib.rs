//! Output of a sequence of on/off states on a single binary line.
//!
//! A pattern of up to 127 states is emitted bit by bit, least significant bit
//! first, one state per `update_scale` calls of `update`, and may be repeated
//! a bounded or unbounded number of times. The `morse` module turns text into
//! such a pattern.
use vstd::prelude::*;

pub mod laws;
pub mod model;
pub mod morse;
pub mod prelude;

use crate::model::{bit_at, bits_of, level_seq, start, tick, SequenceModel};
use crate::morse::{lemma_encoding_len, morse_encoding, str_to_morse, MorseError};

verus! {

/// How often the output is played again after its first playthrough.
#[derive(Clone, Copy, Debug, PartialEq, Eq, Structural)]
pub enum Repeat {
    Never,
    Times(u16),
    Forever,
}

/// A binary output line that can be driven high or low; either may fail.
pub trait OutputLine {
    type Error;

    /// Drives the line high.
    fn set_high(&mut self) -> Result<(), Self::Error>;

    /// Drives the line low.
    fn set_low(&mut self) -> Result<(), Self::Error>;
}

/// Something that advances by one tick per call of `update`.
pub trait OutputUpdate {
    type Error;

    /// Advances by one tick. Returns whether no further update will change
    /// the output, or the error of a failed write to the line.
    fn update(&mut self) -> Result<bool, Self::Error>;
}

/// Whether bit `position` of `states` is set.
pub fn state_at_position(states: u128, position: u16) -> (r: bool)
    requires
        position < 128,
    ensures
        r == bit_at(states, position as int),
{
    let mask: u128 = 1u128 << position;
    let p: u128 = position as u128;
    assert((states & (1u128 << p) == 0) <==> ((states >> p) & 1u128 != 1u128)) by (bit_vector)
        requires
            p < 128,
    ;
    (states & mask) != 0
}

/// The pattern, its timing and the progress through it.
#[derive(Clone, Copy)]
struct SequenceState {
    update_scale: u16,
    repeat: Repeat,
    output_states: u128,
    number_of_output_states: u16,
    scale_index: u16,
    state_index: u16,
    run_output: bool,
}

impl SequenceState {
    spec fn model(self) -> SequenceModel {
        SequenceModel {
            scale: self.update_scale as nat,
            pattern: bits_of(self.output_states, self.number_of_output_states as int),
            repeat: self.repeat,
            scale_index: self.scale_index as nat,
            state_index: self.state_index as nat,
            running: self.run_output,
        }
    }

    #[verifier::type_invariant]
    spec fn wf(self) -> bool {
        &&& 1 <= self.number_of_output_states <= 127
        &&& self.update_scale >= 1
        &&& self.scale_index < self.update_scale
        &&& self.state_index < self.number_of_output_states
        &&& !self.run_output ==> self.repeat is Never && self.state_index == 0
    }

    fn fresh(update_scale: u16, output_states: u128, number_of_output_states: u16, repeat: Repeat) -> (r: Self)
        requires
            update_scale >= 1,
            1 <= number_of_output_states <= 127,
        ensures
            r.model().valid(),
            r.model() == start(update_scale as nat, bits_of(output_states, number_of_output_states as int), repeat),
    {
        SequenceState {
            update_scale,
            repeat,
            output_states,
            number_of_output_states,
            scale_index: 0,
            state_index: 0,
            run_output: true,
        }
    }

    /// One tick: the next state, and the level to drive the line to, if
    /// any.
    fn advance(self) -> (r: (Self, Option<bool>))
        ensures
            (r.0.model(), r.1) == tick(self.model()),
    {
        proof {
            use_type_invariant(&self);
        }
        let update_scale = self.update_scale;
        let output_states = self.output_states;
        let number_of_output_states = self.number_of_output_states;
        let mut repeat = self.repeat;
        let mut scale_index: u16 = self.scale_index + 1;
        let mut state_index: u16 = self.state_index;
        let mut run_output = self.run_output;
        let mut level: Option<bool> = None;
        if update_scale <= scale_index {
            scale_index = 0;
            if run_output {
                level = Some(state_at_position(output_states, state_index));
                state_index = state_index + 1;
                if state_index == number_of_output_states {
                    run_output = false;
                    state_index = 0;
                }
            }
            if !run_output {
                repeat = match repeat {
                    Repeat::Times(n) => if n > 0 {
                        Repeat::Times(n - 1)
                    } else {
                        Repeat::Never
                    },
                    other => other,
                };
                run_output = match repeat {
                    Repeat::Never => false,
                    _ => true,
                };
            }
        }
        let next = SequenceState {
            update_scale,
            repeat,
            output_states,
            number_of_output_states,
            scale_index,
            state_index,
            run_output,
        };
        (next, level)
    }
}

/// Drives an output line through a pattern of on/off states, one state per
/// `update_scale` calls of `update`.
pub struct OnOffSequenceOutput<T> {
    /// The output line.
    pub pin: T,
    state: SequenceState,
    driven: Ghost<Seq<bool>>,
}

impl<T> View for OnOffSequenceOutput<T> {
    type V = SequenceModel;

    closed spec fn view(&self) -> SequenceModel {
        self.state.model()
    }
}

impl<T> OnOffSequenceOutput<T> {
    /// The levels that the line has been driven to, in order, since the
    /// output was made.
    pub closed spec fn driven(self) -> Seq<bool> {
        self.driven@
    }

    /// The output line.
    pub closed spec fn line(self) -> T {
        self.pin
    }
}

impl<T: OutputLine> OnOffSequenceOutput<T> {
    /// A new output on `pin`, changing state every `update_scale` ticks,
    /// that blinks forever: on for one state, off for one.
    pub fn new(pin: T, update_scale: u16) -> (r: Self)
        requires
            update_scale >= 1,
        ensures
            r@.valid(),
            r@ == start(update_scale as nat, seq![true, false], Repeat::Forever),
            r.line() == pin,
            r.driven() == Seq::<bool>::empty(),
    {
        let state = SequenceState::fresh(update_scale, 0b01, 2, Repeat::Forever);
        proof {
            assert(bit_at(1u128, 0)) by (bit_vector);
            assert(!bit_at(1u128, 1)) by (bit_vector);
            assert(state.model().pattern =~= seq![true, false]);
        }
        OnOffSequenceOutput { pin, state, driven: Ghost(Seq::empty()) }
    }

    /// Replaces the pattern with the first `number_of_output_states` bits of
    /// `output_states`, least significant first, and the repeat setting, and
    /// starts a fresh playthrough.
    pub fn set(&mut self, output_states: u128, number_of_output_states: u16, repeat: Repeat)
        requires
            1 <= number_of_output_states <= 127,
        ensures
            final(self)@.valid(),
            final(self)@ == start(
                old(self)@.scale,
                bits_of(output_states, number_of_output_states as int),
                repeat,
            ),
            final(self).line() == old(self).line(),
            final(self).driven() == old(self).driven(),
    {
        proof {
            use_type_invariant(&self.state);
        }
        self.state = SequenceState::fresh(
            self.state.update_scale,
            output_states,
            number_of_output_states,
            repeat,
        );
    }

    /// Encodes `input` as Morse code and sets it as the pattern; on an
    /// encoding error nothing changes.
    pub fn set_morse(&mut self, input: &str, repeat: Repeat) -> (r: Result<(), MorseError>)
        requires
            input@.len() > 0,
        ensures
            final(self)@.valid(),
            match morse_encoding(input@) {
                Ok((states, len)) => r is Ok && final(self)@ == start(
                    old(self)@.scale,
                    bits_of(states, len as int),
                    repeat,
                ) && final(self).line() == old(self).line() && final(self).driven() == old(
                    self,
                ).driven(),
                Err(e) => r == Err::<(), MorseError>(e) && *final(self) == *old(self),
            },
    {
        proof {
            use_type_invariant(&self.state);
        }
        match str_to_morse(input) {
            Ok((states, len)) => {
                proof {
                    lemma_encoding_len(input@);
                }
                self.set(states, len, repeat);
                Ok(())
            },
            Err(e) => Err(e),
        }
    }

    /// Advances by one tick, as `tick` describes, and drives the line to the
    /// level that the tick emits. Returns whether the whole run is complete,
    /// or the line's error; the state has advanced either way.
    pub fn update(&mut self) -> (r: Result<bool, T::Error>)
        ensures
            final(self)@.valid(),
            final(self)@ == tick(old(self)@).0,
            match r {
                Ok(done) => done == !final(self)@.running && final(self).driven() == old(
                    self,
                ).driven() + level_seq(tick(old(self)@).1),
                Err(_) => tick(old(self)@).1 is Some && final(self).driven() == old(
                    self,
                ).driven(),
            },
    {
        proof {
            use_type_invariant(&self.state);
        }
        let (state, level) = self.state.advance();
        proof {
            use_type_invariant(&state);
        }
        self.state = state;
        match level {
            Some(true) => {
                match self.pin.set_high() {
                    Ok(()) => {},
                    Err(e) => {
                        return Err(e);
                    },
                }
                self.driven = Ghost(self.driven@.push(true));
            },
            Some(false) => {
                match self.pin.set_low() {
                    Ok(()) => {},
                    Err(e) => {
                        return Err(e);
                    },
                }
                self.driven = Ghost(self.driven@.push(false));
            },
            None => {},
        }
        Ok(!self.state.run_output)
    }
}

impl<T: OutputLine> OutputUpdate for OnOffSequenceOutput<T> {
    type Error = T::Error;

    fn update(&mut self) -> Result<bool, T::Error> {
        OnOffSequenceOutput::update(self)
    }
}

} // verus!
