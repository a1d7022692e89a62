//! The state of a sequence output as mathematics, and one tick of it.
use vstd::prelude::*;

use crate::Repeat;

verus! {

/// Whether bit `position` of `states` is set.
pub open spec fn bit_at(states: u128, position: int) -> bool {
    (states >> (position as u128)) & 1u128 == 1u128
}

/// The first `len` bits of `states`, least significant first.
pub open spec fn bits_of(states: u128, len: int) -> Seq<bool> {
    Seq::new(len as nat, |i: int| bit_at(states, i))
}

/// What a sequence output holds: its pattern, the ticks per state, the
/// repeats left, and how far the current playthrough has come.
pub struct SequenceModel {
    /// Ticks per state.
    pub scale: nat,
    /// The states, in the order in which they are emitted.
    pub pattern: Seq<bool>,
    /// The playthroughs that follow the current one.
    pub repeat: Repeat,
    /// Ticks since the last state change.
    pub scale_index: nat,
    /// Index of the next state to emit.
    pub state_index: nat,
    /// Whether a playthrough is in progress or about to start.
    pub running: bool,
}

impl Repeat {
    /// The repeat setting once another playthrough has been used up.
    pub open spec fn consumed(self) -> Repeat {
        match self {
            Repeat::Times(n) => if n > 0 {
                Repeat::Times((n - 1) as u16)
            } else {
                Repeat::Never
            },
            other => other,
        }
    }

    /// Whether this setting asks for another playthrough.
    pub open spec fn replays(self) -> bool {
        !(self is Never)
    }
}

impl SequenceModel {
    /// The bounds that every reachable state keeps.
    pub open spec fn valid(self) -> bool {
        &&& 1 <= self.pattern.len() <= 127
        &&& 1 <= self.scale <= u16::MAX
        &&& self.scale_index < self.scale
        &&& self.state_index < self.pattern.len()
        &&& !self.running ==> self.repeat is Never && self.state_index == 0
    }

    /// Whether a playthrough is about to start at its first state.
    pub open spec fn is_fresh(self) -> bool {
        self.scale_index == 0 && self.state_index == 0 && self.running
    }

    /// Ticks that one playthrough takes.
    pub open spec fn playthrough_ticks(self) -> nat {
        self.pattern.len() * self.scale
    }
}

/// A fresh playthrough of `pattern` at `scale` ticks per state.
pub open spec fn start(scale: nat, pattern: Seq<bool>, repeat: Repeat) -> SequenceModel {
    SequenceModel { scale, pattern, repeat, scale_index: 0, state_index: 0, running: true }
}

/// The state after the repeat setting has been consulted at the end of a
/// playthrough.
pub open spec fn finish_playthrough(m: SequenceModel) -> SequenceModel {
    SequenceModel {
        scale: m.scale,
        pattern: m.pattern,
        repeat: m.repeat.consumed(),
        scale_index: 0,
        state_index: 0,
        running: m.repeat.consumed().replays(),
    }
}

/// One tick: the next state, and the level the line is driven to, if any.
///
/// A tick that does not complete `scale` ticks only counts. Otherwise, in a
/// running playthrough, the next state of the pattern is emitted; once the
/// last one is, or when nothing runs, the repeat setting is used up.
pub open spec fn tick(m: SequenceModel) -> (SequenceModel, Option<bool>) {
    if m.scale_index + 1 < m.scale {
        (
            SequenceModel {
                scale: m.scale,
                pattern: m.pattern,
                repeat: m.repeat,
                scale_index: m.scale_index + 1,
                state_index: m.state_index,
                running: m.running,
            },
            None,
        )
    } else if !m.running {
        (finish_playthrough(m), None)
    } else if m.state_index + 1 == m.pattern.len() {
        (finish_playthrough(m), Some(m.pattern[m.state_index as int]))
    } else {
        (
            SequenceModel {
                scale: m.scale,
                pattern: m.pattern,
                repeat: m.repeat,
                scale_index: 0,
                state_index: m.state_index + 1,
                running: true,
            },
            Some(m.pattern[m.state_index as int]),
        )
    }
}

/// Whether the whole run is over after the tick from `m`: what `update`
/// returns.
pub open spec fn complete_after(m: SequenceModel) -> bool {
    !tick(m).0.running
}

/// The state after `k` ticks.
pub open spec fn run(m: SequenceModel, k: nat) -> SequenceModel
    decreases k,
{
    if k == 0 {
        m
    } else {
        tick(run(m, (k - 1) as nat)).0
    }
}

/// The level that tick number `k` (counted from 0) drives the line to.
pub open spec fn level_at(m: SequenceModel, k: nat) -> Option<bool> {
    tick(run(m, k)).1
}

/// Whether `update` reports the run complete at tick number `k`.
pub open spec fn complete_at(m: SequenceModel, k: nat) -> bool {
    complete_after(run(m, k))
}

/// The levels that the first `k` ticks drive the line to, in order.
pub open spec fn driven_levels(m: SequenceModel, k: nat) -> Seq<bool>
    decreases k,
{
    if k == 0 {
        Seq::empty()
    } else {
        driven_levels(m, (k - 1) as nat) + level_seq(level_at(m, (k - 1) as nat))
    }
}

/// The level written, as a sequence of zero or one elements.
pub open spec fn level_seq(level: Option<bool>) -> Seq<bool> {
    match level {
        Some(b) => seq![b],
        None => Seq::empty(),
    }
}

} // verus!
