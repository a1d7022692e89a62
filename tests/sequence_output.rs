use on_off_sequence_output::morse::MorseError;
use on_off_sequence_output::{state_at_position, OnOffSequenceOutput, OutputLine, OutputUpdate, Repeat};

#[derive(Debug)]
pub struct MockedOutputPinError;

fn set_bit(input: u128, bit: u16) -> u128 {
    let mask: u128 = 1_u128 << bit;
    input | mask
}

fn reset_bit(input: u128, bit: u16) -> u128 {
    let mask: u128 = !(1_u128 << bit);
    input & mask
}

#[test]
fn set_bit_test() {
    assert_eq!(0b11, set_bit(0b10, 0));
    assert_eq!(0b11, set_bit(0b01, 1));
}

#[test]
fn reset_bit_test() {
    assert_eq!(0b10, reset_bit(0b11, 0));
    assert_eq!(0b01, reset_bit(0b11, 1));
}

/// A line that records the levels it is driven to, and checks them when
/// it is dropped.
pub struct MockedOutputPin {
    collected_states: u128,
    collected_no_of_calls: u16,
    expected_states: u128,
    expected_no_of_calls: u16,
}

impl MockedOutputPin {
    pub fn expected(expected_no_of_calls: u16, expected_states: u128) -> Self {
        Self {
            collected_states: 0_u128,
            collected_no_of_calls: 0_u16,
            expected_states,
            expected_no_of_calls,
        }
    }
}

impl OutputLine for MockedOutputPin {
    type Error = MockedOutputPinError;

    fn set_high(&mut self) -> Result<(), MockedOutputPinError> {
        self.collected_states = set_bit(self.collected_states, self.collected_no_of_calls);
        self.collected_no_of_calls += 1;
        Ok(())
    }

    fn set_low(&mut self) -> Result<(), MockedOutputPinError> {
        self.collected_states = reset_bit(self.collected_states, self.collected_no_of_calls);
        self.collected_no_of_calls += 1;
        Ok(())
    }
}

impl Drop for MockedOutputPin {
    fn drop(&mut self) {
        assert_eq!(self.expected_no_of_calls, self.collected_no_of_calls);
        assert_eq!(self.expected_states, self.collected_states);
    }
}

#[test]
fn at_zero_pos() {
    assert!(!state_at_position(0b110, 0));
    assert!(state_at_position(0b101, 0));
}

#[test]
fn at_first_pos() {
    assert!(!state_at_position(0b101, 1));
    assert!(state_at_position(0b010, 1));
}
#[test]
fn max_first_pos() {
    assert!(!state_at_position(0, 127));
    assert!(state_at_position(!0, 127));
}

#[test]
fn no_update_at_scale_four() -> Result<(), MockedOutputPinError> {
    let pin_mock = MockedOutputPin::expected(0, 0b0_u128);
    let mut ledout = OnOffSequenceOutput::new(pin_mock, 4);
    for _index in 0..2 {
        ledout.update()?;
    }
    Ok(())
}

#[test]
fn one_update_at_scale_four() -> Result<(), MockedOutputPinError> {
    let pin_mock = MockedOutputPin::expected(1, 0b1_u128);
    let mut ledout = OnOffSequenceOutput::new(pin_mock, 4);
    ledout.set(0b1, 1, Repeat::Never);
    for _index in 0..4 {
        ledout.update()?;
    }
    Ok(())
}

#[test]
fn three_updates_at_scale_four() -> Result<(), MockedOutputPinError> {
    let pin_mock = MockedOutputPin::expected(3, 0b101_u128);
    let mut ledout = OnOffSequenceOutput::new(pin_mock, 4);
    ledout.set(0b101, 3, Repeat::Never);
    for _index in 0..12 {
        ledout.update()?;
    }
    Ok(())
}

#[test]
fn one_update_at_scale_one() -> Result<(), MockedOutputPinError> {
    let pin_mock = MockedOutputPin::expected(1, 0b1_u128);
    let mut ledout = OnOffSequenceOutput::new(pin_mock, 1);
    ledout.set(0b1, 1, Repeat::Never);
    ledout.update()?;
    Ok(())
}

#[test]
fn three_updates_at_scale_one() -> Result<(), MockedOutputPinError> {
    let pin_mock = MockedOutputPin::expected(3, 0b101_u128);
    let mut ledout = OnOffSequenceOutput::new(pin_mock, 1);
    ledout.set(0b101, 3, Repeat::Never);
    ledout.update()?;
    ledout.update()?;
    ledout.update()?;
    Ok(())
}

#[test]
fn constant_pattern_one() -> Result<(), MockedOutputPinError> {
    let pin_mock = MockedOutputPin::expected(1, 0b1_u128);
    let mut ledout = OnOffSequenceOutput::new(pin_mock, 1);
    ledout.set(0b1, 1, Repeat::Never);
    assert!(ledout.update()?);
    assert!(ledout.update()?);
    Ok(())
}

#[test]
fn constant_pattern_two() -> Result<(), MockedOutputPinError> {
    let pin_mock = MockedOutputPin::expected(2, 0b00_u128);
    let mut ledout = OnOffSequenceOutput::new(pin_mock, 1);
    ledout.set(0b00, 2, Repeat::Never);
    assert!(!ledout.update()?);
    assert!(ledout.update()?);
    assert!(ledout.update()?);
    Ok(())
}

#[test]
fn symmetric_pattern_one() -> Result<(), MockedOutputPinError> {
    let pin_mock = MockedOutputPin::expected(2, 0b10_u128);
    let mut ledout = OnOffSequenceOutput::new(pin_mock, 1);
    ledout.set(0b10, 2, Repeat::Never);
    assert!(!ledout.update()?);
    assert!(ledout.update()?);
    assert!(ledout.update()?);
    Ok(())
}

#[test]
fn symmetric_pattern_two() -> Result<(), MockedOutputPinError> {
    let pin_mock = MockedOutputPin::expected(4, 0b1001_u128);
    let mut ledout = OnOffSequenceOutput::new(pin_mock, 1);
    ledout.set(0b1001, 4, Repeat::Never);
    for _ in 1..4 {
        assert!(!ledout.update()?);
    }
    assert!(ledout.update()?);
    assert!(ledout.update()?);
    Ok(())
}

#[test]
fn some_complex_pattern() -> Result<(), MockedOutputPinError> {
    let pin_mock = MockedOutputPin::expected(12, 0b1111_0011_1001_u128);
    let mut ledout = OnOffSequenceOutput::new(pin_mock, 1);
    ledout.set(0b1111_0011_1001_u128, 12, Repeat::Never);
    for _ in 1..12 {
        assert!(!ledout.update()?);
    }
    assert!(ledout.update()?);
    assert!(ledout.update()?);
    Ok(())
}

#[test]
fn never() -> Result<(), MockedOutputPinError> {
    let pin_mock = MockedOutputPin::expected(2, 0b1_u128);
    let mut ledout = OnOffSequenceOutput::new(pin_mock, 1);
    ledout.set(0b1, 2, Repeat::Never);
    assert!(!ledout.update()?);
    assert!(ledout.update()?);
    assert!(ledout.update()?);
    Ok(())
}

#[test]
fn zero_times() -> Result<(), MockedOutputPinError> {
    let pin_mock = MockedOutputPin::expected(2, 0b1_u128);
    let mut ledout = OnOffSequenceOutput::new(pin_mock, 1);
    ledout.set(0b1, 2, Repeat::Times(0));
    assert!(!ledout.update()?);
    assert!(ledout.update()?);
    assert!(ledout.update()?);
    Ok(())
}

#[test]
fn one_time() -> Result<(), MockedOutputPinError> {
    let pin_mock = MockedOutputPin::expected(4, 0b101_u128);
    let mut ledout = OnOffSequenceOutput::new(pin_mock, 1);
    ledout.set(0b1, 2, Repeat::Times(1));
    for _ in 1..4 {
        assert!(!ledout.update()?);
    }
    assert!(ledout.update()?);
    assert!(ledout.update()?);
    Ok(())
}

#[test]
fn five_times() -> Result<(), MockedOutputPinError> {
    let pin_mock = MockedOutputPin::expected(12, 0b_0101_0101_0101_u128);
    let mut ledout = OnOffSequenceOutput::new(pin_mock, 1);
    ledout.set(0b1, 2, Repeat::Times(5));
    for _ in 1..12 {
        assert!(!ledout.update()?);
    }
    assert!(ledout.update()?);
    assert!(ledout.update()?);
    Ok(())
}

#[test]
fn forever() -> Result<(), MockedOutputPinError> {
    let pin_mock = MockedOutputPin::expected(6, 0b01_0101_u128);
    let mut ledout = OnOffSequenceOutput::new(pin_mock, 1);
    ledout.set(0b1, 2, Repeat::Forever);
    for _ in 1..=6 {
        assert!(!ledout.update()?);
    }
    Ok(())
}

/// A line that records every level it is driven to, and can be told to fail.
pub struct RecordingPin {
    pub levels: Vec<bool>,
    pub failing: bool,
}

impl RecordingPin {
    pub fn new() -> Self {
        RecordingPin { levels: Vec::new(), failing: false }
    }
}

impl OutputLine for RecordingPin {
    type Error = MockedOutputPinError;

    fn set_high(&mut self) -> Result<(), MockedOutputPinError> {
        if self.failing {
            return Err(MockedOutputPinError);
        }
        self.levels.push(true);
        Ok(())
    }

    fn set_low(&mut self) -> Result<(), MockedOutputPinError> {
        if self.failing {
            return Err(MockedOutputPinError);
        }
        self.levels.push(false);
        Ok(())
    }
}

/// Runs `ticks` updates; returns, per update, the number of levels driven
/// so far and whether the run was reported complete.
fn trace(out: &mut OnOffSequenceOutput<RecordingPin>, ticks: usize) -> Vec<(usize, bool)> {
    let mut r = Vec::new();
    for _ in 0..ticks {
        let done = out.update().unwrap();
        r.push((out.pin.levels.len(), done));
    }
    r
}

#[test]
fn scaled_playthrough_writes_each_state_once() {
    let mut out = OnOffSequenceOutput::new(RecordingPin::new(), 3);
    out.set(0b110, 3, Repeat::Never);
    let t = trace(&mut out, 9);
    // a state is written on every third call only
    let written: Vec<usize> = t.iter().map(|x| x.0).collect();
    assert_eq!(vec![0, 0, 1, 1, 1, 2, 2, 2, 3], written);
    // complete only at the last call of the playthrough
    let done: Vec<bool> = t.iter().map(|x| x.1).collect();
    assert_eq!(vec![false, false, false, false, false, false, false, false, true], done);
    assert_eq!(vec![false, true, true], out.pin.levels);
}

#[test]
fn scaled_playthrough_with_repeat_left_is_not_complete() {
    let mut out = OnOffSequenceOutput::new(RecordingPin::new(), 2);
    out.set(0b01, 2, Repeat::Times(1));
    let t = trace(&mut out, 8);
    let done: Vec<bool> = t.iter().map(|x| x.1).collect();
    assert_eq!(vec![false, false, false, false, false, false, false, true], done);
    assert_eq!(vec![true, false, true, false], out.pin.levels);
}

#[test]
fn never_stops_writing_after_one_playthrough() {
    let mut out = OnOffSequenceOutput::new(RecordingPin::new(), 2);
    out.set(0b1011, 4, Repeat::Never);
    let t = trace(&mut out, 40);
    assert!(t[..7].iter().all(|x| !x.1));
    assert!(t[7..].iter().all(|x| x.1));
    assert_eq!(vec![true, true, false, true], out.pin.levels);
}

#[test]
fn times_two_plays_three_times() {
    let mut out = OnOffSequenceOutput::new(RecordingPin::new(), 1);
    out.set(0b011, 3, Repeat::Times(2));
    let t = trace(&mut out, 30);
    assert!(t[..8].iter().all(|x| !x.1));
    assert!(t[8..].iter().all(|x| x.1));
    assert_eq!(vec![true, true, false, true, true, false, true, true, false], out.pin.levels);
}

#[test]
fn forever_never_completes() {
    let mut out = OnOffSequenceOutput::new(RecordingPin::new(), 2);
    out.set(0b01, 2, Repeat::Forever);
    let t = trace(&mut out, 200);
    assert!(t.iter().all(|x| !x.1));
    assert_eq!(100, out.pin.levels.len());
    for (i, level) in out.pin.levels.iter().enumerate() {
        assert_eq!(i % 2 == 0, *level);
    }
}

#[test]
fn unscaled_writes_every_call() {
    let mut out = OnOffSequenceOutput::new(RecordingPin::new(), 1);
    out.set(0b1_0010, 5, Repeat::Never);
    let t = trace(&mut out, 5);
    let written: Vec<usize> = t.iter().map(|x| x.0).collect();
    assert_eq!(vec![1, 2, 3, 4, 5], written);
    assert_eq!(vec![false, true, false, false, true], out.pin.levels);
}

#[test]
fn set_again_restarts_from_first_state() {
    let mut out = OnOffSequenceOutput::new(RecordingPin::new(), 2);
    out.set(0b0111, 4, Repeat::Never);
    trace(&mut out, 5);
    assert_eq!(vec![true, true], out.pin.levels);
    out.set(0b0111, 4, Repeat::Never);
    let t = trace(&mut out, 8);
    assert_eq!(vec![true, true, true, true, true, false], out.pin.levels);
    assert!(t[7].1);
    assert!(t[..7].iter().all(|x| !x.1));
}

#[test]
fn default_pattern_blinks_forever() {
    let mut out = OnOffSequenceOutput::new(RecordingPin::new(), 1);
    let t = trace(&mut out, 6);
    assert!(t.iter().all(|x| !x.1));
    assert_eq!(vec![true, false, true, false, true, false], out.pin.levels);
}

#[test]
fn stale_high_bits_are_not_emitted() {
    let mut out = OnOffSequenceOutput::new(RecordingPin::new(), 1);
    out.set(!0_u128 << 2 | 0b01, 2, Repeat::Never);
    trace(&mut out, 10);
    assert_eq!(vec![true, false], out.pin.levels);
}

#[test]
fn longest_pattern() {
    let mut out = OnOffSequenceOutput::new(RecordingPin::new(), 1);
    out.set(1_u128 << 126 | 1, 127, Repeat::Never);
    let t = trace(&mut out, 128);
    assert_eq!(127, out.pin.levels.len());
    assert!(out.pin.levels[0] && out.pin.levels[126]);
    assert!(out.pin.levels[1..126].iter().all(|l| !*l));
    assert!(!t[125].1 && t[126].1 && t[127].1);
}

#[test]
fn largest_scale() {
    let mut out = OnOffSequenceOutput::new(RecordingPin::new(), u16::MAX);
    out.set(0b1, 1, Repeat::Never);
    let t = trace(&mut out, u16::MAX as usize);
    assert_eq!(vec![true], out.pin.levels);
    assert!(t[..(u16::MAX as usize - 1)].iter().all(|x| !x.1));
    assert!(t[u16::MAX as usize - 1].1);
}

#[test]
fn failed_write_is_returned() {
    let mut out = OnOffSequenceOutput::new(RecordingPin::new(), 2);
    out.set(0b10, 2, Repeat::Never);
    out.pin.failing = true;
    // a counting tick writes nothing and cannot fail
    assert!(!out.update().unwrap());
    assert!(out.update().is_err());
    out.pin.failing = false;
    // the state advanced past the failed write
    trace(&mut out, 2);
    assert_eq!(vec![true], out.pin.levels);
}

#[test]
fn update_through_trait() {
    let mut out = OnOffSequenceOutput::new(RecordingPin::new(), 1);
    out.set(0b1, 1, Repeat::Never);
    assert!(OutputUpdate::update(&mut out).unwrap());
    assert_eq!(vec![true], out.pin.levels);
}

#[test]
fn set_morse_plays_encoding() {
    let mut out = OnOffSequenceOutput::new(RecordingPin::new(), 1);
    out.set_morse("ET", Repeat::Never).unwrap();
    let t = trace(&mut out, 10);
    assert_eq!(
        vec![true, false, false, false, true, true, true, false, false, false],
        out.pin.levels
    );
    assert!(t[9].1 && !t[8].1);
}

#[test]
fn set_morse_error_changes_nothing() {
    let mut out = OnOffSequenceOutput::new(RecordingPin::new(), 1);
    out.set(0b0011, 4, Repeat::Never);
    trace(&mut out, 1);
    assert_eq!(Err(MorseError::UnsupportedCode), out.set_morse("sos", Repeat::Forever));
    let long = "0".repeat(6);
    assert_eq!(Err(MorseError::SequenceTooLong), out.set_morse(&long, Repeat::Forever));
    let t = trace(&mut out, 4);
    assert_eq!(vec![true, true, false, false], out.pin.levels);
    assert!(t[2].1);
}
