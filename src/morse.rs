//! Morse code as a sequence of on/off states.
use vstd::prelude::*;
use vstd::string::StrSliceExecFns;

verus! {

/// Why a text cannot be turned into a sequence of states.
#[derive(Debug, Clone, Copy, PartialEq, Eq, Structural)]
pub enum MorseError {
    /// A character outside `A`-`Z`, `0`-`9` and space.
    UnsupportedCode,
    /// The states would not fit in 127 bits.
    SequenceTooLong,
}

/// The longest sequence of states that a pattern holds.
pub const MAX_SEQUENCE_LEN: u16 = 127;

/// The Morse code of a letter or digit: its units in order, `true` for a
/// dash and `false` for a dot.
pub open spec fn morse_units(c: char) -> Option<Seq<bool>> {
    match c {
        'A' => Some(seq![false, true]),
        'B' => Some(seq![true, false, false, false]),
        'C' => Some(seq![true, false, true, false]),
        'D' => Some(seq![true, false, false]),
        'E' => Some(seq![false]),
        'F' => Some(seq![false, false, true, false]),
        'G' => Some(seq![true, true, false]),
        'H' => Some(seq![false, false, false, false]),
        'I' => Some(seq![false, false]),
        'J' => Some(seq![false, true, true, true]),
        'K' => Some(seq![true, false, true]),
        'L' => Some(seq![false, true, false, false]),
        'M' => Some(seq![true, true]),
        'N' => Some(seq![true, false]),
        'O' => Some(seq![true, true, true]),
        'P' => Some(seq![false, true, true, false]),
        'Q' => Some(seq![true, true, false, true]),
        'R' => Some(seq![false, true, false]),
        'S' => Some(seq![false, false, false]),
        'T' => Some(seq![true]),
        'U' => Some(seq![false, false, true]),
        'V' => Some(seq![false, false, false, true]),
        'W' => Some(seq![false, true, true]),
        'X' => Some(seq![true, false, false, true]),
        'Y' => Some(seq![true, false, true, true]),
        'Z' => Some(seq![true, true, false, false]),
        '1' => Some(seq![false, true, true, true, true]),
        '2' => Some(seq![false, false, true, true, true]),
        '3' => Some(seq![false, false, false, true, true]),
        '4' => Some(seq![false, false, false, false, true]),
        '5' => Some(seq![false, false, false, false, false]),
        '6' => Some(seq![true, false, false, false, false]),
        '7' => Some(seq![true, true, false, false, false]),
        '8' => Some(seq![true, true, true, false, false]),
        '9' => Some(seq![true, true, true, true, false]),
        '0' => Some(seq![true, true, true, true, true]),
        _ => None,
    }
}

/// The states of units `k..` of `units`, as a number whose bit 0 is the
/// first state: a dot is `on, off`, a dash is `on, on, on, off`.
pub open spec fn units_value(units: Seq<bool>, k: int) -> int
    decreases units.len() - k,
{
    if k < 0 || k >= units.len() {
        0
    } else if units[k] {
        0b0111 + 16 * units_value(units, k + 1)
    } else {
        0b01 + 4 * units_value(units, k + 1)
    }
}

/// How many states units `k..` of `units` take.
pub open spec fn units_len(units: Seq<bool>, k: int) -> int
    decreases units.len() - k,
{
    if k < 0 || k >= units.len() {
        0
    } else if units[k] {
        4 + units_len(units, k + 1)
    } else {
        2 + units_len(units, k + 1)
    }
}

/// Units `k..` take between two and four states each.
proof fn lemma_units_len_bounds(units: Seq<bool>, k: int)
    requires
        0 <= k <= units.len(),
    ensures
        2 * (units.len() - k) <= units_len(units, k) <= 4 * (units.len() - k),
    decreases units.len() - k,
{
    if k < units.len() {
        lemma_units_len_bounds(units, k + 1);
    }
}

/// Every template has at least two and at most 22 states.
pub proof fn lemma_template_len(c: char)
    ensures
        morse_template(c) matches Some((_, len)) ==> 2 <= len <= 22,
{
    if c != ' ' {
        if let Some(units) = morse_units(c) {
            lemma_units_len_bounds(units, 0);
            assert(units.len() <= 5);
        }
    }
}

/// The template of one character: its states, first state in bit 0, and
/// how many there are. The units of a letter or digit are followed by two
/// `off` states; a space is four `off` states.
pub open spec fn morse_template(c: char) -> Option<(u32, u16)> {
    if c == ' ' {
        Some((0, 4))
    } else {
        match morse_units(c) {
            Some(units) => Some((units_value(units, 0) as u32, (units_len(units, 0) + 2) as u16)),
            None => None,
        }
    }
}

/// The encoding of a text: each character's template is shifted above the
/// states gathered so far and or-ed into them. It fails at the first
/// character that has no template, or whose template would take the sequence
/// past `MAX_SEQUENCE_LEN` states.
pub open spec fn morse_encoding(s: Seq<char>) -> Result<(u128, u16), MorseError>
    decreases s.len(),
{
    if s.len() == 0 {
        Ok((0, 0))
    } else {
        match morse_encoding(s.drop_last()) {
            Err(e) => Err(e),
            Ok((sequence, len)) => match morse_template(s.last()) {
                None => Err(MorseError::UnsupportedCode),
                Some((code, code_len)) => if len + code_len > MAX_SEQUENCE_LEN {
                    Err(MorseError::SequenceTooLong)
                } else {
                    Ok((sequence | ((code as u128) << len), (len + code_len) as u16))
                },
            },
        }
    }
}

/// A successful encoding holds at most `MAX_SEQUENCE_LEN` states.
pub proof fn lemma_encoding_len(s: Seq<char>)
    ensures
        morse_encoding(s) matches Ok((_, len)) ==> len <= MAX_SEQUENCE_LEN,
        morse_encoding(s) matches Ok((_, len)) ==> (len == 0 <==> s.len() == 0),
    decreases s.len(),
{
    if s.len() > 0 {
        lemma_encoding_len(s.drop_last());
        lemma_template_len(s.last());
    }
}

/// An encoding fails as soon as a prefix of the text fails, with the same
/// error.
pub proof fn lemma_prefix_error(s: Seq<char>, k: int)
    requires
        0 <= k <= s.len(),
        morse_encoding(s.subrange(0, k)) is Err,
    ensures
        morse_encoding(s) == morse_encoding(s.subrange(0, k)),
    decreases s.len() - k,
{
    if k < s.len() {
        assert(s.subrange(0, k + 1).drop_last() == s.subrange(0, k));
        lemma_prefix_error(s, k + 1);
    } else {
        assert(s.subrange(0, k) == s);
    }
}

/// The template of one character, or `UnsupportedCode`.
pub fn char_to_morse(morse_character: char) -> (r: Result<(u32, u16), MorseError>)
    ensures
        r matches Ok(t) ==> morse_template(morse_character) == Some(t),
        r matches Ok((_, len)) ==> len <= 22,
        r is Err ==> morse_template(morse_character) is None && r == Err::<(u32, u16), MorseError>(
            MorseError::UnsupportedCode,
        ),
{
    proof {
        reveal_with_fuel(units_value, 6);
        reveal_with_fuel(units_len, 6);
    }
    match morse_character {
        'A' => Ok((0b_00_0111_01, 8)),
        'B' => Ok((0b_00_01_01_01_0111, 12)),
        'C' => Ok((0b_00_01_0111_01_0111, 14)),
        'D' => Ok((0b_00_01_01_0111, 10)),
        'E' => Ok((0b_00_01, 4)),
        'F' => Ok((0b_00_01_0111_01_01, 12)),
        'G' => Ok((0b_00_01_0111_0111, 12)),
        'H' => Ok((0b_00_01_01_01_01, 10)),
        'I' => Ok((0b_00_01_01, 6)),
        'J' => Ok((0b_00_0111_0111_0111_01, 16)),
        'K' => Ok((0b_00_0111_01_0111, 12)),
        'L' => Ok((0b_00_01_01_0111_01, 12)),
        'M' => Ok((0b_00_0111_0111, 10)),
        'N' => Ok((0b_00_01_0111, 8)),
        'O' => Ok((0b_00_0111_0111_0111, 14)),
        'P' => Ok((0b_00_01_0111_0111_01, 14)),
        'Q' => Ok((0b_00_0111_01_0111_0111, 16)),
        'R' => Ok((0b_00_01_0111_01, 10)),
        'S' => Ok((0b_00_01_01_01, 8)),
        'T' => Ok((0b_00_0111, 6)),
        'U' => Ok((0b_00_0111_01_01, 10)),
        'V' => Ok((0b_00_0111_01_01_01, 12)),
        'W' => Ok((0b_00_0111_0111_01, 12)),
        'X' => Ok((0b_00_0111_01_01_0111, 14)),
        'Y' => Ok((0b_00_0111_0111_01_0111, 16)),
        'Z' => Ok((0b_00_01_01_0111_0111, 14)),
        ' ' => Ok((0b_00_00, 4)),
        '1' => Ok((0b_00_0111_0111_0111_0111_01, 20)),
        '2' => Ok((0b_00_0111_0111_0111_01_01, 18)),
        '3' => Ok((0b_00_0111_0111_01_01_01, 16)),
        '4' => Ok((0b_00_0111_01_01_01_01, 14)),
        '5' => Ok((0b_00_01_01_01_01_01, 12)),
        '6' => Ok((0b_00_01_01_01_01_0111, 14)),
        '7' => Ok((0b_00_01_01_01_0111_0111, 16)),
        '8' => Ok((0b_00_01_01_0111_0111_0111, 18)),
        '9' => Ok((0b_00_01_0111_0111_0111_0111, 20)),
        '0' => Ok((0b_00_0111_0111_0111_0111_0111, 22)),
        _ => Err(MorseError::UnsupportedCode),
    }
}

/// Turns a text into a sequence of states and its length, as
/// `morse_encoding` describes.
pub fn str_to_morse(input: &str) -> (r: Result<(u128, u16), MorseError>)
    ensures
        r == morse_encoding(input@),
{
    let mut sequence: u128 = 0;
    let mut len: u16 = 0;
    let n: usize = input.unicode_len();
    let mut i: usize = 0;
    while i < n
        invariant
            n == input@.len(),
            0 <= i <= n,
            morse_encoding(input@.subrange(0, i as int)) == Ok::<(u128, u16), MorseError>((sequence, len)),
            len <= MAX_SEQUENCE_LEN,
        decreases n - i,
    {
        let c = input.get_char(i);
        let ghost prefix = input@.subrange(0, i as int);
        assert(input@.subrange(0, i + 1).drop_last() == prefix);
        let (char_code, char_len) = match char_to_morse(c) {
            Ok(t) => t,
            Err(e) => {
                proof {
                    lemma_prefix_error(input@, i + 1);
                }
                return Err(e);
            },
        };
        if len + char_len > MAX_SEQUENCE_LEN {
            proof {
                lemma_prefix_error(input@, i + 1);
            }
            return Err(MorseError::SequenceTooLong);
        }
        let code: u128 = char_code as u128;
        sequence = sequence | (code << len);
        len = len + char_len;
        i = i + 1;
    }
    assert(input@.subrange(0, n as int) == input@);
    Ok((sequence, len))
}

} // verus!
