//! A single character driven by a 28BYJ-48 motor in full-step mode, the display's first
//! design.
use vstd::prelude::*;

use crate::drum::{
    ascii_lower, forward_distance, forward_steps, lemma_increasing, ResetStep, FLAP_COUNT,
};

verus! {

/// Full steps of the 28BYJ-48 motor in one revolution of the drum.
pub const CHARACTER_STEPS_PER_REV: i32 = 2048;

/// Motor speed, in revolutions per minute, while the drum searches for home.
pub const CHARACTER_HOMING_SPEED: u32 = 10;

/// Steps from the point where the Hall sensor sees the magnet to the blank flap.
pub const CHARACTER_HOME_OFFSET: i32 = 140;

/// Motor position, in full steps from home, at which each flap is shown.
pub open spec fn character_flap_positions() -> Seq<i32> {
    seq![
        0i32, 56, 111, 167, 222, 277, 333, 388, 443, 499, 554, 609, 665, 720, 775, 831, 886, 941,
        997, 1052, 1108, 1163, 1218, 1274, 1329, 1384, 1440, 1495, 1550, 1606, 1661, 1716, 1772,
        1827, 1882, 1938, 1993,
    ]
}

/// The flap that shows byte `c`: flap 0 is blank (space), flaps 1 to 26 the letters
/// in either case, flap 28 the digit zero. Other bytes, the other digits among them,
/// have no flap.
pub open spec fn character_flap(c: u8) -> Option<int> {
    if c == 32 {
        Some(0)
    } else if 65 <= c <= 90 {
        Some(c - 65 + 1)
    } else if 97 <= c <= 122 {
        Some(c - 97 + 1)
    } else if c == 48 {
        Some(28)
    } else {
        None
    }
}

/// Motor position at which byte `c` is shown.
pub open spec fn character_char_position(c: u8) -> i32
    recommends
        character_flap(c) is Some,
{
    character_flap_positions()[character_flap(c).unwrap()]
}

/// A single character: a drum of flaps turned by a stepper motor.
///
/// It keeps track of where its drum stands, so that a character can be shown by turning
/// the drum forward from wherever it is.
#[derive(Clone, Copy)]
pub struct Character {
    position: i32,
    char_pos: [i32; FLAP_COUNT],
}

impl Character {
    /// Current motor position of the drum, in full steps past home.
    pub closed spec fn pos(&self) -> int {
        self.position as int
    }

    /// The character is well formed: its flap table is the drum's and its position lies
    /// within one revolution.
    pub closed spec fn wf(&self) -> bool {
        &&& self.char_pos@ == character_flap_positions()
        &&& 0 <= self.position < CHARACTER_STEPS_PER_REV
    }

    /// Creates a character whose drum stands at home.
    pub fn new() -> (m: Character)
        ensures
            m.wf(),
            m.pos() == 0,
    {
        Character {
            position: 0,
            char_pos: [
                0, 56, 111, 167, 222, 277, 333, 388, 443, 499, 554, 609, 665, 720, 775, 831, 886,
                941, 997, 1052, 1108, 1163, 1218, 1274, 1329, 1384, 1440, 1495, 1550, 1606, 1661,
                1716, 1772, 1827, 1882, 1938, 1993,
            ],
        }
    }

    /// Current motor position of the drum.
    pub fn position(&self) -> (p: i32)
        ensures
            p == self.pos(),
    {
        self.position
    }

    /// The flap that shows byte `c`, if the drum has one.
    pub fn flap_number(c: u8) -> (flap: Option<usize>)
        ensures
            match flap {
                Some(f) => character_flap(c) == Some(f as int),
                None => character_flap(c) is None,
            },
    {
        if c == 32 {
            Some(0)
        } else if 65 <= c && c <= 90 {
            Some((c - 65 + 1) as usize)
        } else if 97 <= c && c <= 122 {
            Some((c - 97 + 1) as usize)
        } else if c == 48 {
            Some(28)
        } else {
            None
        }
    }

    /// Turns the drum forward to motor position `pos`; returns the steps to make.
    fn goto(&mut self, pos: i32) -> (steps: i32)
        requires
            old(self).wf(),
            0 <= pos < CHARACTER_STEPS_PER_REV,
        ensures
            final(self).wf(),
            final(self).pos() == pos,
            steps == forward_steps(old(self).pos(), pos as int, CHARACTER_STEPS_PER_REV as int),
    {
        let distance: i32 = forward_distance(self.position, pos, CHARACTER_STEPS_PER_REV);
        self.position = pos;
        distance
    }

    /// Shows byte `c`: turns the drum forward to the flap that carries it.
    ///
    /// Returns how many steps the motor has to make. Available are the latin letters in
    /// either case, the digit zero, and the space, which shows the blank flap.
    pub fn print_char(&mut self, c: u8) -> (steps: i32)
        requires
            old(self).wf(),
            character_flap(c) is Some,
        ensures
            final(self).wf(),
            final(self).pos() == character_char_position(c),
            steps == forward_steps(old(self).pos(), final(self).pos(), CHARACTER_STEPS_PER_REV as int),
    {
        proof {
            lemma_character_flap_positions();
        }
        let flap = Self::flap_number(c).unwrap();
        let target = self.char_pos[flap];
        self.goto(target)
    }

    /// One decision of the homing sequence, given what the Hall sensor reads.
    ///
    /// While the sensor reads high the drum is stepped forward one step at a time, at
    /// `CHARACTER_HOMING_SPEED`; once it reads low the drum is stepped
    /// `CHARACTER_HOME_OFFSET` further and stands at home.
    pub fn reset(&mut self, hall_is_high: bool) -> (step: ResetStep)
        requires
            old(self).wf(),
        ensures
            final(self).wf(),
            hall_is_high ==> step == ResetStep::Seek(1) && *final(self) == *old(self),
            !hall_is_high ==> step == ResetStep::Home(CHARACTER_HOME_OFFSET) && final(self).pos() == 0,
    {
        if hall_is_high {
            ResetStep::Seek(1)
        } else {
            self.position = 0;
            ResetStep::Home(CHARACTER_HOME_OFFSET)
        }
    }

    /// Two well-formed characters whose drums stand at the same position are the same.
    pub proof fn lemma_determined_by_position(a: Character, b: Character)
        requires
            a.wf(),
            b.wf(),
            a.pos() == b.pos(),
        ensures
            a == b,
    {
        assert(a.char_pos =~= b.char_pos);
    }

    /// The drum of a well-formed character stands within one revolution.
    pub proof fn lemma_position_in_range(m: Character)
        requires
            m.wf(),
        ensures
            0 <= m.pos() < CHARACTER_STEPS_PER_REV,
    {
    }
}

/// The flap table of the drum: 37 positions, increasing, within one revolution, the
/// first at home.
pub proof fn lemma_character_flap_positions()
    ensures
        character_flap_positions().len() == 37,
        character_flap_positions()[0] == 0,
        character_flap_positions()[36] < CHARACTER_STEPS_PER_REV,
        forall|i: int, j: int|
            0 <= i < j < 37 ==> character_flap_positions()[i] < character_flap_positions()[j],
        forall|i: int|
            0 <= i < 37 ==> 0 <= #[trigger] character_flap_positions()[i] < CHARACTER_STEPS_PER_REV,
{
    let t = character_flap_positions();
    assert forall|i: int| 0 <= i < t.len() - 1 implies #[trigger] t[i] < t[i + 1] by {}
    lemma_increasing(t);
    assert forall|i: int| 0 <= i < 37 implies 0 <= #[trigger] t[i] < CHARACTER_STEPS_PER_REV by {
        if i > 0 {
            assert(t[0] < t[i]);
        }
        if i < 36 {
            assert(t[i] < t[36]);
        }
    }
}

/// The flaps are spread evenly round the drum: flap `i` stands at `i` 37ths of a
/// revolution, rounded up to a whole step.
pub proof fn lemma_character_flaps_evenly_spaced()
    ensures
        forall|i: int|
            0 <= i < 37 ==> #[trigger] character_flap_positions()[i] == (i * CHARACTER_STEPS_PER_REV
                + 36) / 37,
{
    let t = character_flap_positions();
    assert forall|i: int| 0 <= i < 37 implies #[trigger] t[i] == (i * CHARACTER_STEPS_PER_REV + 36)
        / 37 by {}
}

/// What is printed on the flaps that show a byte, from flap 0 on: the blank, then the
/// alphabet from A to Z.
pub open spec fn character_drum_labels() -> Seq<u8> {
    // ' ', 'A' to 'Z'
    seq![
        32u8, 65, 66, 67, 68, 69, 70, 71, 72, 73, 74, 75, 76, 77, 78, 79, 80, 81, 82, 83, 84, 85,
        86, 87, 88, 89, 90,
    ]
}

/// Each byte is shown on the flap that carries it: the label of flap `i` (and, for a
/// letter, its lower case) has flap `i`, so showing it leaves the drum at the `i`-th
/// position of the flap table. In particular the letters take flaps 1 to 26 in
/// alphabetical order, consecutive letters on consecutive flaps, and the digit zero
/// flap 28. Only the space, the latin letters and the digit zero have a flap.
pub proof fn lemma_character_flaps_carry_their_labels()
    ensures
        forall|i: int|
            0 <= i < 27 ==> character_flap(#[trigger] character_drum_labels()[i]) == Some(i)
                && character_char_position(character_drum_labels()[i])
                == character_flap_positions()[i],
        forall|i: int|
            1 <= i <= 26 ==> character_flap((#[trigger] character_drum_labels()[i] + 32) as u8)
                == Some(i),
        character_flap(48) == Some(28int),
        forall|c: u8| 65 <= c <= 90 ==> #[trigger] character_flap(c) == Some(c - 65 + 1),
        forall|c: u8| 97 <= c <= 122 ==> #[trigger] character_flap(c) == Some(c - 97 + 1),
        forall|c: u8|
            65 <= c < 90 ==> #[trigger] character_flap((c + 1) as u8) == Some(
                character_flap(c).unwrap() + 1,
            ),
        forall|c: u8|
            (#[trigger] character_flap(c)) is Some ==> c == 32 || 65 <= c <= 90 || 97 <= c <= 122
                || c == 48,
        forall|c: u8|
            65 <= c <= 90 ==> #[trigger] character_char_position(c)
                == character_flap_positions()[c - 65 + 1],
        forall|c: u8|
            97 <= c <= 122 ==> #[trigger] character_char_position(c)
                == character_flap_positions()[c - 97 + 1],
        character_char_position(48) == character_flap_positions()[28],
{
    let l = character_drum_labels();
    assert forall|i: int| 0 <= i < 27 implies character_flap(#[trigger] l[i]) == Some(i) by {}
    assert forall|i: int| 1 <= i <= 26 implies character_flap((#[trigger] l[i] + 32) as u8)
        == Some(i) by {}
}

/// A letter shows the same flap in upper and in lower case.
pub proof fn lemma_character_letters_ignore_case(c: u8)
    requires
        65 <= c <= 90,
    ensures
        character_flap(c) is Some,
        character_flap(c) == character_flap(ascii_lower(c)),
{
}

/// Every byte that has a flap has one of the 37 flaps, and bytes that differ other than
/// by the case of a letter show different flaps, at different motor positions.
pub proof fn lemma_character_flaps_distinct(a: u8, b: u8)
    requires
        character_flap(a) is Some,
        character_flap(b) is Some,
        ascii_lower(a) != ascii_lower(b),
    ensures
        0 <= character_flap(a).unwrap() < 37,
        character_flap(a) != character_flap(b),
        character_char_position(a) != character_char_position(b),
{
    lemma_character_flap_positions();
    let fa = character_flap(a).unwrap();
    let fb = character_flap(b).unwrap();
    if fa < fb {
        assert(character_flap_positions()[fa] < character_flap_positions()[fb]);
    } else if fb < fa {
        assert(character_flap_positions()[fb] < character_flap_positions()[fa]);
    }
}

} // verus!
