//! A display module driven by a 28BYJ-48 motor in half-step mode.
use vstd::prelude::*;

use crate::drum::{
    ascii_lower, forward_distance, forward_steps, lemma_increasing, lemma_walk_steps_are_forward_moves,
    lemma_walk_total, total,
    walk_end, walk_steps, ResetStep, FLAP_COUNT,
};

verus! {

/// Half steps of the 28BYJ-48 motor in one revolution of the drum.
pub const MODULE_STEPS_PER_REV: i32 = 4096;

/// Delay between two motor steps, in milliseconds: as fast as the motor goes.
pub const MODULE_MOTOR_DELAY_MS: u32 = 1;

/// Steps from the point where the Hall sensor sees the magnet to the blank flap.
pub const MODULE_HOME_OFFSET: i32 = 280;

/// Milliseconds a letter stays shown before the next letter of a text is shown.
pub const LETTER_INTERVAL_MS: u64 = 500;

/// Motor position, in half steps from home, at which each flap is shown.
pub open spec fn module_flap_positions() -> Seq<i32> {
    seq![
        0i32, 111, 221, 332, 443, 554, 664, 775, 886, 996, 1107, 1218, 1328, 1439, 1550, 1661,
        1771, 1882, 1993, 2103, 2214, 2325, 2435, 2546, 2657, 2768, 2878, 2989, 3100, 3210, 3321,
        3432, 3542, 3653, 3764, 3875, 3985,
    ]
}

/// The flap that shows byte `c`: flap 0 is blank (space), flaps 1 to 26 the letters
/// in either case, flaps 27 to 36 the digits. Other bytes have no flap.
pub open spec fn module_flap(c: u8) -> Option<int> {
    if c == 32 {
        Some(0)
    } else if 65 <= c <= 90 {
        Some(c - 65 + 1)
    } else if 97 <= c <= 122 {
        Some(c - 97 + 1)
    } else if 48 <= c <= 57 {
        Some(c - 48 + 27)
    } else {
        None
    }
}

/// Motor position at which byte `c` is shown.
pub open spec fn module_char_position(c: u8) -> i32
    recommends
        module_flap(c) is Some,
{
    module_flap_positions()[module_flap(c).unwrap()]
}

/// One module of the display: a drum of flaps turned by a stepper motor.
///
/// The module keeps track of where its drum stands, so that a character can be shown
/// by turning the drum forward from wherever it is.
#[derive(Clone, Copy)]
pub struct Module {
    position: i32,
    char_pos: [i32; FLAP_COUNT],
}

impl Module {
    /// Current motor position of the drum, in half steps past home.
    pub closed spec fn pos(&self) -> int {
        self.position as int
    }

    /// The module is well formed: its flap table is the drum's and its position lies
    /// within one revolution.
    pub closed spec fn wf(&self) -> bool {
        &&& self.char_pos@ == module_flap_positions()
        &&& 0 <= self.position < MODULE_STEPS_PER_REV
    }

    /// Creates a module whose drum stands at home.
    pub fn new() -> (m: Module)
        ensures
            m.wf(),
            m.pos() == 0,
    {
        Module {
            position: 0,
            char_pos: [
                0, 111, 221, 332, 443, 554, 664, 775, 886, 996, 1107, 1218, 1328, 1439, 1550, 1661,
                1771, 1882, 1993, 2103, 2214, 2325, 2435, 2546, 2657, 2768, 2878, 2989, 3100, 3210,
                3321, 3432, 3542, 3653, 3764, 3875, 3985,
            ],
        }
    }

    /// Current motor position of the drum.
    pub fn position(&self) -> (p: i32)
        ensures
            p == self.pos(),
    {
        self.position
    }

    /// The flap that shows byte `c`, if the drum has one.
    pub fn flap_number(c: u8) -> (flap: Option<usize>)
        ensures
            match flap {
                Some(f) => module_flap(c) == Some(f as int),
                None => module_flap(c) is None,
            },
    {
        if c == 32 {
            Some(0)
        } else if 65 <= c && c <= 90 {
            Some((c - 65 + 1) as usize)
        } else if 97 <= c && c <= 122 {
            Some((c - 97 + 1) as usize)
        } else if 48 <= c && c <= 57 {
            Some((c - 48 + 27) as usize)
        } else {
            None
        }
    }

    /// Turns the drum forward to motor position `pos`; returns the steps to make.
    fn goto(&mut self, pos: i32) -> (steps: i32)
        requires
            old(self).wf(),
            0 <= pos < MODULE_STEPS_PER_REV,
        ensures
            final(self).wf(),
            final(self).pos() == pos,
            steps == forward_steps(old(self).pos(), pos as int, MODULE_STEPS_PER_REV as int),
    {
        let distance: i32 = forward_distance(self.position, pos, MODULE_STEPS_PER_REV);
        self.position = pos;
        distance
    }

    /// Shows byte `c`: turns the drum forward to the flap that carries it.
    ///
    /// Returns how many steps the motor has to make, at `MODULE_MOTOR_DELAY_MS` each.
    /// Available are the latin letters in either case, the digits, and the space, which
    /// shows the blank flap.
    pub fn print_char(&mut self, c: u8) -> (steps: i32)
        requires
            old(self).wf(),
            module_flap(c) is Some,
        ensures
            final(self).wf(),
            final(self).pos() == module_char_position(c),
            steps == forward_steps(old(self).pos(), final(self).pos(), MODULE_STEPS_PER_REV as int),
    {
        proof {
            lemma_module_flap_positions();
        }
        let flap = Self::flap_number(c).unwrap();
        let target = self.char_pos[flap];
        self.goto(target)
    }

    /// One decision of the homing sequence, given what the Hall sensor reads.
    ///
    /// While the sensor reads high the drum is stepped forward one step at a time; once
    /// it reads low the drum is stepped `MODULE_HOME_OFFSET` further and stands at home.
    pub fn reset(&mut self, hall_is_high: bool) -> (step: ResetStep)
        requires
            old(self).wf(),
        ensures
            final(self).wf(),
            hall_is_high ==> step == ResetStep::Seek(1) && *final(self) == *old(self),
            !hall_is_high ==> step == ResetStep::Home(MODULE_HOME_OFFSET) && final(self).pos() == 0,
    {
        if hall_is_high {
            ResetStep::Seek(1)
        } else {
            self.position = 0;
            ResetStep::Home(MODULE_HOME_OFFSET)
        }
    }

    /// Shows the bytes of `text` one after the other, each for `LETTER_INTERVAL_MS`.
    ///
    /// Returns, for each byte, the steps the motor makes to show it.
    pub fn print_text(&mut self, text: &[u8]) -> (steps: Vec<i32>)
        requires
            old(self).wf(),
            forall|i: int| 0 <= i < text@.len() ==> (module_flap(#[trigger] text@[i]) is Some),
        ensures
            final(self).wf(),
            steps@.map_values(|s: i32| s as int) == walk_steps(
                old(self).pos(),
                module_text_positions(text@),
                MODULE_STEPS_PER_REV as int,
            ),
            final(self).pos() == walk_end(old(self).pos(), module_text_positions(text@)),
            steps@.len() == text@.len(),
            text@.len() == 0 ==> *final(self) == *old(self),
            text@.len() > 0 ==> final(self).pos() == module_char_position(text@.last()),
            forall|i: int|
                0 <= i < text@.len() ==> {
                    let prev = if i == 0 {
                        old(self).pos()
                    } else {
                        module_char_position(text@[i - 1]) as int
                    };
                    &&& 0 <= #[trigger] steps@[i] < MODULE_STEPS_PER_REV
                    &&& (prev + steps@[i]) % (MODULE_STEPS_PER_REV as int) == module_char_position(
                        text@[i],
                    )
                    &&& (steps@[i] == 0 <==> prev == module_char_position(text@[i]))
                },
    {
        let ghost start = self.pos();
        let ghost targets = module_text_positions(text@);
        let mut steps: Vec<i32> = Vec::new();
        let mut i: usize = 0;
        while i < text.len()
            invariant
                self.wf(),
                i <= text@.len(),
                targets == module_text_positions(text@),
                forall|k: int| 0 <= k < text@.len() ==> (module_flap(#[trigger] text@[k]) is Some),
                steps@.map_values(|s: i32| s as int) == walk_steps(
                    start,
                    targets.take(i as int),
                    MODULE_STEPS_PER_REV as int,
                ),
                self.pos() == walk_end(start, targets.take(i as int)),
            decreases text@.len() - i,
        {
            let ghost old_steps = steps@.map_values(|s: i32| s as int);
            let d = self.print_char(text[i]);
            steps.push(d);
            proof {
                let w = walk_steps(start, targets.take(i + 1), MODULE_STEPS_PER_REV as int);
                assert(steps@.map_values(|s: i32| s as int) =~= old_steps.push(d as int));
                assert(targets[i as int] == module_char_position(text@[i as int]) as int);
                if i > 0 {
                    assert(targets.take(i as int).last() == targets[i - 1]);
                }
                assert(w[i as int] == d as int);
                assert(w =~= old_steps.push(d as int));
                assert(targets.take(i + 1).last() == targets[i as int]);
            }
            i = i + 1;
        }
        assert(targets.take(text@.len() as int) =~= targets);
        proof {
            if text@.len() == 0 {
                Self::lemma_determined_by_position(*self, *old(self));
            } else {
                assert(targets.last() == module_char_position(text@.last()) as int);
            }
            lemma_module_flap_positions();
            assert forall|k: int| 0 <= k < targets.len() implies 0 <= #[trigger] targets[k]
                < MODULE_STEPS_PER_REV by {
                assert(0 <= module_flap(text@[k]).unwrap() < 37);
            }
            lemma_walk_steps_are_forward_moves(start, targets, MODULE_STEPS_PER_REV as int);
            assert forall|k: int| 0 <= k < text@.len() implies {
                let prev = if k == 0 {
                    start
                } else {
                    module_char_position(text@[k - 1]) as int
                };
                &&& 0 <= #[trigger] steps@[k] < MODULE_STEPS_PER_REV
                &&& (prev + steps@[k]) % (MODULE_STEPS_PER_REV as int) == module_char_position(
                    text@[k],
                )
                &&& (steps@[k] == 0 <==> prev == module_char_position(text@[k]))
            } by {
                assert(steps@.map_values(|s: i32| s as int)[k] == steps@[k] as int);
                assert(targets[k] == module_char_position(text@[k]) as int);
                if k > 0 {
                    assert(targets[k - 1] == module_char_position(text@[k - 1]) as int);
                }
                assert(walk_steps(start, targets, MODULE_STEPS_PER_REV as int)[k] == steps@[k]);
            }
        }
        steps
    }

    /// Two well-formed modules whose drums stand at the same position are the same.
    pub proof fn lemma_determined_by_position(a: Module, b: Module)
        requires
            a.wf(),
            b.wf(),
            a.pos() == b.pos(),
        ensures
            a == b,
    {
        assert(a.char_pos =~= b.char_pos);
    }

    /// The drum of a well-formed module stands within one revolution.
    pub proof fn lemma_position_in_range(m: Module)
        requires
            m.wf(),
        ensures
            0 <= m.pos() < MODULE_STEPS_PER_REV,
    {
    }
}

/// Motor positions at which the bytes of `text` are shown, in order.
pub open spec fn module_text_positions(text: Seq<u8>) -> Seq<int> {
    text.map_values(|c: u8| module_char_position(c) as int)
}

/// The flap table of the drum: 37 positions, increasing, within one revolution, the
/// first at home.
pub proof fn lemma_module_flap_positions()
    ensures
        module_flap_positions().len() == 37,
        module_flap_positions()[0] == 0,
        module_flap_positions()[36] < MODULE_STEPS_PER_REV,
        forall|i: int, j: int|
            0 <= i < j < 37 ==> module_flap_positions()[i] < module_flap_positions()[j],
        forall|i: int|
            0 <= i < 37 ==> 0 <= #[trigger] module_flap_positions()[i] < MODULE_STEPS_PER_REV,
{
    let t = module_flap_positions();
    assert forall|i: int| 0 <= i < t.len() - 1 implies #[trigger] t[i] < t[i + 1] by {}
    lemma_increasing(t);
    assert forall|i: int| 0 <= i < 37 implies 0 <= #[trigger] t[i] < MODULE_STEPS_PER_REV by {
        if i > 0 {
            assert(t[0] < t[i]);
        }
        if i < 36 {
            assert(t[i] < t[36]);
        }
    }
}

/// The flaps are spread evenly round the drum: flap `i` stands at `i` 37ths of a
/// revolution, rounded to the nearest half step.
pub proof fn lemma_module_flaps_evenly_spaced()
    ensures
        forall|i: int|
            0 <= i < 37 ==> #[trigger] module_flap_positions()[i] == (2 * i * MODULE_STEPS_PER_REV
                + 37) / 74,
{
    let t = module_flap_positions();
    assert forall|i: int| 0 <= i < 37 implies #[trigger] t[i] == (2 * i * MODULE_STEPS_PER_REV + 37)
        / 74 by {}
}

/// What is printed on the flaps of the drum, from flap 0 on: the blank, the alphabet
/// from A to Z, then the digits from 0 to 9.
pub open spec fn module_drum_labels() -> Seq<u8> {
    // ' ', 'A' to 'Z', '0' to '9'
    seq![
        32u8, 65, 66, 67, 68, 69, 70, 71, 72, 73, 74, 75, 76, 77, 78, 79, 80, 81, 82, 83, 84, 85,
        86, 87, 88, 89, 90, 48, 49, 50, 51, 52, 53, 54, 55, 56, 57,
    ]
}

/// Each byte is shown on the flap that carries it: the label of flap `i` (and, for a
/// letter, its lower case) has flap `i`, so showing it leaves the drum at the `i`-th
/// position of the flap table. In particular the letters take flaps 1 to 26 in
/// alphabetical order and the digits flaps 27 to 36 in numerical order: consecutive
/// letters and consecutive digits sit on consecutive flaps. Only the space, the latin
/// letters and the digits have a flap.
pub proof fn lemma_module_flaps_carry_their_labels()
    ensures
        forall|i: int|
            0 <= i < 37 ==> module_flap(#[trigger] module_drum_labels()[i]) == Some(i)
                && module_char_position(module_drum_labels()[i]) == module_flap_positions()[i],
        forall|i: int|
            1 <= i <= 26 ==> module_flap((#[trigger] module_drum_labels()[i] + 32) as u8) == Some(i),
        forall|c: u8| 65 <= c <= 90 ==> #[trigger] module_flap(c) == Some(c - 65 + 1),
        forall|c: u8| 97 <= c <= 122 ==> #[trigger] module_flap(c) == Some(c - 97 + 1),
        forall|c: u8| 48 <= c <= 57 ==> #[trigger] module_flap(c) == Some(c - 48 + 27),
        forall|c: u8|
            65 <= c < 90 || 48 <= c < 57 ==> #[trigger] module_flap((c + 1) as u8) == Some(
                module_flap(c).unwrap() + 1,
            ),
        forall|c: u8|
            (#[trigger] module_flap(c)) is Some ==> c == 32 || 65 <= c <= 90 || 97 <= c <= 122 || 48
                <= c <= 57,
        forall|c: u8|
            65 <= c <= 90 ==> #[trigger] module_char_position(c) == module_flap_positions()[c - 65
                + 1],
        forall|c: u8|
            97 <= c <= 122 ==> #[trigger] module_char_position(c) == module_flap_positions()[c - 97
                + 1],
        forall|c: u8|
            48 <= c <= 57 ==> #[trigger] module_char_position(c) == module_flap_positions()[c - 48
                + 27],
{
    let l = module_drum_labels();
    assert forall|i: int| 0 <= i < 37 implies module_flap(#[trigger] l[i]) == Some(i) by {}
    assert forall|i: int| 1 <= i <= 26 implies module_flap((#[trigger] l[i] + 32) as u8) == Some(
        i,
    ) by {}
}

/// A letter shows the same flap in upper and in lower case.
pub proof fn lemma_module_letters_ignore_case(c: u8)
    requires
        65 <= c <= 90,
    ensures
        module_flap(c) is Some,
        module_flap(c) == module_flap(ascii_lower(c)),
{
}

/// Every byte that has a flap has one of the 37 flaps, and bytes that differ other than
/// by the case of a letter show different flaps, at different motor positions.
pub proof fn lemma_module_flaps_distinct(a: u8, b: u8)
    requires
        module_flap(a) is Some,
        module_flap(b) is Some,
        ascii_lower(a) != ascii_lower(b),
    ensures
        0 <= module_flap(a).unwrap() < 37,
        module_flap(a) != module_flap(b),
        module_char_position(a) != module_char_position(b),
{
    lemma_module_flap_positions();
    let fa = module_flap(a).unwrap();
    let fb = module_flap(b).unwrap();
    if fa < fb {
        assert(module_flap_positions()[fa] < module_flap_positions()[fb]);
    } else if fb < fa {
        assert(module_flap_positions()[fb] < module_flap_positions()[fa]);
    }
}

/// Showing a text makes the motor turn, in total, by the distance from where the drum
/// stood to where it ends, plus whole revolutions.
pub proof fn lemma_module_text_steps_total(m: Module, text: Seq<u8>)
    requires
        m.wf(),
        forall|i: int| 0 <= i < text.len() ==> (module_flap(#[trigger] text[i]) is Some),
    ensures
        (m.pos() + total(walk_steps(m.pos(), module_text_positions(text), MODULE_STEPS_PER_REV as int)))
            % (MODULE_STEPS_PER_REV as int) == walk_end(m.pos(), module_text_positions(text)),
{
    lemma_module_flap_positions();
    let targets = module_text_positions(text);
    assert forall|i: int| 0 <= i < targets.len() implies 0 <= #[trigger] targets[i] < MODULE_STEPS_PER_REV by {
        assert(0 <= module_flap(text[i]).unwrap() < 37);
    }
    lemma_walk_total(m.pos(), targets, MODULE_STEPS_PER_REV as int);
}

} // verus!
