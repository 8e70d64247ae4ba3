//! A display made of several modules side by side.
use vstd::prelude::*;

use crate::drum::{forward_steps, ResetStep};
use crate::module::{module_char_position, module_flap, Module, MODULE_STEPS_PER_REV};

verus! {

/// Number of letters of `word` that a display of `modules` modules shows.
pub open spec fn shown_len(modules: int, word: Seq<u8>) -> int {
    if word.len() < modules {
        word.len() as int
    } else {
        modules
    }
}

/// A display shows as many letters of a word as it can: all of them when the word is no
/// longer than the display, otherwise one per module. That is, the number shown is the
/// smaller of the word's length and the number of modules.
pub proof fn lemma_shown_len_is_min(modules: int, word: Seq<u8>)
    requires
        0 <= modules,
    ensures
        shown_len(modules, word) <= word.len(),
        shown_len(modules, word) <= modules,
        shown_len(modules, word) == word.len() || shown_len(modules, word) == modules,
        word.len() <= modules ==> shown_len(modules, word) == word.len(),
        modules <= word.len() ==> shown_len(modules, word) == modules,
{
}

/// A display of at most `SIZE` modules, the first module showing the first letter.
pub struct Display<const SIZE: usize> {
    modules: Vec<Module>,
}

impl<const SIZE: usize> View for Display<SIZE> {
    type V = Seq<Module>;

    /// The modules of the display, from the first letter on.
    closed spec fn view(&self) -> Seq<Module> {
        self.modules@
    }
}

impl<const SIZE: usize> Display<SIZE> {
    /// The display is well formed: it has at most `SIZE` modules, each well formed.
    pub closed spec fn wf(&self) -> bool {
        &&& self.modules@.len() <= SIZE
        &&& forall|i: int| 0 <= i < self.modules@.len() ==> (#[trigger] self.modules@[i]).wf()
    }

    /// Creates a display from the given modules.
    pub fn new(modules: Vec<Module>) -> (d: Self)
        requires
            modules@.len() <= SIZE,
            forall|i: int| 0 <= i < modules@.len() ==> (#[trigger] modules@[i]).wf(),
        ensures
            d.wf(),
            d@ == modules@,
    {
        Display { modules }
    }

    /// Number of modules of the display.
    pub fn len(&self) -> (n: usize)
        ensures
            n == self@.len(),
    {
        self.modules.len()
    }

    /// Adds a module at the end, its drum at home, if the display has room for it.
    ///
    /// Returns whether it was added; a full display is left as it is.
    pub fn add_module(&mut self) -> (added: bool)
        requires
            old(self).wf(),
        ensures
            final(self).wf(),
            added == (old(self)@.len() < SIZE),
            added ==> final(self)@.len() == old(self)@.len() + 1
                && final(self)@.drop_last() == old(self)@
                && final(self)@.last().pos() == 0,
            !added ==> final(self)@ == old(self)@,
    {
        if self.modules.len() < SIZE {
            let module = Module::new();
            self.modules.push(module);
            assert(self.modules@.drop_last() =~= old(self).modules@);
            true
        } else {
            false
        }
    }

    /// Shows `word`, one letter per module: module `i` shows letter `i`.
    ///
    /// Where the word is longer than the display, only its first letters are shown;
    /// where it is shorter, the modules past its end keep what they show.
    /// Returns, for each module that turns, the steps its motor makes.
    pub fn print_word(&mut self, word: &[u8]) -> (steps: Vec<i32>)
        requires
            old(self).wf(),
            forall|i: int|
                0 <= i < shown_len(old(self)@.len() as int, word@) ==> (module_flap(
                    #[trigger] word@[i],
                ) is Some),
        ensures
            final(self).wf(),
            final(self)@.len() == old(self)@.len(),
            steps@.len() == shown_len(old(self)@.len() as int, word@),
            steps@.len() <= word@.len(),
            steps@.len() <= old(self)@.len(),
            steps@.len() == word@.len() || steps@.len() == old(self)@.len(),
            forall|i: int|
                0 <= i < steps@.len() ==> (#[trigger] final(self)@[i]).pos() == module_char_position(
                    word@[i],
                ) && steps@[i] == forward_steps(
                    old(self)@[i].pos(),
                    final(self)@[i].pos(),
                    MODULE_STEPS_PER_REV as int,
                ),
            forall|i: int|
                steps@.len() <= i < old(self)@.len() ==> #[trigger] final(self)@[i] == old(
                    self,
                )@[i],
    {
        let n: usize = if word.len() < self.modules.len() {
            word.len()
        } else {
            self.modules.len()
        };
        let mut steps: Vec<i32> = Vec::new();
        let mut i: usize = 0;
        while i < n
            invariant
                self.wf(),
                n == shown_len(old(self)@.len() as int, word@),
                i <= n,
                self@.len() == old(self)@.len(),
                steps@.len() == i,
                forall|k: int| 0 <= k < n ==> (module_flap(#[trigger] word@[k]) is Some),
                forall|k: int|
                    0 <= k < i ==> (#[trigger] self@[k]).pos() == module_char_position(word@[k])
                        && steps@[k] == forward_steps(
                        old(self)@[k].pos(),
                        self@[k].pos(),
                        MODULE_STEPS_PER_REV as int,
                    ),
                forall|k: int| i <= k < old(self)@.len() ==> #[trigger] self@[k] == old(self)@[k],
            decreases n - i,
        {
            let mut module = self.modules[i];
            let d = module.print_char(word[i]);
            self.modules.set(i, module);
            steps.push(d);
            i = i + 1;
        }
        steps
    }

    /// One decision of the homing sequence of module `index`, given what its Hall sensor
    /// reads; see `Module::reset`.
    pub fn reset(&mut self, index: usize, hall_is_high: bool) -> (step: ResetStep)
        requires
            old(self).wf(),
            index < old(self)@.len(),
        ensures
            final(self).wf(),
            final(self)@.len() == old(self)@.len(),
            hall_is_high ==> step == ResetStep::Seek(1) && final(self)@ == old(self)@,
            !hall_is_high ==> step == ResetStep::Home(crate::module::MODULE_HOME_OFFSET)
                && final(self)@[index as int].pos() == 0,
            forall|k: int|
                0 <= k < old(self)@.len() && k != index ==> #[trigger] final(self)@[k] == old(
                    self,
                )@[k],
    {
        let mut module = self.modules[index];
        let step = module.reset(hall_is_high);
        self.modules.set(index, module);
        proof {
            if hall_is_high {
                assert(self.modules@ =~= old(self).modules@);
            }
        }
        step
    }
}

} // verus!
