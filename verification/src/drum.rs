//! Arithmetic of a drum that only ever turns forward.
use vstd::prelude::*;

verus! {

/// Number of flaps on a drum: blank, 26 letters and 10 digits.
pub const FLAP_COUNT: usize = 37;

/// What the motor does next while a module searches for its home position.
#[derive(Clone, Copy, Debug, PartialEq, Eq, Structural)]
pub enum ResetStep {
    /// The sensor does not see the magnet yet: make this many steps, then read it again.
    Seek(i32),
    /// The sensor sees the magnet: make this many steps to reach home; the drum is then
    /// at position 0 and the sequence is over.
    Home(i32),
}

/// Byte `c` with an upper-case latin letter turned into lower case.
pub open spec fn ascii_lower(c: u8) -> u8 {
    if 65 <= c <= 90 {
        (c + 32) as u8
    } else {
        c
    }
}

/// Steps the motor makes while the drum turns forward from `from` to `to`, on a drum
/// whose full revolution takes `rev` steps.
pub open spec fn forward_steps(from: int, to: int, rev: int) -> int {
    if to - from < 0 {
        to - from + rev
    } else {
        to - from
    }
}

/// Steps that turn the drum forward from position `from` to position `to`.
pub fn forward_distance(from: i32, to: i32, rev: i32) -> (steps: i32)
    requires
        0 < rev,
        0 <= from < rev,
        0 <= to < rev,
    ensures
        steps == forward_steps(from as int, to as int, rev as int),
{
    let mut distance: i32 = to - from;
    if distance < 0 {
        distance += rev;
    }
    distance
}

/// A forward move lands on its target and takes less than one revolution: starting at
/// `from` and making `forward_steps(from, to, rev)` steps brings the drum to `to`.
pub proof fn lemma_forward_steps_land(from: int, to: int, rev: int)
    requires
        0 < rev,
        0 <= from < rev,
        0 <= to < rev,
    ensures
        0 <= forward_steps(from, to, rev) < rev,
        (from + forward_steps(from, to, rev)) % rev == to,
        forward_steps(from, to, rev) == 0 <==> from == to,
{
    let d = forward_steps(from, to, rev);
    if to - from < 0 {
        assert(from + d == to + rev);
        vstd::arithmetic::div_mod::lemma_mod_add_multiples_vanish(to, rev);
        vstd::arithmetic::div_mod::lemma_small_mod(to as nat, rev as nat);
    } else {
        vstd::arithmetic::div_mod::lemma_small_mod(to as nat, rev as nat);
    }
}

/// Steps made while the drum visits `targets` in turn, starting at `start`.
pub open spec fn walk_steps(start: int, targets: Seq<int>, rev: int) -> Seq<int> {
    Seq::new(
        targets.len(),
        |i: int| forward_steps(if i == 0 { start } else { targets[i - 1] }, targets[i], rev),
    )
}

/// Where the drum stands after visiting `targets` in turn, starting at `start`.
pub open spec fn walk_end(start: int, targets: Seq<int>) -> int {
    if targets.len() == 0 {
        start
    } else {
        targets.last()
    }
}

/// Sum of a sequence of step counts.
pub open spec fn total(steps: Seq<int>) -> int
    decreases steps.len(),
{
    if steps.len() == 0 {
        0
    } else {
        total(steps.drop_last()) + steps.last()
    }
}

/// Visiting several targets in turn adds up: the drum position plus all the steps made,
/// taken modulo one revolution, is where the drum ends.
pub proof fn lemma_walk_total(start: int, targets: Seq<int>, rev: int)
    requires
        0 < rev,
        0 <= start < rev,
        forall|i: int| 0 <= i < targets.len() ==> 0 <= #[trigger] targets[i] < rev,
    ensures
        (start + total(walk_steps(start, targets, rev))) % rev == walk_end(start, targets),
    decreases targets.len(),
{
    if targets.len() == 0 {
        assert(total(walk_steps(start, targets, rev)) == 0);
        vstd::arithmetic::div_mod::lemma_small_mod(start as nat, rev as nat);
    } else {
        let prefix = targets.drop_last();
        let w = walk_steps(start, targets, rev);
        lemma_walk_total(start, prefix, rev);
        assert(w.drop_last() =~= walk_steps(start, prefix, rev));
        let e = walk_end(start, prefix);
        assert(0 <= e < rev) by {
            if prefix.len() > 0 {
                assert(prefix.last() == targets[prefix.len() - 1]);
            }
        }
        let d = w.last();
        assert(d == forward_steps(e, targets.last(), rev)) by {
            if targets.len() > 1 {
                assert(targets[targets.len() - 2] == prefix.last());
            }
        }
        lemma_forward_steps_land(e, targets.last(), rev);
        let t = total(walk_steps(start, prefix, rev));
        assert(total(w) == t + d);
        vstd::arithmetic::div_mod::lemma_add_mod_noop(start + t, d, rev);
        vstd::arithmetic::div_mod::lemma_small_mod(d as nat, rev as nat);
    }
}

/// Each move of a walk is an ordinary forward move from where the drum stands: one step
/// count per target, each less than one revolution, each landing on its target, and
/// zero exactly when the drum already stands at that target.
pub proof fn lemma_walk_steps_are_forward_moves(start: int, targets: Seq<int>, rev: int)
    requires
        0 < rev,
        0 <= start < rev,
        forall|i: int| 0 <= i < targets.len() ==> 0 <= #[trigger] targets[i] < rev,
    ensures
        walk_steps(start, targets, rev).len() == targets.len(),
        forall|i: int|
            0 <= i < targets.len() ==> {
                let prev = if i == 0 {
                    start
                } else {
                    targets[i - 1]
                };
                let d = #[trigger] walk_steps(start, targets, rev)[i];
                &&& 0 <= d < rev
                &&& (prev + d) % rev == targets[i]
                &&& (d == 0 <==> prev == targets[i])
            },
{
    assert forall|i: int| 0 <= i < targets.len() implies {
        let prev = if i == 0 {
            start
        } else {
            targets[i - 1]
        };
        let d = #[trigger] walk_steps(start, targets, rev)[i];
        &&& 0 <= d < rev
        &&& (prev + d) % rev == targets[i]
        &&& (d == 0 <==> prev == targets[i])
    } by {
        let prev = if i == 0 {
            start
        } else {
            targets[i - 1]
        };
        lemma_forward_steps_land(prev, targets[i], rev);
    }
}

/// A sequence whose neighbours increase is increasing throughout.
pub proof fn lemma_increasing(s: Seq<i32>)
    requires
        forall|i: int| 0 <= i < s.len() - 1 ==> #[trigger] s[i] < s[i + 1],
    ensures
        forall|i: int, j: int| 0 <= i < j < s.len() ==> s[i] < s[j],
{
    assert forall|i: int, j: int| 0 <= i < j < s.len() implies s[i] < s[j] by {
        lemma_increasing_from(s, i, j);
    }
}

proof fn lemma_increasing_from(s: Seq<i32>, i: int, j: int)
    requires
        forall|k: int| 0 <= k < s.len() - 1 ==> #[trigger] s[k] < s[k + 1],
        0 <= i < j < s.len(),
    ensures
        s[i] < s[j],
    decreases j - i,
{
    assert(s[j - 1] < s[j]);
    if i < j - 1 {
        lemma_increasing_from(s, i, j - 1);
    }
}

} // verus!
