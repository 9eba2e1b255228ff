//! Quadrature decoding: turning pairs of sampled phase lines into single
//! forward or backward steps.
//!
//! The two phase lines of a rotary encoder trace a 2-bit Gray code. Each
//! sample pair maps to an index in `0..4`; one detent moves the index by one
//! position. The decoder compares the new index with the one stored at the
//! previous poll: a move of one position is a step, a move of two positions is
//! ambiguous and reported as a skipped transition. Reading the physical pins
//! happens outside this crate; on a failed pin read the caller simply does not
//! poll, which keeps the decoder state for the next tick.

use vstd::prelude::*;

verus! {

/// A relative, incremental encoder that can detect and report single steps
/// forward and backward from a pair of sampled phase lines.
///
/// Each implementation describes itself with three spec functions: a state
/// invariant, the result one poll reports, and the state one poll leaves
/// behind. `poll` is then bound to exactly that description.
pub trait Encoder: Sized {
    type Error;

    /// The states in which the encoder accepts a poll.
    spec fn inv(self) -> bool;

    /// The step or error one poll reports from this state.
    spec fn poll_result(self, a: bool, b: bool) -> Result<Step, Self::Error>;

    /// The state one poll leaves behind.
    spec fn poll_next(self, a: bool, b: bool) -> Self;

    /// Feeds one pair of samples to the encoder and returns the resulting
    /// step, if any.
    fn poll(&mut self, a: bool, b: bool) -> (r: Result<Step, Self::Error>)
        requires
            old(self).inv(),
        ensures
            final(self).inv(),
            r == old(self).poll_result(a, b),
            *final(self) == old(self).poll_next(a, b),
    ;
}

/// A step increment returned by an [`Encoder`].
#[derive(Debug, Clone, Copy, PartialEq, Eq, Structural)]
pub enum Step {
    Idle,
    Backward,
    Forward,
}

/// The signed delta a step contributes to an encoder total.
pub open spec fn spec_step_value(s: Step) -> int {
    match s {
        Step::Idle => 0,
        Step::Backward => -1,
        Step::Forward => 1,
    }
}

impl Step {
    pub fn value(self) -> (v: i8)
        ensures
            v as int == spec_step_value(self),
    {
        match self {
            Self::Idle => 0,
            Self::Backward => -1,
            Self::Forward => 1,
        }
    }
}

/// The Gray-code index of a sample pair: `(0,0) = 0`, `(1,0) = 1`,
/// `(1,1) = 2`, `(0,1) = 3`.
pub open spec fn spec_index(a: bool, b: bool) -> int {
    if a == b {
        if a {
            2
        } else {
            0
        }
    } else {
        if a {
            1
        } else {
            3
        }
    }
}

/// Computes the Gray-code index of a sample pair.
pub fn index(a: bool, b: bool) -> (i: i8)
    ensures
        i as int == spec_index(a, b),
{
    match (a, b) {
        (false, false) => 0,
        (true, false) => 1,
        (true, true) => 2,
        (false, true) => 3,
    }
}

/// How far the index moved since the previous poll, as a position in `0..4`.
pub open spec fn spec_delta(old_index: int, new_index: int) -> int {
    (new_index - old_index) % 4
}

/// What one poll reports when the index moved from `old_index` to
/// `new_index`: no step, a single step in either direction, or a skipped
/// (two-position, ambiguous) transition.
pub open spec fn spec_step_result(old_index: int, new_index: int) -> Result<Step, Error> {
    let d = spec_delta(old_index, new_index);
    if d == 0 {
        Ok(Step::Idle)
    } else if d == 1 {
        Ok(Step::Forward)
    } else if d == 2 {
        Err(Error::Skipped)
    } else {
        Ok(Step::Backward)
    }
}

/// A quadrature encoder fed by two sampled phase lines.
pub struct Quadrature {
    /// The Gray-code index stored at the previous poll, or `None` before the
    /// first poll.
    pub old_index: Option<i8>,
}

impl Quadrature {
    /// The stored index from the previous poll, or `None` before the first
    /// poll.
    pub open spec fn index_state(self) -> Option<int> {
        match self.old_index {
            Option::None => Option::None,
            Option::Some(i) => Option::Some(i as int),
        }
    }

    /// The stored index is either absent or a valid Gray-code position.
    pub open spec fn wf(self) -> bool {
        match self.index_state() {
            Option::None => true,
            Option::Some(i) => 0 <= i < 4,
        }
    }

    /// Creates a new decoder with no stored index.
    pub fn new() -> (q: Self)
        ensures
            q.wf(),
            q.index_state() == Option::<int>::None,
    {
        Self { old_index: None }
    }
}

impl Encoder for Quadrature {
    type Error = Error;

    open spec fn inv(self) -> bool {
        self.wf()
    }

    /// The first poll only records the index and reports no step; every later
    /// poll reports the transition from the stored index.
    open spec fn poll_result(self, a: bool, b: bool) -> Result<Step, Error> {
        match self.index_state() {
            Option::None => Ok(Step::Idle),
            Option::Some(oi) => spec_step_result(oi, spec_index(a, b)),
        }
    }

    /// The new index is always stored, even on a skipped transition.
    open spec fn poll_next(self, a: bool, b: bool) -> Self {
        Quadrature { old_index: Option::Some(spec_index(a, b) as i8) }
    }

    fn poll(&mut self, a: bool, b: bool) -> (r: Result<Step, Error>) {
        let new_index = index(a, b);

        let result = if let Some(old_index) = self.old_index {
            proof {
                assert(((new_index + (4 - old_index)) % 4) as int == spec_delta(
                    old_index as int,
                    new_index as int,
                ));
            }
            match (new_index + (4 - old_index)) % 4 {
                0 => Ok(Step::Idle),
                1 => Ok(Step::Forward),
                2 => Err(Error::Skipped),
                3 => Ok(Step::Backward),
                _ => {
                    proof {
                        assert(false);
                    }
                    Ok(Step::Idle)
                },
            }
        } else {
            Ok(Step::Idle)
        };
        self.old_index = Some(new_index);
        result
    }
}

/// A decoder failure: the index moved two positions between polls, so the
/// direction of rotation is ambiguous and the tick is dropped.
#[derive(Debug, Clone, Copy, PartialEq, Eq, Structural)]
pub enum Error {
    Skipped,
}

/// An encoder that is not populated on the hardware; it never steps and never
/// fails.
pub struct Disabled {
    _reserved: bool,
}

impl Disabled {
    pub fn new() -> (e: Self) {
        Self { _reserved: false }
    }
}

impl Encoder for Disabled {
    type Error = Error;

    open spec fn inv(self) -> bool {
        true
    }

    open spec fn poll_result(self, a: bool, b: bool) -> Result<Step, Error> {
        Ok(Step::Idle)
    }

    open spec fn poll_next(self, a: bool, b: bool) -> Self {
        self
    }

    fn poll(&mut self, a: bool, b: bool) -> (r: Result<Step, Error>) {
        Ok(Step::Idle)
    }
}

/// A walk of Gray-code indices where every position is valid and every tick
/// moves the index by exactly one position in either direction.
pub open spec fn single_step_walk(idx: Seq<int>) -> bool {
    &&& forall|k: int| 0 <= k < idx.len() ==> 0 <= #[trigger] idx[k] < 4
    &&& forall|k: int|
        0 < k < idx.len() ==> (#[trigger] spec_delta(idx[k - 1], idx[k]) == 1 || spec_delta(
            idx[k - 1],
            idx[k],
        ) == 3)
}

/// The net index change of a walk: each tick counts `+1` when the index
/// advanced by one position and `-1` when it moved back by one.
pub open spec fn net_change(idx: Seq<int>) -> int
    decreases idx.len(),
{
    if idx.len() <= 1 {
        0
    } else {
        net_change(idx.drop_last()) + (if spec_delta(idx[idx.len() - 2], idx[idx.len() - 1])
            == 1 {
            1int
        } else {
            -1int
        })
    }
}

/// The sum of the step values the decoder emits along a walk, taking each
/// poll's result from [`spec_step_result`].
pub open spec fn decoded_sum(idx: Seq<int>) -> int
    decreases idx.len(),
{
    if idx.len() <= 1 {
        0
    } else {
        decoded_sum(idx.drop_last()) + (match spec_step_result(
            idx[idx.len() - 2],
            idx[idx.len() - 1],
        ) {
            Ok(s) => spec_step_value(s),
            Err(_) => 0,
        })
    }
}

/// Law: along any Gray-code walk that steps by one position per tick, the sum
/// of the deltas the decoder emits equals the walk's net index change, and
/// that sum stays within plus or minus the number of ticks.
pub proof fn lemma_quadrature_direction(idx: Seq<int>)
    requires
        single_step_walk(idx),
        idx.len() >= 1,
    ensures
        decoded_sum(idx) == net_change(idx),
        -(idx.len() - 1) <= net_change(idx) <= idx.len() - 1,
    decreases idx.len(),
{
    if idx.len() <= 1 {
    } else {
        assert(single_step_walk(idx.drop_last())) by {
            assert(forall|k: int|
                0 <= k < idx.len() - 1 ==> #[trigger] idx.drop_last()[k] == idx[k]);
        }
        lemma_quadrature_direction(idx.drop_last());
        let d = spec_delta(idx[idx.len() - 2], idx[idx.len() - 1]);
        assert(d == 1 || d == 3);
    }
}

} // verus!
