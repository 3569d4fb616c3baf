//! The threshold table a tick's draws are classified against.
//!
//! Each entry is the IEEE 754 bit pattern of a non-negative double below
//! two; on such values the unsigned order of bit patterns is the IEEE
//! order, so `roll < threshold` on patterns is the host's float comparison,
//! exactly. The numeric formulas that produce the table read player and
//! ballpark attributes and use float arithmetic, so they live with the
//! caller; the engine consumes the finished table.

use vstd::prelude::*;

verus! {

/// Per-tick thresholds: scalars for the pitch sequence, and per-fielder
/// (and per-runner) vectors for the draws whose threshold depends on the
/// fielder the generator picks.
pub struct Thresholds {
    pub party: u64,
    pub mild_pitch: u64,
    pub in_strike_zone: u64,
    pub fair_ball: u64,
    pub fly: u64,
    pub hr: u64,
    pub out_by_fielder: Vec<u64>,
    pub double_by_fielder: Vec<u64>,
    pub triple_by_fielder: Vec<u64>,
    /// Advance thresholds, indexed by the runner's position in the
    /// starting-runner list, then by the fielder index.
    pub advance: Vec<Vec<u64>>,
}

pub struct ThresholdsV {
    pub party: u64,
    pub mild_pitch: u64,
    pub in_strike_zone: u64,
    pub fair_ball: u64,
    pub fly: u64,
    pub hr: u64,
    pub out_by_fielder: Seq<u64>,
    pub double_by_fielder: Seq<u64>,
    pub triple_by_fielder: Seq<u64>,
    pub advance: Seq<Seq<u64>>,
}

impl View for Thresholds {
    type V = ThresholdsV;

    open spec fn view(&self) -> ThresholdsV {
        ThresholdsV {
            party: self.party,
            mild_pitch: self.mild_pitch,
            in_strike_zone: self.in_strike_zone,
            fair_ball: self.fair_ball,
            fly: self.fly,
            hr: self.hr,
            out_by_fielder: self.out_by_fielder@,
            double_by_fielder: self.double_by_fielder@,
            triple_by_fielder: self.triple_by_fielder@,
            advance: self.advance.deep_view(),
        }
    }
}

impl ThresholdsV {
    /// The table covers every fielder the pick can name and every starting
    /// runner.
    pub open spec fn wf(self, num_fielders: int, num_runners: int) -> bool {
        &&& self.out_by_fielder.len() == num_fielders
        &&& self.double_by_fielder.len() == num_fielders
        &&& self.triple_by_fielder.len() == num_fielders
        &&& self.advance.len() == num_runners
        &&& forall|i: int| 0 <= i < num_runners ==> #[trigger] self.advance[i].len() == num_fielders
    }
}

impl Thresholds {
    /// Does the table cover the given fielder and runner counts?
    pub fn fits(&self, num_fielders: usize, num_runners: usize) -> (r: bool)
        ensures
            r == self@.wf(num_fielders as int, num_runners as int),
    {
        if !(self.out_by_fielder.len() == num_fielders && self.double_by_fielder.len()
            == num_fielders && self.triple_by_fielder.len() == num_fielders && self.advance.len()
            == num_runners) {
            proof {
                assert(self@.advance.len() == self.advance@.len());
            }
            return false;
        }
        proof {
            assert(self@.advance.len() == self.advance@.len());
        }
        let mut i: usize = 0;
        while i < num_runners
            invariant
                i <= num_runners,
                num_runners == self.advance@.len(),
                self@.advance.len() == num_runners,
                forall|j: int| 0 <= j < i ==> #[trigger] self@.advance[j].len() == num_fielders,
            decreases num_runners - i,
        {
            proof {
                assert(self@.advance[i as int] =~= self.advance@[i as int].deep_view());
            }
            if self.advance[i].len() != num_fielders {
                return false;
            }
            i += 1;
        }
        true
    }
}

} // verus!
