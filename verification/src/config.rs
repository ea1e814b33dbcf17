//! The fixed parameter bundle. It is produced outside the library (loading
//! and parsing are a precondition, not part of the core) and is immutable for
//! the whole run. `wf` is the validity every component requires of it.

use vstd::prelude::*;

verus! {

/// Number of entries of the age-distribution table (assigned cyclically).
pub const AGE_DIST_LEN: usize = 16;

/// Number of age brackets (one per decade).
pub const AGE_BRACKETS: usize = 8;

/// Mobility values are weights out of this denominator.
pub const MOBILITY_DEN: u32 = 10;

/// Upper bound on the population size.
pub const POP_LIMIT: usize = 100000000;

/// Upper bound on the grid extent, on day counts and day-valued windows.
pub const GRID_LIMIT: usize = 500000000;

/// Upper bound on simulated day counts and day-valued windows.
pub const DAY_LIMIT: u32 = 1000000;

/// Per-decade disease parameters: how far a person of this bracket roams
/// under each regime, and the severity at which the infection turns fatal.
#[derive(Clone, Copy, PartialEq, Eq, Structural, Debug)]
pub struct AgeBracket {
    pub mobility_normal: u32,
    pub mobility_lockdown: u32,
    pub fatal_severity: u32,
}

impl AgeBracket {
    /// Mobility under the regime selected for the day: 0 is the normal
    /// regime, anything else the lockdown regime.
    pub open spec fn spec_mobility(self, regime: int) -> u32 {
        if regime == 0 {
            self.mobility_normal
        } else {
            self.mobility_lockdown
        }
    }

    pub fn mobility(&self, regime: usize) -> (m: u32)
        ensures
            m == self.spec_mobility(regime as int),
    {
        if regime == 0 {
            self.mobility_normal
        } else {
            self.mobility_lockdown
        }
    }
}

/// Sum of a sequence of weights.
pub open spec fn sum_of(s: Seq<u32>) -> int
    decreases s.len(),
{
    if s.len() == 0 {
        0
    } else {
        sum_of(s.drop_last()) + s.last()
    }
}

/// The whole configuration, fixed at startup.
pub struct Config {
    /// Total population.
    pub n: usize,
    /// Extent of the square seeding region: coordinates fall in `0..sz`.
    pub sz: usize,
    /// Age-distribution table: bracket indices assigned cyclically.
    pub age_dist: Vec<usize>,
    /// Per-bracket mobility and fatality parameters.
    pub age_vals: Vec<AgeBracket>,
    /// Relative population weight of each city.
    pub city_sizes: Vec<u32>,
    /// How many initial infections to seed (possibly hitting one person twice).
    pub start_seed: usize,
    /// Severity given to a seeded infection.
    pub seed_severity: u32,
    /// Severity given to an infection acquired from the grid.
    pub infect_severity: u32,
    /// Number of simulated days.
    pub n_steps: u32,
    /// Start days of the lockdown windows, in temporal order.
    pub lockdown_start: Vec<u32>,
    /// End days of the lockdown windows (exclusive), in temporal order.
    pub lockdown_end: Vec<u32>,
    /// Days from infection until the severity target drops to zero.
    pub to_peak: u32,
    /// A susceptible person standing on a cell whose level exceeds this
    /// becomes infected.
    pub cell_threshold: u8,
    /// Minimum mobility eligible for the long-distance jump behaviour.
    pub jump_threshold: u32,
    /// Days from infection during which a person deposits nothing.
    pub noninfective: u32,
    /// A cell level decays each day by its own value divided by this.
    pub decay_divisor: u8,
    /// A decayed level below this floor dissipates to zero.
    pub decay_floor: u8,
    /// Whether a visual frame is produced each day (consumed outside).
    pub save_images: bool,
    /// Pixel extent of the square visual frame.
    pub image_size: u32,
}

impl Config {
    /// Validity of the bundle: table lengths, value ranges, and lockdown
    /// windows supplied sorted and non-overlapping.
    pub open spec fn wf(self) -> bool {
        &&& 1 <= self.n <= POP_LIMIT
        &&& 1 <= self.sz <= GRID_LIMIT
        &&& self.age_dist.len() == AGE_DIST_LEN
        &&& forall|i: int|
            0 <= i < self.age_dist.len() ==> self.age_dist[i] < AGE_BRACKETS
        &&& self.age_vals.len() == AGE_BRACKETS
        &&& forall|i: int|
            0 <= i < self.age_vals.len() ==> {
                &&& self.age_vals[i].mobility_normal <= MOBILITY_DEN
                &&& self.age_vals[i].mobility_lockdown <= MOBILITY_DEN
            }
        &&& 1 <= self.city_sizes.len() <= 1000
        &&& forall|i: int| 0 <= i < self.city_sizes.len() ==> self.city_sizes[i] <= 1000000
        &&& sum_of(self.city_sizes@) >= 1
        &&& 1 <= self.seed_severity <= crate::person::SEV_MAX
        &&& 1 <= self.infect_severity <= crate::person::SEV_MAX
        &&& self.n_steps <= DAY_LIMIT
        &&& self.lockdown_start.len() == self.lockdown_end.len()
        &&& self.lockdown_start.len() >= 1
        &&& forall|i: int|
            0 <= i < self.lockdown_start.len() ==> self.lockdown_start[i] <= self.lockdown_end[i]
        &&& forall|i: int|
            0 <= i < self.lockdown_start.len() - 1
                ==> self.lockdown_end[i] <= self.lockdown_start[i + 1]
        &&& self.to_peak <= DAY_LIMIT
        &&& self.noninfective <= DAY_LIMIT
        &&& self.decay_divisor >= 1
        &&& 1 <= self.image_size <= 16384
    }

    /// Decide `wf` at run time, so that an unverified caller can reject a
    /// bad bundle before handing it to the library.
    pub fn check(&self) -> (b: bool)
        ensures
            b == self.wf(),
    {
        if !(1 <= self.n && self.n <= POP_LIMIT) {
            return false;
        }
        if !(1 <= self.sz && self.sz <= GRID_LIMIT) {
            return false;
        }
        if self.age_dist.len() != AGE_DIST_LEN {
            return false;
        }
        let nd = self.age_dist.len();
        for i in 0..nd
            invariant
                nd == self.age_dist@.len(),
                forall|j: int| 0 <= j < i ==> self.age_dist@[j] < AGE_BRACKETS,
        {
            if self.age_dist[i] >= AGE_BRACKETS {
                return false;
            }
        }
        if self.age_vals.len() != AGE_BRACKETS {
            return false;
        }
        let nv = self.age_vals.len();
        for i in 0..nv
            invariant
                nv == self.age_vals@.len(),
                forall|j: int|
                    0 <= j < i ==> (#[trigger] self.age_vals@[j]).mobility_normal <= MOBILITY_DEN
                        && self.age_vals@[j].mobility_lockdown <= MOBILITY_DEN,
        {
            if self.age_vals[i].mobility_normal > MOBILITY_DEN || self.age_vals[i].mobility_lockdown
                > MOBILITY_DEN {
                return false;
            }
        }
        if !(1 <= self.city_sizes.len() && self.city_sizes.len() <= 1000) {
            return false;
        }
        let ncs = self.city_sizes.len();
        for i in 0..ncs
            invariant
                ncs == self.city_sizes@.len(),
                forall|j: int| 0 <= j < i ==> self.city_sizes@[j] <= 1000000,
        {
            if self.city_sizes[i] > 1000000 {
                return false;
            }
        }
        let total = crate::city::sum_city_sizes(&self.city_sizes);
        if total < 1 {
            return false;
        }
        if !(1 <= self.seed_severity && self.seed_severity <= crate::person::SEV_MAX) {
            return false;
        }
        if !(1 <= self.infect_severity && self.infect_severity <= crate::person::SEV_MAX) {
            return false;
        }
        if self.n_steps > DAY_LIMIT {
            return false;
        }
        if self.lockdown_start.len() != self.lockdown_end.len() {
            return false;
        }
        if self.lockdown_start.len() < 1 {
            return false;
        }
        let nl = self.lockdown_start.len();
        for i in 0..nl
            invariant
                nl == self.lockdown_start@.len(),
                nl == self.lockdown_end@.len(),
                forall|j: int| 0 <= j < i ==> self.lockdown_start@[j] <= self.lockdown_end@[j],
        {
            if self.lockdown_start[i] > self.lockdown_end[i] {
                return false;
            }
        }
        for i in 0..nl - 1
            invariant
                nl >= 1,
                nl == self.lockdown_start@.len(),
                nl == self.lockdown_end@.len(),
                forall|j: int| 0 <= j < i ==> self.lockdown_end@[j] <= self.lockdown_start@[j + 1],
        {
            if self.lockdown_end[i] > self.lockdown_start[i + 1] {
                return false;
            }
        }
        if self.to_peak > DAY_LIMIT {
            return false;
        }
        if self.noninfective > DAY_LIMIT {
            return false;
        }
        if self.decay_divisor < 1 {
            return false;
        }
        if !(1 <= self.image_size && self.image_size <= 16384) {
            return false;
        }
        true
    }
}

} // verus!
