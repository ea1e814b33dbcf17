//! The population model: a person's disease status, position, home and age
//! bracket, and the verified severity-progression step.
//!
//! The status is a single tagged value, so the lifecycle is exhaustively
//! checkable: Susceptible -> Infected -> {Recovered, Dead}, never backward,
//! and never out of the two terminal states.

use vstd::prelude::*;
use crate::geometry::Point;
use crate::config::{Config, DAY_LIMIT, AGE_BRACKETS};
use crate::walk::rand_step;

verus! {

/// Severity walks toward this value until the peak day, then toward zero.
pub const SEVERITY_TARGET: u32 = 13;

/// Band of the severity walk.
pub const SEVERITY_BAND: u32 = 30;

/// Homes and city centres lie within this coordinate bound.
pub const HOME_LIMIT: i32 = 600000000;

/// Positions drift at most a half band past a home or a centre, and stay
/// within this bound.
pub const POS_LIMIT: i32 = HOME_LIMIT + 6;

/// Severity can never exceed this: the walk pulls back above
/// `SEVERITY_TARGET + SEVERITY_BAND / 2`.
pub const SEV_MAX: u32 = SEVERITY_TARGET + SEVERITY_BAND / 2 + 1;

/// The disease status of one person.
#[derive(Clone, Copy, PartialEq, Eq, Structural, Debug)]
pub enum Status {
    Susceptible,
    /// Ill since day `since`, at the given severity, having seen `peak` as
    /// the highest severity so far.
    Infected { since: u32, severity: u32, peak: u32 },
    /// Severity returned to zero without crossing the fatal threshold:
    /// permanent immunity.
    Recovered { peak: u32 },
    /// Severity crossed the age bracket's fatal threshold.
    Dead { peak: u32 },
}

/// The highest severity this status has ever recorded.
pub open spec fn peak_of(s: Status) -> int {
    match s {
        Status::Susceptible => 0,
        Status::Infected { peak, .. } => peak as int,
        Status::Recovered { peak } => peak as int,
        Status::Dead { peak } => peak as int,
    }
}

/// Validity of a status value.
pub open spec fn status_wf(s: Status) -> bool {
    match s {
        Status::Susceptible => true,
        Status::Infected { since, severity, peak } => {
            &&& 1 <= severity <= peak <= SEV_MAX
            &&& since <= DAY_LIMIT
        },
        Status::Recovered { peak } => peak <= SEV_MAX,
        Status::Dead { peak } => peak <= SEV_MAX,
    }
}

/// One day's admissible status change: only forward along
/// Susceptible -> Infected -> {Recovered, Dead}; the two end states are
/// terminal; the recorded peak never decreases; the infection start day is
/// never rewritten.
pub open spec fn step_ok(a: Status, b: Status) -> bool {
    &&& match a {
        Status::Susceptible => b is Susceptible || b is Infected,
        Status::Infected { .. } => b is Infected || b is Recovered || b is Dead,
        Status::Recovered { .. } => b == a,
        Status::Dead { .. } => b == a,
    }
    &&& peak_of(b) >= peak_of(a)
    &&& (a is Infected && b is Infected ==> b->since == a->since)
}

/// Where a status can end up over any number of days: forward along
/// Susceptible -> Infected -> {Recovered, Dead}, with the peak never
/// decreasing and the infection start day never rewritten.
pub open spec fn reach_ok(a: Status, b: Status) -> bool {
    &&& match a {
        Status::Susceptible => true,
        Status::Infected { .. } => b is Infected || b is Recovered || b is Dead,
        Status::Recovered { .. } => b == a,
        Status::Dead { .. } => b == a,
    }
    &&& peak_of(b) >= peak_of(a)
    &&& (a is Infected && b is Infected ==> b->since == a->since)
}

/// Law: one admissible day step stays within the reachability relation.
pub proof fn lemma_step_ok_reach(a: Status, b: Status)
    requires
        step_ok(a, b),
    ensures
        reach_ok(a, b),
{
}

/// Law: reachability composes and never leads back to Susceptible — once a
/// person has been infected, immunity or death is permanent.
pub proof fn lemma_reach_ok_transitive(a: Status, b: Status, c: Status)
    requires
        reach_ok(a, b),
        reach_ok(b, c),
    ensures
        reach_ok(a, c),
        c is Susceptible ==> a is Susceptible,
{
}

/// One member of the population.
#[derive(Clone, Copy, PartialEq, Eq, Structural, Debug)]
pub struct Person {
    pub status: Status,
    pub posn: Point,
    pub home: Point,
    pub age: usize,
}

impl Person {
    /// A susceptible person standing at home.
    pub fn new(x: i32, y: i32, age: usize) -> (p: Person)
        ensures
            p.status is Susceptible,
            p.posn.x == x && p.posn.y == y,
            p.home.x == x && p.home.y == y,
            p.age == age,
    {
        Person {
            status: Status::Susceptible,
            posn: Point::new(x, y),
            home: Point::new(x, y),
            age,
        }
    }

    /// Validity: coordinates within the drift bounds, a real age bracket,
    /// and a well-formed status.
    pub open spec fn wf(self) -> bool {
        &&& -HOME_LIMIT <= self.home.x <= HOME_LIMIT
        &&& -HOME_LIMIT <= self.home.y <= HOME_LIMIT
        &&& -POS_LIMIT <= self.posn.x <= POS_LIMIT
        &&& -POS_LIMIT <= self.posn.y <= POS_LIMIT
        &&& self.age < AGE_BRACKETS
        &&& status_wf(self.status)
    }
}

/// The severity target of the walk: high until the peak-day count has
/// elapsed since infection, zero after — severity rises, then falls.
pub open spec fn severity_target(since: u32, day: u32, to_peak: u32) -> int {
    if day < since + to_peak {
        SEVERITY_TARGET as int
    } else {
        0
    }
}

/// The outcome of one disease-progression step, as a function of the drawn
/// walk step `st`: severity moves by `st`, the peak keeps the maximum;
/// crossing the fatal threshold kills, reaching zero severity recovers.
pub open spec fn progressed(p: Person, st: int, fatal: u32) -> Person {
    match p.status {
        Status::Infected { since, severity, peak } => {
            let sev2 = severity + st;
            let pk2 = (if sev2 > peak { sev2 } else { peak as int }) as u32;
            let status = if sev2 >= fatal {
                Status::Dead { peak: pk2 }
            } else if sev2 <= 0 {
                Status::Recovered { peak: pk2 }
            } else {
                Status::Infected { since, severity: sev2 as u32, peak: pk2 }
            };
            Person { status, ..p }
        },
        _ => p,
    }
}

/// Progress an infected person's severity by one biased walk step and apply
/// the fatal / recovery transition. The result is `progressed` of some step
/// in -1..=1; which step is the walk's draw.
pub fn progress_infection(p: &mut Person, day: u32, cfg: &Config)
    requires
        old(p).wf(),
        cfg.wf(),
        old(p).status is Infected,
        day <= DAY_LIMIT,
    ensures
        final(p).wf(),
        final(p).posn == old(p).posn,
        final(p).home == old(p).home,
        final(p).age == old(p).age,
        step_ok(old(p).status, final(p).status),
        exists|st: int|
            -1 <= st <= 1 && *final(p) == progressed(
                *old(p),
                st,
                cfg.age_vals[old(p).age as int].fatal_severity,
            ),
{
    let (since, severity, peak) = match p.status {
        Status::Infected { since, severity, peak } => (since, severity, peak),
        _ => (0, 1, 1),
    };
    let target: i32 = if day < since + cfg.to_peak {
        SEVERITY_TARGET as i32
    } else {
        0
    };
    let st = rand_step(severity as i32, target, SEVERITY_BAND);
    let sev2: i32 = severity as i32 + st;
    let pk2: u32 = if sev2 > peak as i32 {
        sev2 as u32
    } else {
        peak
    };
    let fatal = cfg.age_vals[p.age].fatal_severity;
    let ghost old_p = *p;
    if sev2 as u32 >= fatal {
        p.status = Status::Dead { peak: pk2 };
    } else if sev2 == 0 {
        p.status = Status::Recovered { peak: pk2 };
    } else {
        p.status = Status::Infected { since, severity: sev2 as u32, peak: pk2 };
    }
    proof {
        assert(*p == progressed(old_p, st as int, fatal));
    }
}

} // verus!
