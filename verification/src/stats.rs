//! The statistics aggregator: per-day status counts, the conservation law,
//! fixed-point percentages for the per-day report, and the final histogram
//! of peak severities.

use vstd::prelude::*;
use crate::person::{peak_of, Person};
use crate::config::POP_LIMIT;

verus! {

/// Bins of the peak-severity histogram: one per reachable severity value.
pub const HIST_BINS: usize = 30;

/// One day's status counts.
#[derive(Clone, Copy, PartialEq, Eq, Structural, Debug)]
pub struct DayCounts {
    pub susceptible: usize,
    pub infected: usize,
    pub recovered: usize,
    pub dead: usize,
}

pub open spec fn count_susceptible(s: Seq<Person>) -> int
    decreases s.len(),
{
    if s.len() == 0 {
        0
    } else {
        count_susceptible(s.drop_last()) + if s.last().status is Susceptible {
            1int
        } else {
            0int
        }
    }
}

pub open spec fn count_infected(s: Seq<Person>) -> int
    decreases s.len(),
{
    if s.len() == 0 {
        0
    } else {
        count_infected(s.drop_last()) + if s.last().status is Infected {
            1int
        } else {
            0int
        }
    }
}

pub open spec fn count_recovered(s: Seq<Person>) -> int
    decreases s.len(),
{
    if s.len() == 0 {
        0
    } else {
        count_recovered(s.drop_last()) + if s.last().status is Recovered {
            1int
        } else {
            0int
        }
    }
}

pub open spec fn count_dead(s: Seq<Person>) -> int
    decreases s.len(),
{
    if s.len() == 0 {
        0
    } else {
        count_dead(s.drop_last()) + if s.last().status is Dead {
            1int
        } else {
            0int
        }
    }
}

/// Whether `c` holds exactly the status counts of `s`.
pub open spec fn counts_of(c: DayCounts, s: Seq<Person>) -> bool {
    &&& c.susceptible == count_susceptible(s)
    &&& c.infected == count_infected(s)
    &&& c.recovered == count_recovered(s)
    &&& c.dead == count_dead(s)
}

/// Law: every person is in exactly one status, so the four counts always
/// sum to the population size.
pub proof fn lemma_conservation(s: Seq<Person>)
    ensures
        count_susceptible(s) + count_infected(s) + count_recovered(s) + count_dead(s)
            == s.len(),
    decreases s.len(),
{
    if s.len() > 0 {
        lemma_conservation(s.drop_last());
    }
}

/// Two populations whose members are susceptible at exactly the same
/// indices hold the same number of susceptible persons.
pub proof fn lemma_count_susceptible_pointwise(a: Seq<Person>, b: Seq<Person>)
    requires
        a.len() == b.len(),
        forall|i: int|
            0 <= i < a.len() ==> ((#[trigger] a[i]).status is Susceptible
                <==> (#[trigger] b[i]).status is Susceptible),
    ensures
        count_susceptible(a) == count_susceptible(b),
    decreases a.len(),
{
    if a.len() > 0 {
        lemma_count_susceptible_pointwise(a.drop_last(), b.drop_last());
    }
}

/// How many persons ever peaked at severity `v`.
pub open spec fn count_peak(s: Seq<Person>, v: int) -> int
    decreases s.len(),
{
    if s.len() == 0 {
        0
    } else {
        count_peak(s.drop_last(), v) + if peak_of(s.last().status) == v {
            1int
        } else {
            0int
        }
    }
}

pub proof fn lemma_count_peak_le(s: Seq<Person>, v: int)
    ensures
        0 <= count_peak(s, v) <= s.len(),
    decreases s.len(),
{
    if s.len() > 0 {
        lemma_count_peak_le(s.drop_last(), v);
    }
}

/// Count the population's statuses. The four counts are exact, and so (by
/// `lemma_conservation`) sum to the population size.
pub fn count_statuses(pop: &Vec<Person>) -> (c: DayCounts)
    ensures
        counts_of(c, pop@),
        c.susceptible + c.infected + c.recovered + c.dead == pop@.len(),
{
    let mut c = DayCounts { susceptible: 0, infected: 0, recovered: 0, dead: 0 };
    let n = pop.len();
    for i in 0..n
        invariant
            n == pop@.len(),
            counts_of(c, pop@.subrange(0, i as int)),
            c.susceptible + c.infected + c.recovered + c.dead == i,
    {
        proof {
            assert(pop@.subrange(0, i + 1).drop_last() =~= pop@.subrange(0, i as int));
            assert(pop@.subrange(0, i + 1).last() == pop@[i as int]);
        }
        match pop[i].status {
            crate::person::Status::Susceptible => {
                c.susceptible = c.susceptible + 1;
            },
            crate::person::Status::Infected { .. } => {
                c.infected = c.infected + 1;
            },
            crate::person::Status::Recovered { .. } => {
                c.recovered = c.recovered + 1;
            },
            crate::person::Status::Dead { .. } => {
                c.dead = c.dead + 1;
            },
        }
    }
    proof {
        assert(pop@.subrange(0, n as int) =~= pop@);
        lemma_conservation(pop@);
    }
    c
}

/// A share of the population in basis points (hundredths of a percent): the
/// two-decimal percentage of the per-day report, as a fixed-point integer.
pub fn percent_bp(count: usize, total: usize) -> (bp: u64)
    requires
        1 <= total <= POP_LIMIT,
        count <= total,
    ensures
        bp as int == count as int * 10000 / total as int,
{
    (count as u64) * 10000 / (total as u64)
}

/// The histogram of peak severities over the whole population: entry `v`
/// counts the persons whose severity ever peaked at `v`.
pub fn peak_histogram(pop: &Vec<Person>) -> (h: Vec<usize>)
    requires
        forall|i: int| 0 <= i < pop@.len() ==> (#[trigger] pop@[i]).wf(),
    ensures
        h@.len() == HIST_BINS,
        forall|v: int| 0 <= v < HIST_BINS ==> h@[v] == count_peak(pop@, v),
{
    let mut h: Vec<usize> = Vec::new();
    for b in 0..HIST_BINS
        invariant
            h@.len() == b,
            forall|v: int| 0 <= v < b ==> h@[v] == 0,
    {
        h.push(0);
    }
    proof {
        assert forall|v: int| 0 <= v < HIST_BINS implies h@[v] == count_peak(
            pop@.subrange(0, 0),
            v,
        ) by {
            assert(pop@.subrange(0, 0).len() == 0);
        }
    }
    let n = pop.len();
    for i in 0..n
        invariant
            n == pop@.len(),
            forall|j: int| 0 <= j < pop@.len() ==> (#[trigger] pop@[j]).wf(),
            h@.len() == HIST_BINS,
            forall|v: int| 0 <= v < HIST_BINS ==> h@[v] == count_peak(pop@.subrange(0, i as int), v),
    {
        let ghost h0 = h@;
        proof {
            assert(pop@.subrange(0, i + 1).drop_last() =~= pop@.subrange(0, i as int));
            assert(pop@.subrange(0, i + 1).last() == pop@[i as int]);
            lemma_count_peak_le(pop@.subrange(0, i as int), peak_of(pop@[i as int].status));
        }
        let pk: usize = match pop[i].status {
            crate::person::Status::Susceptible => 0,
            crate::person::Status::Infected { peak, .. } => peak as usize,
            crate::person::Status::Recovered { peak } => peak as usize,
            crate::person::Status::Dead { peak } => peak as usize,
        };
        assert(pk == peak_of(pop@[i as int].status));
        assert(pk < HIST_BINS);
        let cur = h[pk];
        h[pk] = cur + 1;
        proof {
            assert forall|v: int| 0 <= v < HIST_BINS implies h@[v] == count_peak(
                pop@.subrange(0, i + 1),
                v,
            ) by {
                if v != pk {
                    assert(h@[v] == h0[v]);
                }
            }
        }
    }
    proof {
        assert(pop@.subrange(0, n as int) =~= pop@);
    }
    h
}

} // verus!
