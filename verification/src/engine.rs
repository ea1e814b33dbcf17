//! The step engine: one person's daily update (severity progression,
//! mobility, grid deposit/check), the whole-population day step with its
//! end-of-day grid maintenance, and the packaged day-by-day simulation.
//!
//! The per-person update is deliberately split into small verified pieces so
//! that a caller running the population concurrently can hold a lock only
//! around the grid interaction.

use vstd::prelude::*;
use crate::config::{Config, DAY_LIMIT, MOBILITY_DEN};
use crate::city::{build_cities, build_population, per_unit, seed_infections, sum_city_sizes, City};
use crate::grid::{
    cell_at, grid_wf, has_key, level_at, maintained_cell, pending_at, ContaminationGrid,
    GridEntry, CELL_CAP,
};
use crate::lockdown::LockdownScheduler;
use crate::person::{progress_infection, step_ok, Person, Status};
use crate::stats::{count_peak, count_statuses, counts_of, peak_histogram, DayCounts, HIST_BINS};
use crate::walk::rand_step;
use crate::rng::{rand_below, rand_below_usize, rand_ratio};

verus! {

/// Cells whose level reached zero are pruned every this many days.
pub const PRUNE_PERIOD: u32 = 10;

/// Dice faces of the special-move draw: a face at or below the mobility
/// value means a jump, a face below `HOME_ROLL` means returning home.
pub const MOVE_DICE: u32 = 200;

/// See `MOVE_DICE`.
pub const HOME_ROLL: u32 = 50;

/// The mobility of an age bracket under a regime.
pub open spec fn mobility_of(cfg: Config, age: int, regime: int) -> u32 {
    cfg.age_vals[age].spec_mobility(regime)
}

/// Where a day's movement can start from: the old position, the person's
/// home, or some city centre.
pub open spec fn move_base(b: crate::geometry::Point, p: Person, cities: Seq<City>) -> bool {
    ||| b == p.posn
    ||| b == p.home
    ||| exists|ci: int| 0 <= ci < cities.len() && b == cities[ci].centre
}

/// One day's movement: with a chance growing in the mobility value, either
/// jump to a random city centre or return straight home; independently, walk
/// one biased step per axis toward home, the mobility value as the band.
/// Zero mobility moves nothing; otherwise the new position is at most one
/// step per axis off the old position, the home, or a city centre.
pub fn apply_mobility(p: &mut Person, mobility: u32, cfg: &Config, cities: &Vec<City>)
    requires
        old(p).wf(),
        cfg.wf(),
        mobility <= MOBILITY_DEN,
        cities@.len() >= 1,
        forall|i: int| 0 <= i < cities@.len() ==> (#[trigger] cities@[i]).wf(cfg.sz as int),
    ensures
        final(p).wf(),
        final(p).status == old(p).status,
        final(p).home == old(p).home,
        final(p).age == old(p).age,
        mobility == 0 ==> final(p).posn == old(p).posn,
        mobility < cfg.jump_threshold ==> {
            &&& -1 <= final(p).posn.x - old(p).posn.x <= 1
            &&& -1 <= final(p).posn.y - old(p).posn.y <= 1
        },
        exists|b: crate::geometry::Point|
            {
                &&& #[trigger] move_base(b, *old(p), cities@)
                &&& -1 <= final(p).posn.x - b.x <= 1
                &&& -1 <= final(p).posn.y - b.y <= 1
            },
{
    let mut base = p.posn;
    if mobility >= cfg.jump_threshold && rand_ratio(mobility, MOBILITY_DEN) {
        let dice = rand_below(MOVE_DICE);
        if dice <= mobility {
            let ci = rand_below_usize(cities.len());
            base = cities[ci].centre;
            proof {
                assert(move_base(base, *old(p), cities@));
            }
        } else if dice < HOME_ROLL {
            base = p.home;
        }
    }
    proof {
        assert(move_base(base, *old(p), cities@));
    }
    let sx = rand_step(base.x, p.home.x, mobility);
    let sy = rand_step(base.y, p.home.y, mobility);
    p.posn.x = base.x + sx;
    p.posn.y = base.y + sy;
    proof {
        assert(move_base(base, *old(p), cities@) && -1 <= sx as int <= 1 && -1 <= sy as int <= 1
            && p.posn.x == base.x + sx as int && p.posn.y == base.y + sy as int);
    }
}

/// The status a grid infection starts with on `day`.
pub open spec fn caught_status(cfg: Config, day: u32) -> Status {
    Status::Infected { since: day, severity: cfg.infect_severity, peak: cfg.infect_severity }
}

/// One day's grid interaction at the person's position. An infected person
/// past the non-infective window deposits its severity into the cell's
/// accumulator; a susceptible person reads the cell's level and catches the
/// infection exactly when the level exceeds the configured threshold. Cell
/// levels never change here, and accumulators never shrink.
pub fn grid_interact(p: &mut Person, grid: &mut ContaminationGrid, day: u32, cfg: &Config)
    requires
        old(p).wf(),
        old(grid).wf(),
        cfg.wf(),
        day <= DAY_LIMIT,
        old(p).status is Susceptible || old(p).status is Infected,
    ensures
        final(p).wf(),
        final(grid).wf(),
        final(p).posn == old(p).posn,
        final(p).home == old(p).home,
        final(p).age == old(p).age,
        step_ok(old(p).status, final(p).status),
        forall|a: int, b: int|
            level_at(final(grid).cells@, a, b) == level_at(old(grid).cells@, a, b),
        forall|a: int, b: int|
            pending_at(final(grid).cells@, a, b) >= pending_at(old(grid).cells@, a, b),
        old(p).status is Infected ==> *final(p) == *old(p),
        old(p).status matches Status::Infected { since, severity, .. } ==> {
            &&& (day > since + cfg.noninfective ==> pending_at(
                final(grid).cells@,
                old(p).posn.x as int,
                old(p).posn.y as int,
            ) == (if pending_at(old(grid).cells@, old(p).posn.x as int, old(p).posn.y as int)
                + severity < 255 {
                pending_at(old(grid).cells@, old(p).posn.x as int, old(p).posn.y as int)
                    + severity
            } else {
                pending_at(old(grid).cells@, old(p).posn.x as int, old(p).posn.y as int)
            }))
            &&& (day <= since + cfg.noninfective ==> final(grid).cells@ == old(grid).cells@)
        },
        old(p).status is Susceptible ==> {
            &&& final(grid).cells@ == old(grid).cells@
            &&& (level_at(old(grid).cells@, old(p).posn.x as int, old(p).posn.y as int)
                > cfg.cell_threshold ==> final(p).status == caught_status(*cfg, day))
            &&& (level_at(old(grid).cells@, old(p).posn.x as int, old(p).posn.y as int)
                <= cfg.cell_threshold ==> *final(p) == *old(p))
        },
        old(p).status is Susceptible && cfg.cell_threshold >= CELL_CAP
            ==> final(p).status is Susceptible,
{
    match p.status {
        Status::Infected { since, severity, .. } => {
            if day > since + cfg.noninfective {
                grid.deposit(p.posn.x, p.posn.y, severity as u8);
            }
        },
        Status::Susceptible => {
            let lv = grid.level_at(p.posn.x, p.posn.y);
            proof {
                crate::grid::lemma_grid_capped(grid.cells@);
            }
            if lv > cfg.cell_threshold {
                p.status = Status::Infected {
                    since: day,
                    severity: cfg.infect_severity,
                    peak: cfg.infect_severity,
                };
            }
        },
        _ => {},
    }
}

/// One person's whole daily update. An infected person progresses first;
/// anyone still susceptible or infected then moves and interacts with the
/// grid; the recovered and the dead are left untouched. Under a regime and
/// bracket whose mobility is zero, the position does not change.
pub fn update_person(
    p: &mut Person,
    grid: &mut ContaminationGrid,
    day: u32,
    regime: usize,
    cfg: &Config,
    cities: &Vec<City>,
)
    requires
        old(p).wf(),
        old(grid).wf(),
        cfg.wf(),
        day <= DAY_LIMIT,
        regime <= 1,
        cities@.len() >= 1,
        forall|i: int| 0 <= i < cities@.len() ==> (#[trigger] cities@[i]).wf(cfg.sz as int),
    ensures
        final(p).wf(),
        final(grid).wf(),
        final(p).home == old(p).home,
        final(p).age == old(p).age,
        step_ok(old(p).status, final(p).status),
        forall|a: int, b: int|
            level_at(final(grid).cells@, a, b) == level_at(old(grid).cells@, a, b),
        forall|a: int, b: int|
            pending_at(final(grid).cells@, a, b) >= pending_at(old(grid).cells@, a, b),
        mobility_of(*cfg, old(p).age as int, regime as int) == 0
            ==> final(p).posn == old(p).posn,
        old(p).status is Susceptible && cfg.cell_threshold >= CELL_CAP
            ==> final(p).status is Susceptible,
        (old(p).status is Recovered || old(p).status is Dead) ==> *final(p) == *old(p),
        old(p).status matches Status::Infected { since, .. } ==> {
            &&& (final(p).status is Infected && day > since + cfg.noninfective ==> pending_at(
                final(grid).cells@,
                final(p).posn.x as int,
                final(p).posn.y as int,
            ) == (if pending_at(old(grid).cells@, final(p).posn.x as int, final(p).posn.y as int)
                + final(p).status->severity < 255 {
                pending_at(old(grid).cells@, final(p).posn.x as int, final(p).posn.y as int)
                    + final(p).status->severity
            } else {
                pending_at(old(grid).cells@, final(p).posn.x as int, final(p).posn.y as int)
            }))
            &&& (day <= since + cfg.noninfective ==> final(grid).cells@ == old(grid).cells@)
            &&& (!(final(p).status is Infected) ==> final(grid).cells@ == old(grid).cells@)
        },
        old(p).status is Susceptible ==> {
            &&& final(grid).cells@ == old(grid).cells@
            &&& (level_at(old(grid).cells@, final(p).posn.x as int, final(p).posn.y as int)
                > cfg.cell_threshold ==> final(p).status == caught_status(*cfg, day))
            &&& (level_at(old(grid).cells@, final(p).posn.x as int, final(p).posn.y as int)
                <= cfg.cell_threshold ==> final(p).status is Susceptible)
        },
{
    let mobility = cfg.age_vals[p.age].mobility(regime);
    match p.status {
        Status::Susceptible => {
            apply_mobility(p, mobility, cfg, cities);
            grid_interact(p, grid, day, cfg);
        },
        Status::Infected { .. } => {
            progress_infection(p, day, cfg);
            if matches!(p.status, Status::Infected { .. }) {
                apply_mobility(p, mobility, cfg, cities);
                grid_interact(p, grid, day, cfg);
            }
        },
        _ => {},
    }
}

/// How a day transforms the grid: `mid` is the grid as the day's updates
/// left it (levels untouched, accumulators only grown), and the final grid
/// is `mid` after maintenance — every surviving cell is the maintained
/// image of its `mid` cell — with, on a prune day, exactly the cells whose
/// maintained level reached zero removed. Absent new deposits a level never
/// rises over the day.
pub open spec fn day_grid_rel(
    g0: Seq<GridEntry>,
    mid: Seq<GridEntry>,
    g1: Seq<GridEntry>,
    divisor: int,
    floor: int,
    day: int,
) -> bool {
    let pruned = day % (PRUNE_PERIOD as int) == 0;
    &&& grid_wf(mid)
    &&& forall|a: int, b: int| #[trigger] level_at(mid, a, b) == level_at(g0, a, b)
    &&& forall|a: int, b: int| #[trigger] pending_at(mid, a, b) >= pending_at(g0, a, b)
    &&& forall|a: int, b: int|
        #[trigger] has_key(g1, a, b) ==> has_key(mid, a, b) && cell_at(g1, a, b)
            == maintained_cell(cell_at(mid, a, b), divisor, floor)
    &&& (!pruned ==> forall|a: int, b: int| #[trigger] has_key(mid, a, b) ==> has_key(g1, a, b))
    &&& (pruned ==> forall|a: int, b: int|
        #[trigger] has_key(mid, a, b) ==> (has_key(g1, a, b) <==> maintained_cell(
            cell_at(mid, a, b),
            divisor,
            floor,
        ).level > 0))
    &&& forall|a: int, b: int|
        pending_at(mid, a, b) == 0 ==> #[trigger] level_at(g1, a, b) <= level_at(mid, a, b)
}

/// One simulated day over the whole population: select the regime, update
/// every person, count the statuses, then run the grid's end-of-day
/// maintenance and (periodically) its prune pass. The returned counts are
/// exact for the population as it stands after the day, and sum to its size.
pub fn step_day(
    pop: &mut Vec<Person>,
    grid: &mut ContaminationGrid,
    sched: &mut LockdownScheduler,
    cities: &Vec<City>,
    cfg: &Config,
    day: u32,
) -> (c: DayCounts)
    requires
        cfg.wf(),
        old(grid).wf(),
        old(sched).wf(),
        day <= DAY_LIMIT,
        cities@.len() >= 1,
        forall|i: int| 0 <= i < cities@.len() ==> (#[trigger] cities@[i]).wf(cfg.sz as int),
        forall|i: int| 0 <= i < old(pop)@.len() ==> (#[trigger] old(pop)@[i]).wf(),
    ensures
        final(pop)@.len() == old(pop)@.len(),
        forall|i: int| 0 <= i < final(pop)@.len() ==> (#[trigger] final(pop)@[i]).wf(),
        forall|i: int|
            0 <= i < final(pop)@.len() ==> step_ok(
                old(pop)@[i].status,
                (#[trigger] final(pop)@[i]).status,
            ),
        forall|i: int|
            0 <= i < final(pop)@.len() ==> (#[trigger] final(pop)@[i]).home == old(pop)@[i].home
                && final(pop)@[i].age == old(pop)@[i].age,
        final(grid).wf(),
        final(sched).wf(),
        final(sched).starts() == old(sched).starts(),
        final(sched).ends() == old(sched).ends(),
        counts_of(c, final(pop)@),
        c.susceptible + c.infected + c.recovered + c.dead == final(pop)@.len(),
        forall|a: int, b: int| pending_at(final(grid).cells@, a, b) == 0,
        forall|i: int|
            0 <= i < final(pop)@.len() && mobility_of(
                *cfg,
                old(pop)@[i].age as int,
                old(sched).spec_regime(day),
            ) == 0 ==> (#[trigger] final(pop)@[i]).posn == old(pop)@[i].posn,
        cfg.cell_threshold >= CELL_CAP ==> forall|i: int|
            0 <= i < final(pop)@.len() ==> ((#[trigger] old(pop)@[i]).status is Susceptible
                <==> final(pop)@[i].status is Susceptible),
        cfg.cell_threshold >= CELL_CAP ==> c.susceptible == crate::stats::count_susceptible(
            old(pop)@,
        ),
        exists|mid: Seq<GridEntry>|
            #[trigger] day_grid_rel(
                old(grid).cells@,
                mid,
                final(grid).cells@,
                cfg.decay_divisor as int,
                cfg.decay_floor as int,
                day as int,
            ),
{
    let regime = sched.regime(day);
    let ghost p0 = pop@;
    let ghost g0 = grid.cells@;
    let n = pop.len();
    for i in 0..n
        invariant
            n == pop@.len(),
            n == p0.len(),
            cfg.wf(),
            grid.wf(),
            day <= DAY_LIMIT,
            regime <= 1,
            cities@.len() >= 1,
            forall|j: int| 0 <= j < cities@.len() ==> (#[trigger] cities@[j]).wf(cfg.sz as int),
            forall|j: int| 0 <= j < n ==> (#[trigger] pop@[j]).wf(),
            forall|j: int| i <= j < n ==> pop@[j] == p0[j],
            forall|j: int|
                0 <= j < i ==> step_ok(p0[j].status, (#[trigger] pop@[j]).status),
            forall|j: int|
                0 <= j < i ==> (#[trigger] pop@[j]).home == p0[j].home && pop@[j].age
                    == p0[j].age,
            forall|j: int|
                0 <= j < i && mobility_of(*cfg, p0[j].age as int, regime as int) == 0
                    ==> (#[trigger] pop@[j]).posn == p0[j].posn,
            cfg.cell_threshold >= CELL_CAP ==> forall|j: int|
                0 <= j < i && p0[j].status is Susceptible
                    ==> (#[trigger] pop@[j]).status is Susceptible,
            forall|a: int, b: int| #[trigger] level_at(grid.cells@, a, b) == level_at(g0, a, b),
            forall|a: int, b: int|
                #[trigger] pending_at(grid.cells@, a, b) >= pending_at(g0, a, b),
    {
        let mut pers = pop[i];
        update_person(&mut pers, grid, day, regime, cfg, cities);
        pop[i] = pers;
    }
    let c = count_statuses(pop);
    proof {
        if cfg.cell_threshold >= CELL_CAP {
            assert forall|j: int|
                0 <= j < n implies ((#[trigger] p0[j]).status is Susceptible <==> pop@[j].status
                is Susceptible) by {
                assert(step_ok(p0[j].status, pop@[j].status));
            }
            crate::stats::lemma_count_susceptible_pointwise(p0, pop@);
        }
    }
    let ghost mid = grid.cells@;
    grid.maintain(cfg.decay_divisor, cfg.decay_floor);
    let ghost m2 = grid.cells@;
    if day % PRUNE_PERIOD == 0 {
        grid.prune();
    }
    proof {
        let g1 = grid.cells@;
        let divisor = cfg.decay_divisor as int;
        let floor = cfg.decay_floor as int;
        let pruned = day % PRUNE_PERIOD == 0;
        assert forall|a: int, b: int|
            #[trigger] has_key(g1, a, b) implies has_key(mid, a, b) && cell_at(g1, a, b)
            == maintained_cell(cell_at(mid, a, b), divisor, floor) by {
            if pruned {
                assert(has_key(m2, a, b) && cell_at(g1, a, b) == cell_at(m2, a, b));
            }
        }
        if pruned {
            assert forall|a: int, b: int|
                #[trigger] has_key(mid, a, b) implies (has_key(g1, a, b) <==> maintained_cell(
                cell_at(mid, a, b),
                divisor,
                floor,
            ).level > 0) by {
                assert(has_key(m2, a, b) && cell_at(m2, a, b) == maintained_cell(
                    cell_at(mid, a, b),
                    divisor,
                    floor,
                ));
            }
        }
        assert forall|a: int, b: int|
            pending_at(mid, a, b) == 0 implies #[trigger] level_at(g1, a, b) <= level_at(
            mid,
            a,
            b,
        ) by {
            if has_key(g1, a, b) {
                assert(cell_at(g1, a, b) == maintained_cell(cell_at(mid, a, b), divisor, floor));
                assert(level_at(m2, a, b) <= level_at(mid, a, b));
            }
        }
        assert(day_grid_rel(g0, mid, g1, divisor, floor, day as int));
    }
    c
}

/// Copy a day list.
fn copy_days(v: &Vec<u32>) -> (out: Vec<u32>)
    ensures
        out@ == v@,
{
    let mut out: Vec<u32> = Vec::new();
    let n = v.len();
    for i in 0..n
        invariant
            n == v@.len(),
            out@ =~= v@.subrange(0, i as int),
    {
        out.push(v[i]);
    }
    proof {
        assert(v@.subrange(0, n as int) =~= v@);
    }
    out
}

/// Everything a finished run reports: the per-day counts, the final
/// peak-severity histogram, and the final population.
pub struct SimResult {
    pub log: Vec<DayCounts>,
    pub hist: Vec<usize>,
    pub pop: Vec<Person>,
}

/// The whole simulation, sequentially: build the cities and the population,
/// seed the initial infections, then run the configured number of days. The
/// four counts of every logged day sum to the population size, and the
/// histogram is exact for the returned final population.
pub fn run_simulation(cfg: &Config) -> (r: SimResult)
    requires
        cfg.wf(),
    ensures
        r.log@.len() == cfg.n_steps,
        r.pop@.len() == cfg.n,
        forall|i: int| 0 <= i < r.pop@.len() ==> (#[trigger] r.pop@[i]).wf(),
        forall|d: int|
            0 <= d < r.log@.len() ==> (#[trigger] r.log@[d]).susceptible + r.log@[d].infected
                + r.log@[d].recovered + r.log@[d].dead == cfg.n,
        r.hist@.len() == HIST_BINS,
        forall|v: int| 0 <= v < HIST_BINS ==> r.hist@[v] == count_peak(r.pop@, v),
        cfg.cell_threshold >= CELL_CAP ==> forall|d: int|
            0 <= d < r.log@.len() ==> (#[trigger] r.log@[d]).susceptible
                == crate::stats::count_susceptible(r.pop@),
{
    let total = sum_city_sizes(&cfg.city_sizes);
    let perunit = per_unit(cfg.n, total);
    let cities = build_cities(cfg, perunit);
    let mut pop = build_population(cfg, &cities, perunit);
    seed_infections(&mut pop, cfg);
    let mut grid = ContaminationGrid::new();
    let mut sched = LockdownScheduler::new(
        copy_days(&cfg.lockdown_start),
        copy_days(&cfg.lockdown_end),
    );
    let mut log: Vec<DayCounts> = Vec::new();
    let mut day: u32 = 0;
    while day < cfg.n_steps
        invariant
            cfg.wf(),
            grid.wf(),
            sched.wf(),
            cities@.len() >= 1,
            forall|j: int| 0 <= j < cities@.len() ==> (#[trigger] cities@[j]).wf(cfg.sz as int),
            pop@.len() == cfg.n,
            forall|i: int| 0 <= i < pop@.len() ==> (#[trigger] pop@[i]).wf(),
            day <= cfg.n_steps,
            log@.len() == day,
            forall|d: int|
                0 <= d < log@.len() ==> (#[trigger] log@[d]).susceptible + log@[d].infected
                    + log@[d].recovered + log@[d].dead == cfg.n,
            cfg.cell_threshold >= CELL_CAP ==> forall|d: int|
                0 <= d < log@.len() ==> (#[trigger] log@[d]).susceptible
                    == crate::stats::count_susceptible(pop@),
        decreases cfg.n_steps - day,
    {
        let ghost pp = pop@;
        let c = step_day(&mut pop, &mut grid, &mut sched, &cities, cfg, day);
        proof {
            if cfg.cell_threshold >= CELL_CAP {
                crate::stats::lemma_count_susceptible_pointwise(pp, pop@);
            }
        }
        log.push(c);
        day = day + 1;
    }
    let hist = peak_histogram(&pop);
    SimResult { log, hist, pop }
}

} // verus!
