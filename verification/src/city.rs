//! The city model and population seeding: named spatial clusters whose
//! radius scales with the square root of their assigned population (area
//! proportional to population), plus the initial placement and infection
//! seeding of the whole population.

use vstd::prelude::*;
use crate::geometry::Point;
use crate::config::{sum_of, Config, AGE_DIST_LEN, GRID_LIMIT, POP_LIMIT};
use crate::person::{Person, Status};
use crate::rng::{rand_below, rand_below_usize};

verus! {

/// Largest city radius: the integer square root of any weight product the
/// configuration admits stays below this.
pub const SIZE_LIMIT: u32 = 23000000;

/// A named spatial cluster: a centre and a radius.
pub struct City {
    pub centre: Point,
    pub size: u32,
}

/// Floor integer square root.
pub fn isqrt(n: u64) -> (r: u64)
    ensures
        r * r <= n,
        n < (r + 1) * (r + 1),
{
    let mut r: u64 = 0;
    loop
        invariant_except_break
            r * r <= n,
            r <= n,
            r <= 0xFFFFFFFFu64,
        ensures
            r * r <= n,
            n < (r + 1) * (r + 1),
        decreases n - r,
    {
        let next: u128 = r as u128 + 1;
        proof {
            assert(next * next <= 0x10000000000000000u128) by (nonlinear_arith)
                requires next <= 0x100000000u128;
        }
        if next * next <= n as u128 {
            proof {
                assert(r + 1 <= (r + 1) * (r + 1)) by (nonlinear_arith)
                    requires r >= 0;
                assert(r + 1 <= 0xFFFFFFFFu64) by (nonlinear_arith)
                    requires (r + 1) * (r + 1) <= 0xFFFFFFFFFFFFFFFFu64 && r >= 0;
            }
            r = r + 1;
        } else {
            break;
        }
    }
    r
}

/// The radius a city of the given weight gets: the floor square root of
/// half of `weight * perunit` (so area scales with population), and at
/// least one unit.
pub open spec fn city_radius_ok(c: City, weight: u32, perunit: u32) -> bool {
    let q = weight as int * perunit as int / 2;
    &&& (q == 0 ==> c.size == 1)
    &&& (q >= 1 ==> {
        &&& c.size as int * c.size as int <= q
        &&& q < (c.size as int + 1) * (c.size as int + 1)
    })
}

impl City {
    /// Validity against the seeding extent `sz`.
    pub open spec fn wf(self, sz: int) -> bool {
        &&& 0 <= self.centre.x < sz
        &&& 0 <= self.centre.y < sz
        &&& 1 <= self.size <= SIZE_LIMIT
    }

    /// A city at a uniformly drawn centre, its radius the square root of
    /// half its population weight (so area scales with population), and at
    /// least one unit across.
    pub fn new(pop: u32, grid_sz: usize, perunit: u32) -> (c: City)
        requires
            1 <= grid_sz <= GRID_LIMIT,
            pop <= 1000000,
            perunit <= 1000000000,
        ensures
            c.wf(grid_sz as int),
            city_radius_ok(c, pop, perunit),
    {
        let x = rand_below_usize(grid_sz);
        let y = rand_below_usize(grid_sz);
        proof {
            assert(pop as int * perunit as int <= 1000000000000000) by (nonlinear_arith)
                requires pop <= 1000000u32 && perunit <= 1000000000u32;
        }
        let q: u64 = (pop as u64) * (perunit as u64) / 2;
        let root = isqrt(q);
        proof {
            assert(root * root <= q ==> root <= 23000000) by (nonlinear_arith)
                requires q <= 500000000000000u64;
            assert(q == 0 ==> root == 0) by (nonlinear_arith)
                requires root * root <= q && root >= 0;
        }
        let size: u32 = if root < 1 {
            1
        } else {
            root as u32
        };
        proof {
            assert(q >= 1 ==> root >= 1) by (nonlinear_arith)
                requires q < (root + 1) * (root + 1) && root >= 0;
            assert(root >= 1 ==> size as int == root as int);
            assert(root >= 1 ==> size as int * size as int == root as int * root as int)
                by (nonlinear_arith)
                requires root >= 1 ==> size as int == root as int;
        }
        City { centre: Point::new(x as i32, y as i32), size }
    }
}

/// Sum the city weights.
pub fn sum_city_sizes(sizes: &Vec<u32>) -> (t: u32)
    requires
        sizes@.len() <= 1000,
        forall|i: int| 0 <= i < sizes@.len() ==> sizes@[i] <= 1000000,
    ensures
        t as int == sum_of(sizes@),
{
    let mut t: u32 = 0;
    let n = sizes.len();
    for i in 0..n
        invariant
            n == sizes@.len(),
            n <= 1000,
            forall|j: int| 0 <= j < n ==> sizes@[j] <= 1000000,
            t as int == sum_of(sizes@.subrange(0, i as int)),
            t <= i * 1000000,
    {
        proof {
            assert(sizes@.subrange(0, i + 1).drop_last() =~= sizes@.subrange(0, i as int));
            assert(sizes@.subrange(0, i + 1).last() == sizes@[i as int]);
        }
        t = t + sizes[i];
    }
    proof {
        assert(sizes@.subrange(0, n as int) =~= sizes@);
    }
    t
}

/// The population weight one unit of city size stands for: eighty percent
/// of the population, divided by the total city weight.
pub fn per_unit(n: usize, total: u32) -> (p: u32)
    requires
        total >= 1,
        n <= POP_LIMIT,
    ensures
        p as int == n as int * 8 / 10 / total as int,
        p <= 1000000000,
{
    let p64: u64 = (n as u64) * 8 / 10 / (total as u64);
    proof {
        assert(n as int * 8 / 10 / total as int <= n as int * 8 / 10) by (nonlinear_arith)
            requires total as int >= 1 && n as int >= 0;
    }
    p64 as u32
}

/// Build all cities from the configured weights.
pub fn build_cities(cfg: &Config, perunit: u32) -> (cities: Vec<City>)
    requires
        cfg.wf(),
        perunit <= 1000000000,
    ensures
        cities@.len() == cfg.city_sizes@.len(),
        forall|i: int| 0 <= i < cities@.len() ==> (#[trigger] cities@[i]).wf(cfg.sz as int),
        forall|i: int|
            0 <= i < cities@.len() ==> city_radius_ok(
                #[trigger] cities@[i],
                cfg.city_sizes@[i],
                perunit,
            ),
{
    let mut cities: Vec<City> = Vec::new();
    let n = cfg.city_sizes.len();
    for i in 0..n
        invariant
            n == cfg.city_sizes@.len(),
            cfg.wf(),
            perunit <= 1000000000,
            cities@.len() == i,
            forall|j: int| 0 <= j < i ==> (#[trigger] cities@[j]).wf(cfg.sz as int),
            forall|j: int|
                0 <= j < i ==> city_radius_ok(
                    #[trigger] cities@[j],
                    cfg.city_sizes@[j],
                    perunit,
                ),
    {
        let c = City::new(cfg.city_sizes[i], cfg.sz, perunit);
        cities.push(c);
    }
    cities
}

/// Place the population: for each city, `weight * perunit` susceptible
/// persons uniformly over a square centred on the city; the remainder, up
/// to `n`, scattered uniformly over the whole extent. Ages cycle through
/// the age-distribution table.
pub fn build_population(cfg: &Config, cities: &Vec<City>, perunit: u32) -> (pop: Vec<Person>)
    requires
        cfg.wf(),
        perunit <= 1000000000,
        cities@.len() == cfg.city_sizes@.len(),
        forall|i: int| 0 <= i < cities@.len() ==> (#[trigger] cities@[i]).wf(cfg.sz as int),
    ensures
        pop@.len() == cfg.n,
        forall|i: int| 0 <= i < pop@.len() ==> (#[trigger] pop@[i]).wf(),
        forall|i: int| 0 <= i < pop@.len() ==> (#[trigger] pop@[i]).status is Susceptible,
        forall|i: int| 0 <= i < pop@.len() ==> (#[trigger] pop@[i]).posn == pop@[i].home,
        forall|i: int|
            0 <= i < pop@.len() ==> {
                &&& -(SIZE_LIMIT as int) <= (#[trigger] pop@[i]).home.x <= cfg.sz + SIZE_LIMIT
                &&& -(SIZE_LIMIT as int) <= pop@[i].home.y <= cfg.sz + SIZE_LIMIT
            },
        forall|i: int|
            0 <= i < pop@.len() ==> (#[trigger] pop@[i]).age == cfg.age_dist@[i % (
            AGE_DIST_LEN as int)],
{
    let mut pop: Vec<Person> = Vec::new();
    let nc = cities.len();
    for c in 0..nc
        invariant
            nc == cities@.len(),
            cfg.wf(),
            perunit <= 1000000000,
            cities@.len() == cfg.city_sizes@.len(),
            forall|i: int| 0 <= i < cities@.len() ==> (#[trigger] cities@[i]).wf(cfg.sz as int),
            pop@.len() <= cfg.n,
            forall|i: int| 0 <= i < pop@.len() ==> (#[trigger] pop@[i]).wf(),
            forall|i: int| 0 <= i < pop@.len() ==> (#[trigger] pop@[i]).status is Susceptible,
            forall|i: int| 0 <= i < pop@.len() ==> (#[trigger] pop@[i]).posn == pop@[i].home,
            forall|i: int|
                0 <= i < pop@.len() ==> {
                    &&& -(SIZE_LIMIT as int) <= (#[trigger] pop@[i]).home.x <= cfg.sz + SIZE_LIMIT
                    &&& -(SIZE_LIMIT as int) <= pop@[i].home.y <= cfg.sz + SIZE_LIMIT
                },
            forall|i: int|
                0 <= i < pop@.len() ==> (#[trigger] pop@[i]).age == cfg.age_dist@[i % (
                AGE_DIST_LEN as int)],
    {
        proof {
            assert(cfg.city_sizes@[c as int] as int * perunit as int <= 1000000000000000)
                by (nonlinear_arith)
                requires cfg.city_sizes@[c as int] <= 1000000u32 && perunit <= 1000000000u32;
        }
        let count: u64 = (cfg.city_sizes[c] as u64) * (perunit as u64);
        let city = &cities[c];
        let mut k: u64 = 0;
        while k < count && pop.len() < cfg.n
            invariant
                cfg.wf(),
                0 <= c < cities@.len(),
                cities@[c as int].wf(cfg.sz as int),
                city == cities@[c as int],
                pop@.len() <= cfg.n,
                forall|i: int| 0 <= i < pop@.len() ==> (#[trigger] pop@[i]).wf(),
                forall|i: int| 0 <= i < pop@.len() ==> (#[trigger] pop@[i]).status is Susceptible,
                forall|i: int| 0 <= i < pop@.len() ==> (#[trigger] pop@[i]).posn == pop@[i].home,
            forall|i: int|
                0 <= i < pop@.len() ==> {
                    &&& -(SIZE_LIMIT as int) <= (#[trigger] pop@[i]).home.x <= cfg.sz + SIZE_LIMIT
                    &&& -(SIZE_LIMIT as int) <= pop@[i].home.y <= cfg.sz + SIZE_LIMIT
                },
            forall|i: int|
                0 <= i < pop@.len() ==> (#[trigger] pop@[i]).age == cfg.age_dist@[i % (
                AGE_DIST_LEN as int)],
            decreases count - k,
        {
            let dx = rand_below(city.size);
            let dy = rand_below(city.size);
            let x = city.centre.x + dx as i32 - (city.size / 2) as i32;
            let y = city.centre.y + dy as i32 - (city.size / 2) as i32;
            let age_ix = (pop.len() % AGE_DIST_LEN) as usize;
            let p = Person::new(x, y, cfg.age_dist[age_ix]);
            pop.push(p);
            k = k + 1;
        }
    }
    while pop.len() < cfg.n
        invariant
            cfg.wf(),
            pop@.len() <= cfg.n,
            forall|i: int| 0 <= i < pop@.len() ==> (#[trigger] pop@[i]).wf(),
            forall|i: int| 0 <= i < pop@.len() ==> (#[trigger] pop@[i]).status is Susceptible,
            forall|i: int| 0 <= i < pop@.len() ==> (#[trigger] pop@[i]).posn == pop@[i].home,
            forall|i: int|
                0 <= i < pop@.len() ==> {
                    &&& -(SIZE_LIMIT as int) <= (#[trigger] pop@[i]).home.x <= cfg.sz + SIZE_LIMIT
                    &&& -(SIZE_LIMIT as int) <= pop@[i].home.y <= cfg.sz + SIZE_LIMIT
                },
            forall|i: int|
                0 <= i < pop@.len() ==> (#[trigger] pop@[i]).age == cfg.age_dist@[i % (
                AGE_DIST_LEN as int)],
        decreases cfg.n - pop@.len(),
    {
        let x = rand_below_usize(cfg.sz);
        let y = rand_below_usize(cfg.sz);
        let age_ix = pop.len() % AGE_DIST_LEN;
        let p = Person::new(x as i32, y as i32, cfg.age_dist[age_ix]);
        pop.push(p);
    }
    pop
}

/// The status a seeded infection starts with.
pub open spec fn seeded_status(cfg: Config) -> Status {
    Status::Infected { since: 0, severity: cfg.seed_severity, peak: cfg.seed_severity }
}

/// Force `start_seed` randomly drawn persons to Infected at day zero with
/// the configured seeding severity. The same person may be drawn twice; no
/// deduplication is attempted.
pub fn seed_infections(pop: &mut Vec<Person>, cfg: &Config)
    requires
        cfg.wf(),
        old(pop)@.len() >= 1,
        forall|i: int| 0 <= i < old(pop)@.len() ==> (#[trigger] old(pop)@[i]).wf(),
        forall|i: int|
            0 <= i < old(pop)@.len() ==> (#[trigger] old(pop)@[i]).status is Susceptible,
    ensures
        final(pop)@.len() == old(pop)@.len(),
        forall|i: int| 0 <= i < final(pop)@.len() ==> (#[trigger] final(pop)@[i]).wf(),
        forall|i: int|
            0 <= i < final(pop)@.len() ==> (#[trigger] final(pop)@[i] == old(pop)@[i]
                || final(pop)@[i] == (Person { status: seeded_status(*cfg), ..old(pop)@[i] })),
        forall|i: int|
            0 <= i < final(pop)@.len() ==> crate::person::step_ok(
                old(pop)@[i].status,
                (#[trigger] final(pop)@[i]).status,
            ),
        cfg.start_seed >= 1 ==> exists|i: int|
            0 <= i < final(pop)@.len() && (#[trigger] final(pop)@[i]).status == seeded_status(
                *cfg,
            ),
{
    let ghost p0 = pop@;
    let n = pop.len();
    for s in 0..cfg.start_seed
        invariant
            cfg.wf(),
            n == pop@.len(),
            n == p0.len(),
            n >= 1,
            forall|i: int| 0 <= i < p0.len() ==> (#[trigger] p0[i]).wf(),
            forall|i: int| 0 <= i < p0.len() ==> (#[trigger] p0[i]).status is Susceptible,
            forall|i: int|
                0 <= i < pop@.len() ==> (#[trigger] pop@[i] == p0[i] || pop@[i] == (Person {
                    status: seeded_status(*cfg),
                    ..p0[i]
                })),
            s >= 1 && cfg.start_seed >= 1 ==> exists|i: int|
                0 <= i < pop@.len() && (#[trigger] pop@[i]).status == seeded_status(*cfg),
    {
        let ix = rand_below_usize(n);
        let ghost before = pop@;
        let home = pop[ix].home;
        let posn = pop[ix].posn;
        let age = pop[ix].age;
        pop[ix] = Person {
            status: Status::Infected {
                since: 0,
                severity: cfg.seed_severity,
                peak: cfg.seed_severity,
            },
            posn,
            home,
            age,
        };
        proof {
            assert(pop@[ix as int] == Person { status: seeded_status(*cfg), ..p0[ix as int] });
            assert(pop@[ix as int].status == seeded_status(*cfg));
        }
    }
}

} // verus!
