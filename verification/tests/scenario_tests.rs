use episim::config::{AgeBracket, Config};
use episim::city::City;
use episim::engine::{run_simulation, step_day};
use episim::geometry::Point;
use episim::grid::ContaminationGrid;
use episim::lockdown::LockdownScheduler;
use episim::person::{Person, Status};
use episim::stats::HIST_BINS;

fn base_config() -> Config {
    Config {
        n: 100,
        sz: 50,
        age_dist: vec![0, 1, 2, 3, 4, 5, 6, 7, 0, 1, 2, 3, 4, 5, 6, 7],
        age_vals: vec![
            AgeBracket { mobility_normal: 0, mobility_lockdown: 0, fatal_severity: 100 };
            8
        ],
        city_sizes: vec![5; 27],
        start_seed: 1,
        seed_severity: 6,
        infect_severity: 1,
        n_steps: 10,
        lockdown_start: vec![1000],
        lockdown_end: vec![1000],
        to_peak: 5,
        cell_threshold: 0,
        jump_threshold: 1,
        noninfective: 0,
        decay_divisor: 2,
        decay_floor: 2,
        save_images: false,
        image_size: 64,
    }
}

fn colocated_population(n: usize, seeded: usize, cfg: &Config) -> Vec<Person> {
    let mut pop = Vec::new();
    for i in 0..n {
        let mut p = Person::new(0, 0, 0);
        if i < seeded {
            p.status = Status::Infected {
                since: 0,
                severity: cfg.seed_severity,
                peak: cfg.seed_severity,
            };
        }
        pop.push(p);
    }
    pop
}

fn one_city() -> Vec<City> {
    vec![City { centre: Point::new(0, 0), size: 1 }]
}

// With zero mobility, a zero contamination threshold and a zero
// non-infective window, one seeded infection contaminates its home cell and
// the infected share rises above its day-zero value within a few days.
#[test]
fn scenario_seeded_infection_spreads() {
    let cfg = base_config();
    let cities = one_city();
    let mut pop = colocated_population(100, 1, &cfg);
    let mut grid = ContaminationGrid::new();
    let mut sched = LockdownScheduler::new(vec![1000], vec![1000]);
    let day0 = step_day(&mut pop, &mut grid, &mut sched, &cities, &cfg, 0);
    assert_eq!(day0.infected, 1);
    assert_eq!(day0.susceptible, 99);
    // day 1: the seed deposits; the deposit becomes the level at day end
    step_day(&mut pop, &mut grid, &mut sched, &cities, &cfg, 1);
    assert!(grid.level_at(0, 0) > 0);
    // day 2: everyone on the contaminated cell catches the infection
    let day2 = step_day(&mut pop, &mut grid, &mut sched, &cities, &cfg, 2);
    assert!(day2.infected > day0.infected);
    assert_eq!(day2.susceptible, 0);
}

// A lockdown window with zero lockdown mobility freezes every agent: no
// displacement at all inside the window, while the days before it moved the
// population away from perfect rest.
#[test]
fn scenario_lockdown_freezes_movement() {
    let mut cfg = base_config();
    cfg.n = 200;
    cfg.age_vals = vec![
        AgeBracket { mobility_normal: 10, mobility_lockdown: 0, fatal_severity: 100 };
        8
    ];
    cfg.lockdown_start = vec![10];
    cfg.lockdown_end = vec![20];
    cfg.cell_threshold = 254;
    let cities = one_city();
    let mut pop = Vec::new();
    for i in 0..cfg.n {
        pop.push(Person::new((i % 50) as i32, (i / 50) as i32, 0));
    }
    let mut grid = ContaminationGrid::new();
    let mut sched = LockdownScheduler::new(vec![10], vec![20]);
    for day in 0..10 {
        step_day(&mut pop, &mut grid, &mut sched, &cities, &cfg, day);
    }
    let displacement_before: i64 = pop
        .iter()
        .map(|p| (p.posn.x - p.home.x).abs() as i64 + (p.posn.y - p.home.y).abs() as i64)
        .sum();
    let at_day_10: Vec<(i32, i32)> = pop.iter().map(|p| (p.posn.x, p.posn.y)).collect();
    for day in 10..20 {
        step_day(&mut pop, &mut grid, &mut sched, &cities, &cfg, day);
    }
    let at_day_20: Vec<(i32, i32)> = pop.iter().map(|p| (p.posn.x, p.posn.y)).collect();
    // inside the window nobody moved at all
    assert_eq!(at_day_10, at_day_20);
    // before the window the population did move off its homes
    assert!(displacement_before > 0);
}

// With the contamination threshold at the cap, no reachable level can exceed
// it: nobody beyond the seeded set ever catches the infection.
#[test]
fn scenario_unreachable_threshold_blocks_transmission() {
    let mut cfg = base_config();
    cfg.cell_threshold = 254;
    let cities = one_city();
    let mut pop = colocated_population(50, 1, &cfg);
    let mut grid = ContaminationGrid::new();
    let mut sched = LockdownScheduler::new(vec![1000], vec![1000]);
    for day in 0..10 {
        let c = step_day(&mut pop, &mut grid, &mut sched, &cities, &cfg, day);
        assert_eq!(c.susceptible, 49);
        assert_eq!(c.infected + c.recovered + c.dead, 1);
    }
}

// The packaged sequential run: a log entry per day whose counts conserve the
// population, and an exact histogram over the final population.
#[test]
fn run_simulation_reports_conserved_counts() {
    let mut cfg = base_config();
    cfg.age_vals = vec![
        AgeBracket { mobility_normal: 4, mobility_lockdown: 1, fatal_severity: 20 };
        8
    ];
    cfg.n_steps = 15;
    cfg.start_seed = 3;
    let r = run_simulation(&cfg);
    assert_eq!(r.log.len(), 15);
    assert_eq!(r.pop.len(), 100);
    for c in &r.log {
        assert_eq!(c.susceptible + c.infected + c.recovered + c.dead, 100);
    }
    assert_eq!(r.hist.len(), HIST_BINS);
    assert_eq!(r.hist.iter().sum::<usize>(), 100);
}

// Status only ever walks forward: across a long run no person returns to
// Susceptible after infection, and the dead stay dead.
#[test]
fn statuses_only_move_forward() {
    let mut cfg = base_config();
    cfg.age_vals = vec![
        AgeBracket { mobility_normal: 6, mobility_lockdown: 2, fatal_severity: 12 };
        8
    ];
    let cities = one_city();
    let mut pop = colocated_population(80, 4, &cfg);
    let mut grid = ContaminationGrid::new();
    let mut sched = LockdownScheduler::new(vec![5], vec![9]);
    let mut rank_before: Vec<u8> = pop
        .iter()
        .map(|p| match p.status {
            Status::Susceptible => 0,
            Status::Infected { .. } => 1,
            Status::Recovered { .. } => 2,
            Status::Dead { .. } => 2,
        })
        .collect();
    for day in 0..25 {
        step_day(&mut pop, &mut grid, &mut sched, &cities, &cfg, day);
        let rank_after: Vec<u8> = pop
            .iter()
            .map(|p| match p.status {
                Status::Susceptible => 0,
                Status::Infected { .. } => 1,
                Status::Recovered { .. } => 2,
                Status::Dead { .. } => 2,
            })
            .collect();
        for i in 0..pop.len() {
            assert!(rank_after[i] >= rank_before[i]);
        }
        rank_before = rank_after;
    }
}
