use episim::config::{AgeBracket, Config};
use episim::city::{isqrt, per_unit, sum_city_sizes, City};
use episim::geometry::Point;
use episim::lockdown::LockdownScheduler;
use episim::person::{Person, Status};
use episim::stats::{count_statuses, peak_histogram, percent_bp, HIST_BINS};
use episim::walk::rand_step;

fn valid_config() -> Config {
    Config {
        n: 100,
        sz: 50,
        age_dist: vec![0, 1, 2, 3, 4, 5, 6, 7, 0, 1, 2, 3, 4, 5, 6, 7],
        age_vals: vec![
            AgeBracket { mobility_normal: 10, mobility_lockdown: 0, fatal_severity: 100 };
            8
        ],
        city_sizes: vec![5; 27],
        start_seed: 1,
        seed_severity: 6,
        infect_severity: 1,
        n_steps: 10,
        lockdown_start: vec![10],
        lockdown_end: vec![20],
        to_peak: 5,
        cell_threshold: 0,
        jump_threshold: 1,
        noninfective: 0,
        decay_divisor: 2,
        decay_floor: 2,
        save_images: false,
        image_size: 64,
    }
}

#[test]
fn point_new_holds_coordinates() {
    let p = Point::new(-3, 7);
    assert_eq!(p.x, -3);
    assert_eq!(p.y, 7);
}

#[test]
fn person_new_is_susceptible_at_home() {
    let p = Person::new(4, -2, 3);
    assert!(matches!(p.status, Status::Susceptible));
    assert_eq!(p.posn.x, 4);
    assert_eq!(p.posn.y, -2);
    assert_eq!(p.home.x, 4);
    assert_eq!(p.home.y, -2);
    assert_eq!(p.age, 3);
}

#[test]
fn rand_step_returns_only_unit_steps() {
    for _ in 0..200 {
        let r = rand_step(5, 13, 30);
        assert!(r == -1 || r == 0 || r == 1);
    }
}

#[test]
fn rand_step_zero_band_never_moves() {
    for _ in 0..200 {
        assert_eq!(rand_step(42, 0, 0), 0);
    }
}

#[test]
fn rand_step_pulls_back_beyond_band() {
    for _ in 0..200 {
        let high = rand_step(100, 0, 30);
        assert!(high == -1 || high == 0);
        let low = rand_step(-100, 0, 30);
        assert!(low == 0 || low == 1);
    }
}

#[test]
fn isqrt_exact_values() {
    assert_eq!(isqrt(0), 0);
    assert_eq!(isqrt(1), 1);
    assert_eq!(isqrt(8), 2);
    assert_eq!(isqrt(9), 3);
    assert_eq!(isqrt(10), 3);
    assert_eq!(isqrt(1 << 40), 1 << 20);
}

#[test]
fn per_unit_exact_value() {
    // eighty percent of 100, split over total weight 8
    assert_eq!(per_unit(100, 8), 10);
    assert_eq!(per_unit(99, 8), 9);
}

#[test]
fn sum_city_sizes_exact() {
    assert_eq!(sum_city_sizes(&vec![1, 2, 3, 4]), 10);
    assert_eq!(sum_city_sizes(&vec![0]), 0);
}

#[test]
fn city_new_radius_is_square_root_of_half_weight() {
    let c = City::new(8, 10, 2);
    // 8 * 2 / 2 = 8, whose floor square root is 2
    assert_eq!(c.size, 2);
    assert!(c.centre.x >= 0 && c.centre.x < 10);
    assert!(c.centre.y >= 0 && c.centre.y < 10);
    // zero weight still gives a city at least one unit across
    let z = City::new(0, 10, 2);
    assert_eq!(z.size, 1);
}

#[test]
fn build_population_cycles_ages() {
    let cfg = valid_config();
    let total = sum_city_sizes(&cfg.city_sizes);
    let perunit = per_unit(cfg.n, total);
    let cities = episim::city::build_cities(&cfg, perunit);
    assert_eq!(cities.len(), cfg.city_sizes.len());
    let pop = episim::city::build_population(&cfg, &cities, perunit);
    assert_eq!(pop.len(), cfg.n);
    for (i, p) in pop.iter().enumerate() {
        assert_eq!(p.age, cfg.age_dist[i % cfg.age_dist.len()]);
        assert!(matches!(p.status, Status::Susceptible));
        assert_eq!(p.posn.x, p.home.x);
        assert_eq!(p.posn.y, p.home.y);
    }
}

#[test]
fn lockdown_scheduler_windows_and_cursor() {
    let mut s = LockdownScheduler::new(vec![10, 30], vec![20, 40]);
    assert_eq!(s.regime(5), 0);
    assert_eq!(s.regime(10), 1);
    assert_eq!(s.regime(19), 1);
    // day 20 is past the first window: normal, and the cursor advances
    assert_eq!(s.regime(20), 0);
    assert_eq!(s.regime(30), 1);
    assert_eq!(s.regime(39), 1);
    assert_eq!(s.regime(45), 0);
}

#[test]
fn count_statuses_conservation() {
    let mut pop = Vec::new();
    for i in 0..10 {
        let mut p = Person::new(i, i, 0);
        if i < 3 {
            p.status = Status::Infected { since: 0, severity: 2, peak: 2 };
        } else if i < 5 {
            p.status = Status::Recovered { peak: 4 };
        } else if i < 6 {
            p.status = Status::Dead { peak: 9 };
        }
        pop.push(p);
    }
    let c = count_statuses(&pop);
    assert_eq!(c.infected, 3);
    assert_eq!(c.recovered, 2);
    assert_eq!(c.dead, 1);
    assert_eq!(c.susceptible, 4);
    assert_eq!(c.susceptible + c.infected + c.recovered + c.dead, pop.len());
}

#[test]
fn percent_bp_two_decimals() {
    // 25 of 200 is 12.50 percent, i.e. 1250 basis points
    assert_eq!(percent_bp(25, 200), 1250);
    assert_eq!(percent_bp(0, 100), 0);
    assert_eq!(percent_bp(100, 100), 10000);
    assert_eq!(percent_bp(1, 3), 3333);
}

#[test]
fn peak_histogram_counts_peaks() {
    let mut pop = Vec::new();
    for i in 0..6 {
        let mut p = Person::new(i, i, 0);
        if i < 2 {
            p.status = Status::Dead { peak: 9 };
        } else if i < 3 {
            p.status = Status::Recovered { peak: 4 };
        } else if i < 4 {
            p.status = Status::Infected { since: 0, severity: 1, peak: 4 };
        }
        pop.push(p);
    }
    let h = peak_histogram(&pop);
    assert_eq!(h.len(), HIST_BINS);
    assert_eq!(h[9], 2);
    assert_eq!(h[4], 2);
    assert_eq!(h[0], 2); // the two susceptible persons never peaked
    assert_eq!(h.iter().sum::<usize>(), pop.len());
}

#[test]
fn progress_infection_at_fatal_threshold_leaves_infection() {
    // with the fatal threshold at 1 and severity 1, any non-negative step
    // kills and the only other outcome is recovery: the person can never
    // still be infected afterwards
    let mut cfg = valid_config();
    cfg.age_vals =
        vec![AgeBracket { mobility_normal: 0, mobility_lockdown: 0, fatal_severity: 1 }; 8];
    for _ in 0..50 {
        let mut p = Person::new(0, 0, 0);
        p.status = Status::Infected { since: 0, severity: 1, peak: 1 };
        episim::person::progress_infection(&mut p, 1, &cfg);
        match p.status {
            Status::Dead { peak } => assert!(peak >= 1),
            Status::Recovered { peak } => assert_eq!(peak, 1),
            _ => panic!("person left infected or reverted"),
        }
    }
}

#[test]
fn config_check_accepts_valid_and_rejects_invalid() {
    let good = valid_config();
    assert!(good.check());
    let mut bad = valid_config();
    bad.n = 0;
    assert!(!bad.check());
    let mut bad2 = valid_config();
    bad2.age_dist = vec![0; 15];
    assert!(!bad2.check());
    let mut bad3 = valid_config();
    bad3.lockdown_start = vec![30];
    bad3.lockdown_end = vec![20];
    assert!(!bad3.check());
}
