use episim::grid::{Cell, ContaminationGrid, CELL_CAP};

#[test]
fn cell_new_is_clean() {
    let c = Cell::new();
    assert_eq!(c.level, 0);
    assert_eq!(c.pending, 0);
}

#[test]
fn deposit_accumulates_pending_and_leaves_level() {
    let mut g = ContaminationGrid::new();
    assert_eq!(g.len(), 0);
    g.deposit(2, -3, 5);
    assert_eq!(g.len(), 1);
    assert_eq!(g.pending_at(2, -3), 5);
    assert_eq!(g.level_at(2, -3), 0);
    g.deposit(2, -3, 7);
    assert_eq!(g.pending_at(2, -3), 12);
    // an untouched coordinate reads as clean
    assert_eq!(g.level_at(0, 0), 0);
    assert_eq!(g.pending_at(0, 0), 0);
}

#[test]
fn deposit_never_exceeds_cap() {
    let mut g = ContaminationGrid::new();
    g.deposit(0, 0, 200);
    assert_eq!(g.pending_at(0, 0), 200);
    // 200 + 200 would pass 254, so the deposit is dropped
    g.deposit(0, 0, 200);
    assert_eq!(g.pending_at(0, 0), 200);
    // 200 + 54 == 254 < 255 still lands
    g.deposit(0, 0, 54);
    assert_eq!(g.pending_at(0, 0), CELL_CAP);
    // and from the cap nothing further lands
    g.deposit(0, 0, 1);
    assert_eq!(g.pending_at(0, 0), CELL_CAP);
    g.maintain(2, 2);
    assert!(g.level_at(0, 0) <= CELL_CAP);
    assert_eq!(g.level_at(0, 0), CELL_CAP);
}

#[test]
fn maintain_merges_then_decays() {
    let mut g = ContaminationGrid::new();
    g.deposit(1, 1, 8);
    g.maintain(2, 2);
    // decayed empty level is 0; pending 8 exceeds it and becomes the level
    assert_eq!(g.level_at(1, 1), 8);
    assert_eq!(g.pending_at(1, 1), 0);
    // 8 - 8/2 = 4
    g.maintain(2, 2);
    assert_eq!(g.level_at(1, 1), 4);
    // 4 - 4/2 = 2, at the floor so it stays
    g.maintain(2, 2);
    assert_eq!(g.level_at(1, 1), 2);
    // 2 - 2/2 = 1, below the floor: dissipates completely
    g.maintain(2, 2);
    assert_eq!(g.level_at(1, 1), 0);
}

#[test]
fn maintain_is_monotone_without_deposits() {
    let mut g = ContaminationGrid::new();
    g.deposit(4, 4, 100);
    g.maintain(2, 2);
    let mut prev = g.level_at(4, 4);
    for _ in 0..12 {
        g.maintain(2, 2);
        let cur = g.level_at(4, 4);
        assert!(cur <= prev);
        prev = cur;
    }
}

#[test]
fn prune_removes_exactly_the_spent_cells() {
    let mut g = ContaminationGrid::new();
    g.deposit(1, 0, 10);
    g.deposit(2, 0, 1);
    g.maintain(2, 2);
    // (1,0) holds 10, (2,0) held 1 which fell below the floor
    assert_eq!(g.level_at(1, 0), 10);
    g.maintain(2, 2);
    assert_eq!(g.level_at(2, 0), 0);
    assert_eq!(g.len(), 2);
    g.prune();
    assert_eq!(g.len(), 1);
    assert_eq!(g.level_at(1, 0), 5);
    assert_eq!(g.level_at(2, 0), 0);
}
