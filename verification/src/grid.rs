//! The contamination grid: a sparse mapping from integer coordinates to
//! cells. Infected agents deposit their severity into a cell's `pending`
//! accumulator; susceptible agents read the cell's `level`. At the end of a
//! day every level decays, the day's deposits are merged in, and `pending`
//! resets; periodically, cells whose level reached zero are pruned.
//!
//! Deposits are capped so that neither `level` nor `pending` can ever exceed
//! `CELL_CAP`.

use vstd::prelude::*;

verus! {

/// Largest value `level` or `pending` can ever hold: a deposit that would
/// push `pending` to 255 or beyond is dropped rather than wrapped.
pub const CELL_CAP: u8 = 254;

/// One grid cell: the current contamination level and the deposits
/// accumulated during the current day.
#[derive(Clone, Copy, PartialEq, Eq, Structural, Debug)]
pub struct Cell {
    pub level: u8,
    pub pending: u8,
}

impl Cell {
    pub fn new() -> (c: Cell)
        ensures
            c.level == 0,
            c.pending == 0,
    {
        Cell { level: 0, pending: 0 }
    }
}

/// A keyed entry of the sparse grid.
#[derive(Clone, Copy, PartialEq, Eq, Structural, Debug)]
pub struct GridEntry {
    pub x: i32,
    pub y: i32,
    pub cell: Cell,
}

/// Some entry carries the key `(x, y)`.
pub open spec fn has_key(s: Seq<GridEntry>, x: int, y: int) -> bool {
    exists|i: int| 0 <= i < s.len() && s[i].x == x && s[i].y == y
}

/// The index of the entry carrying `(x, y)` (meaningful under `has_key`
/// and unique keys).
pub open spec fn key_index(s: Seq<GridEntry>, x: int, y: int) -> int {
    choose|i: int| 0 <= i < s.len() && s[i].x == x && s[i].y == y
}

/// The cell at `(x, y)` (meaningful under `has_key`).
pub open spec fn cell_at(s: Seq<GridEntry>, x: int, y: int) -> Cell {
    s[key_index(s, x, y)].cell
}

/// The contamination level at `(x, y)`; an absent cell reads as zero.
pub open spec fn level_at(s: Seq<GridEntry>, x: int, y: int) -> int {
    if has_key(s, x, y) {
        cell_at(s, x, y).level as int
    } else {
        0
    }
}

/// The pending deposits at `(x, y)`; an absent cell reads as zero.
pub open spec fn pending_at(s: Seq<GridEntry>, x: int, y: int) -> int {
    if has_key(s, x, y) {
        cell_at(s, x, y).pending as int
    } else {
        0
    }
}

/// No two entries carry the same key.
pub open spec fn keys_unique(s: Seq<GridEntry>) -> bool {
    forall|i: int, j: int|
        0 <= i < j < s.len() ==> !(s[i].x == s[j].x && s[i].y == s[j].y)
}

/// Every cell respects the cap.
pub open spec fn cells_capped(s: Seq<GridEntry>) -> bool {
    forall|i: int|
        0 <= i < s.len() ==> s[i].cell.level <= CELL_CAP && s[i].cell.pending <= CELL_CAP
}

/// The grid's internal invariant.
pub open spec fn grid_wf(s: Seq<GridEntry>) -> bool {
    keys_unique(s) && cells_capped(s)
}

/// Under unique keys, an entry that carries `(x, y)` is the one `key_index`
/// picks.
pub proof fn lemma_key_index(s: Seq<GridEntry>, x: int, y: int, i: int)
    requires
        keys_unique(s),
        0 <= i < s.len(),
        s[i].x == x,
        s[i].y == y,
    ensures
        has_key(s, x, y),
        key_index(s, x, y) == i,
{
    assert(has_key(s, x, y));
    let j = key_index(s, x, y);
    if j < i {
        assert(!(s[j].x == s[i].x && s[j].y == s[i].y));
    } else if i < j {
        assert(!(s[i].x == s[j].x && s[i].y == s[j].y));
    }
}

/// Law: a well-formed grid never shows a level or an accumulator above the
/// cap, at any coordinate.
pub proof fn lemma_grid_capped(s: Seq<GridEntry>)
    requires
        grid_wf(s),
    ensures
        forall|a: int, b: int| 0 <= #[trigger] level_at(s, a, b) <= CELL_CAP,
        forall|a: int, b: int| 0 <= #[trigger] pending_at(s, a, b) <= CELL_CAP,
{
    assert forall|a: int, b: int|
        0 <= #[trigger] level_at(s, a, b) <= CELL_CAP && 0 <= pending_at(s, a, b)
            <= CELL_CAP by {
        if has_key(s, a, b) {
            let i = key_index(s, a, b);
            assert(0 <= i < s.len());
            assert(s[i].cell.level <= CELL_CAP && s[i].cell.pending <= CELL_CAP);
        }
    }
}

/// What one day's maintenance makes of a level: it decays by its own value
/// divided by `divisor`, dissipates to zero below `floor`, and is then
/// raised to `pending` if the day brought more than is left.
pub open spec fn decayed_level(level: int, divisor: int, floor: int) -> int {
    let d = level - level / divisor;
    if d < floor {
        0
    } else {
        d
    }
}

/// The whole cell after maintenance: the merged level, and an empty
/// accumulator.
pub open spec fn maintained_cell(c: Cell, divisor: int, floor: int) -> Cell {
    let d = decayed_level(c.level as int, divisor, floor);
    let merged = if c.pending > d {
        c.pending as int
    } else {
        d
    };
    Cell { level: merged as u8, pending: 0 }
}

/// Law: absent deposits, maintenance never raises a level.
pub proof fn lemma_decay_monotone(c: Cell, divisor: int, floor: int)
    requires
        divisor >= 1,
        c.pending == 0,
    ensures
        maintained_cell(c, divisor, floor).level <= c.level,
{
    assert(c.level as int / divisor >= 0) by (nonlinear_arith)
        requires divisor >= 1 && c.level as int >= 0;
}

/// Maintenance keeps a capped cell capped and empties its accumulator.
pub proof fn lemma_maintained_capped(c: Cell, divisor: int, floor: int)
    requires
        divisor >= 1,
        c.level <= CELL_CAP,
        c.pending <= CELL_CAP,
    ensures
        maintained_cell(c, divisor, floor).level <= CELL_CAP,
        maintained_cell(c, divisor, floor).pending == 0,
{
    assert(c.level as int / divisor >= 0) by (nonlinear_arith)
        requires divisor >= 1 && c.level as int >= 0;
}

/// The sparse shared contamination map.
pub struct ContaminationGrid {
    pub cells: Vec<GridEntry>,
}

impl ContaminationGrid {
    pub open spec fn wf(self) -> bool {
        grid_wf(self.cells@)
    }

    pub fn new() -> (g: ContaminationGrid)
        ensures
            g.wf(),
            g.cells@.len() == 0,
    {
        ContaminationGrid { cells: Vec::new() }
    }

    pub fn len(&self) -> (n: usize)
        ensures
            n == self.cells@.len(),
    {
        self.cells.len()
    }

    /// The index of the entry keyed `(x, y)`, if one exists.
    fn find(&self, x: i32, y: i32) -> (r: Option<usize>)
        requires
            self.wf(),
        ensures
            match r {
                Some(i) => has_key(self.cells@, x as int, y as int) && i < self.cells@.len()
                    && key_index(self.cells@, x as int, y as int) == i,
                None => !has_key(self.cells@, x as int, y as int),
            },
    {
        let n = self.cells.len();
        for i in 0..n
            invariant
                n == self.cells@.len(),
                grid_wf(self.cells@),
                forall|j: int|
                    0 <= j < i ==> !(self.cells@[j].x == x && self.cells@[j].y == y),
        {
            if self.cells[i].x == x && self.cells[i].y == y {
                proof {
                    lemma_key_index(self.cells@, x as int, y as int, i as int);
                }
                return Some(i);
            }
        }
        None
    }

    /// The contamination level at a coordinate; an absent cell reads as zero.
    pub fn level_at(&self, x: i32, y: i32) -> (lv: u8)
        requires
            self.wf(),
        ensures
            lv as int == level_at(self.cells@, x as int, y as int),
    {
        match self.find(x, y) {
            Some(i) => self.cells[i].cell.level,
            None => 0,
        }
    }

    /// The pending deposits at a coordinate; an absent cell reads as zero.
    pub fn pending_at(&self, x: i32, y: i32) -> (pd: u8)
        requires
            self.wf(),
        ensures
            pd as int == pending_at(self.cells@, x as int, y as int),
    {
        match self.find(x, y) {
            Some(i) => self.cells[i].cell.pending,
            None => 0,
        }
    }

    /// Deposit `amount` into the cell at `(x, y)`, creating it if absent.
    /// The deposit lands in `pending`; one that would push `pending` past
    /// `CELL_CAP` is dropped. Levels are untouched.
    pub fn deposit(&mut self, x: i32, y: i32, amount: u8)
        requires
            old(self).wf(),
        ensures
            final(self).wf(),
            forall|a: int, b: int|
                has_key(final(self).cells@, a, b) <==> (has_key(old(self).cells@, a, b) || (a
                    == x as int && b == y as int)),
            forall|a: int, b: int|
                level_at(final(self).cells@, a, b) == level_at(old(self).cells@, a, b),
            forall|a: int, b: int|
                !(a == x as int && b == y as int) ==> pending_at(final(self).cells@, a, b)
                    == pending_at(old(self).cells@, a, b),
            pending_at(final(self).cells@, x as int, y as int) == if pending_at(
                old(self).cells@,
                x as int,
                y as int,
            ) + amount < 255 {
                pending_at(old(self).cells@, x as int, y as int) + amount
            } else {
                pending_at(old(self).cells@, x as int, y as int)
            },
    {
        let ghost s0 = self.cells@;
        let i: usize = match self.find(x, y) {
            Some(i) => i,
            None => {
                let i = self.cells.len();
                self.cells.push(GridEntry { x, y, cell: Cell::new() });
                proof {
                    assert forall|p: int, q: int| 0 <= p < q < self.cells@.len() implies !(
                    self.cells@[p].x == self.cells@[q].x && self.cells@[p].y
                        == self.cells@[q].y) by {
                        if q < i {
                            assert(!(s0[p].x == s0[q].x && s0[p].y == s0[q].y));
                        } else {
                            assert(!has_key(s0, x as int, y as int));
                        }
                    }
                    lemma_key_index(self.cells@, x as int, y as int, i as int);
                }
                i
            },
        };
        let ghost s1 = self.cells@;
        let e = self.cells[i];
        let sum: u32 = (e.cell.pending as u32) + (amount as u32);
        if sum < 255 {
            self.cells[i] = GridEntry {
                cell: Cell { level: e.cell.level, pending: sum as u8 },
                ..e
            };
        }
        proof {
            let s2 = self.cells@;
            assert(s2.len() == s1.len());
            assert forall|j: int| 0 <= j < s2.len() implies s2[j].x == s1[j].x && s2[j].y
                == s1[j].y && s2[j].cell.level == s1[j].cell.level by {}
            // keys and levels are pointwise unchanged from s1; pending only
            // changed at index i, which carries (x, y).
            assert forall|a: int, b: int| has_key(s2, a, b) implies has_key(s1, a, b) by {
                let j = key_index(s2, a, b);
                assert(0 <= j < s1.len() && s1[j].x == a && s1[j].y == b);
            }
            assert forall|a: int, b: int| has_key(s1, a, b) implies has_key(s2, a, b) by {
                let j = key_index(s1, a, b);
                assert(0 <= j < s2.len() && s2[j].x == a && s2[j].y == b);
            }
            assert forall|a: int, b: int| has_key(s1, a, b) implies key_index(s1, a, b)
                == key_index(s2, a, b) && 0 <= key_index(s1, a, b) < s1.len() by {
                let j = key_index(s1, a, b);
                lemma_key_index(s2, a, b, j);
            }
            // relate s1 to s0 for the absent-key case (push)
            assert forall|a: int, b: int|
                has_key(s1, a, b) && !(a == x as int && b == y as int) implies has_key(s0, a, b)
                && cell_at(s0, a, b) == cell_at(s1, a, b) by {
                let j = key_index(s1, a, b);
                if j < s0.len() {
                    lemma_key_index(s0, a, b, j);
                }
            }
            assert forall|a: int, b: int| has_key(s0, a, b) implies has_key(s1, a, b)
                && cell_at(s1, a, b) == cell_at(s0, a, b) by {
                let j = key_index(s0, a, b);
                lemma_key_index(s1, a, b, j);
            }
        }
    }

    /// End-of-day maintenance: every cell's level decays, dissipates to zero
    /// below the floor, is raised to its pending deposits if those exceed
    /// what is left, and the accumulator resets.
    pub fn maintain(&mut self, divisor: u8, floor: u8)
        requires
            old(self).wf(),
            divisor >= 1,
        ensures
            final(self).wf(),
            final(self).cells@.len() == old(self).cells@.len(),
            forall|i: int|
                0 <= i < final(self).cells@.len() ==> {
                    &&& final(self).cells@[i].x == old(self).cells@[i].x
                    &&& final(self).cells@[i].y == old(self).cells@[i].y
                    &&& final(self).cells@[i].cell == maintained_cell(
                        old(self).cells@[i].cell,
                        divisor as int,
                        floor as int,
                    )
                },
            forall|i: int|
                0 <= i < final(self).cells@.len() && old(self).cells@[i].cell.pending == 0
                    ==> final(self).cells@[i].cell.level <= old(self).cells@[i].cell.level,
            forall|a: int, b: int|
                has_key(final(self).cells@, a, b) <==> has_key(old(self).cells@, a, b),
            forall|a: int, b: int|
                has_key(old(self).cells@, a, b) ==> cell_at(final(self).cells@, a, b)
                    == maintained_cell(
                    cell_at(old(self).cells@, a, b),
                    divisor as int,
                    floor as int,
                ),
            forall|a: int, b: int| pending_at(final(self).cells@, a, b) == 0,
            forall|a: int, b: int|
                pending_at(old(self).cells@, a, b) == 0 ==> level_at(final(self).cells@, a, b)
                    <= level_at(old(self).cells@, a, b),
    {
        let ghost s0 = self.cells@;
        let n = self.cells.len();
        for i in 0..n
            invariant
                n == self.cells@.len(),
                s0.len() == n,
                divisor >= 1,
                grid_wf(s0),
                forall|j: int|
                    i <= j < n ==> self.cells@[j] == s0[j],
                forall|j: int|
                    0 <= j < i ==> {
                        &&& self.cells@[j].x == s0[j].x
                        &&& self.cells@[j].y == s0[j].y
                        &&& self.cells@[j].cell == maintained_cell(
                            s0[j].cell,
                            divisor as int,
                            floor as int,
                        )
                    },
        {
            let e = self.cells[i];
            let mut lv: u8 = e.cell.level - e.cell.level / divisor;
            proof {
                assert(e.cell.level / divisor >= 0 && e.cell.level / divisor <= e.cell.level)
                    by (nonlinear_arith)
                    requires divisor >= 1 && e.cell.level >= 0;
            }
            if lv < floor {
                lv = 0;
            }
            if e.cell.pending > lv {
                lv = e.cell.pending;
            }
            self.cells[i] = GridEntry { cell: Cell { level: lv, pending: 0 }, ..e };
            proof {
                assert(self.cells@[i as int].cell == maintained_cell(
                    s0[i as int].cell,
                    divisor as int,
                    floor as int,
                ));
            }
        }
        proof {
            assert forall|i: int, j: int| 0 <= i < j < self.cells@.len() implies !(
            self.cells@[i].x == self.cells@[j].x && self.cells@[i].y == self.cells@[j].y) by {
                assert(!(s0[i].x == s0[j].x && s0[i].y == s0[j].y));
            }
            assert forall|i: int|
                0 <= i < self.cells@.len() implies self.cells@[i].cell.level <= CELL_CAP
                && self.cells@[i].cell.pending <= CELL_CAP by {
                lemma_maintained_capped(s0[i].cell, divisor as int, floor as int);
            }
            assert forall|i: int|
                0 <= i < self.cells@.len() && s0[i].cell.pending == 0 implies self.cells@[i].cell.level
                <= s0[i].cell.level by {
                lemma_decay_monotone(s0[i].cell, divisor as int, floor as int);
            }
            let s1 = self.cells@;
            assert forall|a: int, b: int| has_key(s1, a, b) implies has_key(s0, a, b)
                && key_index(s0, a, b) == key_index(s1, a, b) by {
                let j = key_index(s1, a, b);
                lemma_key_index(s0, a, b, j);
            }
            assert forall|a: int, b: int| has_key(s0, a, b) implies has_key(s1, a, b)
                && key_index(s0, a, b) == key_index(s1, a, b) by {
                let j = key_index(s0, a, b);
                lemma_key_index(s1, a, b, j);
            }
        }
    }

    /// Drop every cell whose level reached zero. Surviving cells keep their
    /// key and value; no key appears that was not there before.
    pub fn prune(&mut self)
        requires
            old(self).wf(),
        ensures
            final(self).wf(),
            forall|i: int| 0 <= i < final(self).cells@.len() ==> final(self).cells@[i].cell.level > 0,
            forall|a: int, b: int|
                has_key(old(self).cells@, a, b) && cell_at(old(self).cells@, a, b).level > 0
                    ==> has_key(final(self).cells@, a, b) && cell_at(final(self).cells@, a, b)
                    == cell_at(old(self).cells@, a, b),
            forall|a: int, b: int|
                has_key(final(self).cells@, a, b) ==> has_key(old(self).cells@, a, b)
                    && cell_at(final(self).cells@, a, b) == cell_at(old(self).cells@, a, b),
            forall|a: int, b: int|
                has_key(old(self).cells@, a, b) && cell_at(old(self).cells@, a, b).level == 0
                    ==> !has_key(final(self).cells@, a, b),
    {
        let ghost s0 = self.cells@;
        let n = self.cells.len();
        let mut out: Vec<GridEntry> = Vec::new();
        let mut i: usize = 0;
        while i < n
            invariant
                i <= n,
                n == self.cells@.len(),
                self.cells@ == s0,
                grid_wf(s0),
                forall|j: int| 0 <= j < out@.len() ==> out@[j].cell.level > 0,
                forall|j: int|
                    0 <= j < out@.len() ==> exists|k: int|
                        0 <= k < i && s0[k] == #[trigger] out@[j],
                forall|k: int|
                    0 <= k < i && s0[k].cell.level > 0 ==> has_key(out@, s0[k].x as int, s0[k].y as int)
                        && cell_at(out@, s0[k].x as int, s0[k].y as int) == s0[k].cell,
                keys_unique(out@),
            decreases n - i,
        {
            let e = self.cells[i];
            let ghost out0 = out@;
            if e.cell.level > 0 {
                proof {
                    assert forall|j: int| 0 <= j < out0.len() implies !(out0[j].x == e.x
                        && out0[j].y == e.y) by {
                        let k = choose|k: int| 0 <= k < i && s0[k] == out0[j];
                        assert(!(s0[k].x == s0[i as int].x && s0[k].y == s0[i as int].y));
                    }
                }
                out.push(e);
                proof {
                    assert(s0[i as int] == out@[out@.len() - 1]);
                    lemma_key_index(out@, e.x as int, e.y as int, out@.len() - 1);
                    assert forall|k: int|
                        0 <= k < i + 1 && s0[k].cell.level > 0 implies has_key(
                        out@,
                        s0[k].x as int,
                        s0[k].y as int,
                    ) && cell_at(out@, s0[k].x as int, s0[k].y as int) == s0[k].cell by {
                        if k < i {
                            let j = key_index(out0, s0[k].x as int, s0[k].y as int);
                            assert(out0[j] == out@[j]);
                            lemma_key_index(out@, s0[k].x as int, s0[k].y as int, j);
                        }
                    }
                }
            }
            proof {
                assert forall|j: int| 0 <= j < out@.len() implies exists|k: int|
                    0 <= k < i + 1 && s0[k] == #[trigger] out@[j] by {
                    if j < out0.len() {
                        let k = choose|k: int| 0 <= k < i && s0[k] == out0[j];
                        assert(out0[j] == out@[j]);
                        assert(0 <= k < i + 1 && s0[k] == out@[j]);
                    } else {
                        assert(s0[i as int] == out@[j]);
                        assert(0 <= i < i + 1 && s0[i as int] == out@[j]);
                    }
                }
            }
            i += 1;
        }
        self.cells = out;
        proof {
            let s1 = self.cells@;
            assert forall|a: int, b: int|
                has_key(s0, a, b) && cell_at(s0, a, b).level > 0 implies has_key(s1, a, b)
                && cell_at(s1, a, b) == cell_at(s0, a, b) by {
                let k = key_index(s0, a, b);
            }
            assert forall|a: int, b: int| has_key(s1, a, b) implies has_key(s0, a, b) && cell_at(
                s1,
                a,
                b,
            ) == cell_at(s0, a, b) by {
                let j = key_index(s1, a, b);
                let k = choose|k: int| 0 <= k < s0.len() && s0[k] == s1[j];
                lemma_key_index(s0, a, b, k);
            }
            assert forall|a: int, b: int|
                has_key(s0, a, b) && cell_at(s0, a, b).level == 0 implies !has_key(s1, a, b) by {
                if has_key(s1, a, b) {
                    let j = key_index(s1, a, b);
                }
            }
        }
    }
}

} // verus!
