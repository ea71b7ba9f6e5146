use rand::Rng;
use vstd::prelude::*;

use crate::creature::{
    cell_text, is_square, neighbor_count, next_state, seed_is_alive, states, Creature,
};

verus! {

/// Why a board could not be built.
#[derive(Debug, Clone, Copy, PartialEq, Eq, Structural)]
pub enum GridError {
    /// A board needs at least one row and one column.
    ZeroSize,
    /// The seed rows do not form a square.
    NotSquare,
}

/// A square board of cells, indexed `[x][y]`.
#[derive(Debug, Clone, PartialEq)]
pub struct Matrix {
    pub size: usize,
    pub grid: Vec<Vec<Creature>>,
}

/// The board after one generation: each cell of `cur` takes the rule's verdict on
/// its own state and its neighbour count in `snap`.
pub open spec fn next_generation(cur: Seq<Seq<bool>>, snap: Seq<Seq<bool>>) -> Seq<Seq<bool>> {
    Seq::new(
        cur.len(),
        |i: int| Seq::new(cur[i].len(), |j: int| next_state(cur[i][j], neighbor_count(snap, i, j))),
    )
}

/// Some cell of the board is alive.
pub open spec fn any_alive(g: Seq<Seq<bool>>) -> bool {
    exists|i: int, j: int| 0 <= i < g.len() && 0 <= j < g[i].len() && #[trigger] g[i][j]
}

/// No cell of the board is alive.
pub open spec fn all_dead(g: Seq<Seq<bool>>) -> bool {
    forall|i: int, j: int| 0 <= i < g.len() && 0 <= j < g[i].len() ==> !#[trigger] g[i][j]
}

/// One printed row: the cells' texts one after another.
pub open spec fn row_text(row: Seq<bool>) -> Seq<char>
    decreases row.len(),
{
    if row.len() == 0 {
        Seq::empty()
    } else {
        row_text(row.drop_last()) + cell_text(row.last())
    }
}

/// `[0]` written `n` times.
pub open spec fn dead_row_text(n: nat) -> Seq<char>
    decreases n,
{
    if n == 0 {
        Seq::empty()
    } else {
        dead_row_text((n - 1) as nat) + seq!['[', '0', ']']
    }
}

/// The cell at (i, j) of the next board: it kept its position and took the rule's verdict.
spec fn updated_cell(
    c: Creature,
    i: int,
    j: int,
    cur: Seq<Seq<bool>>,
    snap: Seq<Seq<bool>>,
) -> bool {
    c.x == i && c.y == j && c.alive == next_state(cur[i][j], neighbor_count(snap, i, j))
}

/// Every seed row is as long as there are rows.
pub open spec fn seeds_square(seeds: Seq<Vec<i8>>) -> bool {
    forall|i: int| 0 <= i < seeds.len() ==> #[trigger] seeds[i]@.len() == seeds.len()
}

/// The cell at (i, j) of a seeded board: its position and the state its seed gives.
spec fn seeded_cell(c: Creature, i: int, j: int, seeds: Seq<Vec<i8>>) -> bool {
    c.x == i && c.y == j && c.alive == seed_is_alive(seeds[i]@[j])
}

impl View for Matrix {
    type V = Seq<Seq<bool>>;

    open spec fn view(&self) -> Seq<Seq<bool>> {
        states(self.grid@)
    }
}

/// Relies on rand's `thread_rng` and `Rng::gen_range`: a draw from the inclusive
/// range 0..=4, which is not empty, lies in that range.
#[verifier::external_body]
fn draw_seed() -> (r: i8)
    ensures
        0 <= r <= 4,
{
    rand::thread_rng().gen_range(0..=4)
}

impl Matrix {
    /// The board is `size` by `size`, at least 1, and each cell knows its own position.
    pub open spec fn wf(&self) -> bool {
        &&& self.size >= 1
        &&& self.grid@.len() == self.size
        &&& forall|i: int| 0 <= i < self.size ==> #[trigger] self.grid@[i]@.len() == self.size
        &&& forall|i: int, j: int|
            0 <= i < self.size && 0 <= j < self.size ==> #[trigger] self.grid@[i]@[j].x == i
                && self.grid@[i]@[j].y == j
    }

    /// A board built from seed draws, `seeds[x][y]` for the cell at (x, y).
    /// The rows must form a non-empty square.
    pub fn from_seeds(seeds: &Vec<Vec<i8>>) -> (r: Result<Matrix, GridError>)
        ensures
            seeds@.len() == 0 ==> r == Err::<Matrix, GridError>(GridError::ZeroSize),
            seeds@.len() > 0 && !seeds_square(seeds@) ==> r == Err::<Matrix, GridError>(
                GridError::NotSquare,
            ),
            seeds@.len() > 0 && seeds_square(seeds@) ==> r is Ok,
            r matches Ok(m) ==> {
                &&& m.wf()
                &&& m.size == seeds@.len()
                &&& forall|i: int, j: int|
                    0 <= i < m.size && 0 <= j < m.size ==> #[trigger] m@[i][j] == seed_is_alive(
                        seeds@[i]@[j],
                    )
            },
    {
        let size = seeds.len();
        if size == 0 {
            return Err(GridError::ZeroSize);
        }
        let mut grid: Vec<Vec<Creature>> = Vec::new();
        let mut x: usize = 0;
        while x < size
            invariant
                size == seeds@.len(),
                x <= size,
                grid@.len() == x,
                forall|i: int| 0 <= i < x ==> #[trigger] seeds@[i]@.len() == size,
                forall|i: int| 0 <= i < x ==> #[trigger] grid@[i]@.len() == size,
                forall|i: int, j: int|
                    0 <= i < x && 0 <= j < size ==> seeded_cell(#[trigger] grid@[i]@[j], i, j, seeds@),
            decreases size - x,
        {
            if seeds[x].len() != size {
                return Err(GridError::NotSquare);
            }
            let mut row: Vec<Creature> = Vec::new();
            let mut y: usize = 0;
            while y < size
                invariant
                    size == seeds@.len(),
                    x < size,
                    seeds@[x as int]@.len() == size,
                    y <= size,
                    row@.len() == y,
                    forall|j: int| 0 <= j < y ==> seeded_cell(#[trigger] row@[j], x as int, j, seeds@),
                decreases size - y,
            {
                row.push(Creature::new(x, y, seeds[x][y]));
                y += 1;
            }
            let ghost old_grid = grid@;
            grid.push(row);
            proof {
                assert forall|i: int, j: int|
                    0 <= i < x && 0 <= j < size implies #[trigger] grid@[i]@[j] == old_grid[i]@[j] by {}
            }
            x += 1;
        }
        let m = Matrix { size, grid };
        proof {
            assert forall|i: int, j: int| 0 <= i < size && 0 <= j < size implies #[trigger] m@[i][j]
                == seed_is_alive(seeds@[i]@[j]) && m.grid@[i]@[j].x == i && m.grid@[i]@[j].y == j by {
                assert(seeded_cell(m.grid@[i]@[j], i, j, seeds@));
            }
        }
        Ok(m)
    }

    /// A `size` by `size` board whose cells are seeded by random draws in 0..=4.
    pub fn new(size: usize) -> (r: Result<Matrix, GridError>)
        ensures
            size == 0 <==> r is Err,
            r is Err ==> r == Err::<Matrix, GridError>(GridError::ZeroSize),
            r matches Ok(m) ==> m.wf() && m.size == size,
    {
        let mut seeds: Vec<Vec<i8>> = Vec::new();
        let mut x: usize = 0;
        while x < size
            invariant
                x <= size,
                seeds@.len() == x,
                forall|i: int| 0 <= i < x ==> #[trigger] seeds@[i]@.len() == size,
            decreases size - x,
        {
            let mut row: Vec<i8> = Vec::new();
            let mut y: usize = 0;
            while y < size
                invariant
                    y <= size,
                    row@.len() == y,
                decreases size - y,
            {
                row.push(draw_seed());
                y += 1;
            }
            seeds.push(row);
            x += 1;
        }
        Self::from_seeds(&seeds)
    }

    /// The board as text, one line per row `x`, each cell as `[1]` or `[0]`
    /// with no separator.
    pub fn render(&self) -> (r: Vec<String>)
        requires
            self.wf(),
        ensures
            r@.len() == self.size,
            forall|i: int| 0 <= i < self.size ==> #[trigger] r@[i]@ == row_text(self@[i]),
    {
        let n = self.size;
        let mut lines: Vec<String> = Vec::new();
        let mut x: usize = 0;
        while x < n
            invariant
                self.wf(),
                n == self.size,
                x <= n,
                lines@.len() == x,
                forall|i: int| 0 <= i < x ==> #[trigger] lines@[i]@ == row_text(self@[i]),
            decreases n - x,
        {
            let ghost cells = self@[x as int];
            assert(cells.len() == n) by {
                assert(self.grid@[x as int]@.len() == n);
            }
            let mut line = String::new();
            let mut y: usize = 0;
            while y < n
                invariant
                    self.wf(),
                    n == self.size,
                    x < n,
                    cells == self@[x as int],
                    cells.len() == n,
                    y <= n,
                    line@ == row_text(cells.take(y as int)),
                decreases n - y,
            {
                let text = self.grid[x][y].to_text();
                line.append(text.as_str());
                proof {
                    assert(cells.take(y + 1).drop_last() =~= cells.take(y as int));
                }
                y += 1;
            }
            proof {
                assert(cells.take(n as int) =~= cells);
            }
            lines.push(line);
            x += 1;
        }
        lines
    }

    /// Applies the rule to every cell, counting neighbours in the snapshot
    /// `ref_mat` only, so that all cells change as one. Returns whether any cell
    /// of the updated board is alive.
    pub fn update_matrix(&mut self, ref_mat: &Matrix) -> (r: bool)
        requires
            old(self).wf(),
            ref_mat.wf(),
            ref_mat.size == old(self).size,
        ensures
            final(self).wf(),
            final(self).size == old(self).size,
            final(self)@ == next_generation(old(self)@, ref_mat@),
            r == any_alive(final(self)@),
    {
        let n = self.size;
        let ghost cur = self@;
        let ghost snap = ref_mat@;
        proof {
            assert(is_square(snap)) by {
                assert forall|i: int| 0 <= i < snap.len() implies #[trigger] snap[i].len()
                    == snap.len() by {
                    assert(ref_mat.grid@[i]@.len() == n);
                }
            }
        }
        let mut grid: Vec<Vec<Creature>> = Vec::new();
        let mut still_alive = false;
        let mut x: usize = 0;
        while x < n
            invariant
                self.wf(),
                self.size == n,
                self@ == cur,
                ref_mat.wf(),
                ref_mat.size == n,
                ref_mat@ == snap,
                is_square(snap),
                x <= n,
                grid@.len() == x,
                forall|i: int| 0 <= i < x ==> #[trigger] grid@[i]@.len() == n,
                forall|i: int, j: int|
                    0 <= i < x && 0 <= j < n ==> updated_cell(#[trigger] grid@[i]@[j], i, j, cur, snap),
                still_alive == exists|i: int, j: int|
                    0 <= i < x && 0 <= j < n && #[trigger] grid@[i]@[j].alive,
            decreases n - x,
        {
            let mut row: Vec<Creature> = Vec::new();
            let mut y: usize = 0;
            while y < n
                invariant
                    self.wf(),
                    self.size == n,
                    self@ == cur,
                    ref_mat.wf(),
                    ref_mat.size == n,
                    ref_mat@ == snap,
                    is_square(snap),
                    x < n,
                    y <= n,
                    row@.len() == y,
                    forall|j: int| 0 <= j < y ==> updated_cell(#[trigger] row@[j], x as int, j, cur, snap),
                    grid@.len() == x,
                    forall|i: int| 0 <= i < x ==> #[trigger] grid@[i]@.len() == n,
                    forall|i: int, j: int|
                        0 <= i < x && 0 <= j < n ==> updated_cell(#[trigger] grid@[i]@[j], i, j, cur, snap),
                    still_alive == ((exists|i: int, j: int|
                        0 <= i < x && 0 <= j < n && #[trigger] grid@[i]@[j].alive) || (exists|
                        j: int,
                    | 0 <= j < y && #[trigger] row@[j].alive)),
                decreases n - y,
            {
                let mut c = self.grid[x][y];
                proof {
                    assert(self.grid@[x as int]@[y as int].x == x);
                    assert(cur[x as int][y as int] == c.alive);
                }
                c.check_still_alive(&ref_mat.grid);
                if c.is_alive() {
                    still_alive = true;
                }
                let ghost old_row = row@;
                row.push(c);
                proof {
                    assert forall|j: int| 0 <= j < y implies #[trigger] row@[j] == old_row[j] by {}
                    assert(row@[y as int] == c);
                    assert(updated_cell(c, x as int, y as int, cur, snap));
                    if still_alive && !(exists|i: int, j: int|
                        0 <= i < x && 0 <= j < n && #[trigger] grid@[i]@[j].alive) {
                        if !c.alive {
                            let j = choose|j: int| 0 <= j < y && #[trigger] old_row[j].alive;
                            assert(row@[j].alive);
                        }
                    }
                }
                y += 1;
            }
            let ghost old_grid = grid@;
            grid.push(row);
            proof {
                assert(grid@[x as int] == row);
                assert forall|i: int, j: int|
                    0 <= i < x && 0 <= j < n implies #[trigger] grid@[i]@[j] == old_grid[i]@[j] by {}
                if still_alive {
                    if exists|i: int, j: int| 0 <= i < x && 0 <= j < n && #[trigger] old_grid[i]@[j].alive {
                        let (i, j) = choose|i: int, j: int|
                            0 <= i < x && 0 <= j < n && #[trigger] old_grid[i]@[j].alive;
                        assert(grid@[i]@[j].alive);
                    } else {
                        let j = choose|j: int| 0 <= j < n && #[trigger] row@[j].alive;
                        assert(grid@[x as int]@[j].alive);
                    }
                }
            }
            x += 1;
        }
        self.grid = grid;
        proof {
            let ghost next = next_generation(cur, snap);
            assert forall|i: int| 0 <= i < n implies #[trigger] self@[i] =~= next[i] by {
                assert forall|j: int| 0 <= j < n implies self@[i][j] == next[i][j] by {
                    assert(updated_cell(grid@[i]@[j], i, j, cur, snap));
                }
            }
            assert(self@ =~= next);
            if still_alive {
                let (i, j) = choose|i: int, j: int|
                    0 <= i < n && 0 <= j < n && #[trigger] grid@[i]@[j].alive;
                assert(self@[i][j]);
            }
            if any_alive(self@) {
                let (i, j) = choose|i: int, j: int|
                    0 <= i < self@.len() && 0 <= j < self@[i].len() && #[trigger] self@[i][j];
                assert(grid@[i]@[j].alive);
            }
        }
        still_alive
    }
}

/// A board with no live cell, advanced against a copy of itself, has no live
/// cell either, so the advance reports extinction.
pub proof fn lemma_dead_board_stays_dead(g: Seq<Seq<bool>>)
    requires
        all_dead(g),
    ensures
        all_dead(next_generation(g, g)),
        !any_alive(next_generation(g, g)),
{
    let next = next_generation(g, g);
    assert forall|i: int, j: int| 0 <= i < next.len() && 0 <= j < next[i].len() implies !#[trigger] next[i][j] by {
        assert(neighbor_count(g, i, j) == 0);
    }
}

/// A row of dead cells prints as `[0]` once per cell.
pub proof fn lemma_dead_row_text(row: Seq<bool>)
    requires
        forall|k: int| 0 <= k < row.len() ==> !#[trigger] row[k],
    ensures
        row_text(row) == dead_row_text(row.len()),
    decreases row.len(),
{
    if row.len() > 0 {
        lemma_dead_row_text(row.drop_last());
    }
}

/// A square board of dead cells of side `n` prints as `n` lines, each `[0]`
/// written `n` times.
pub proof fn lemma_dead_board_text(g: Seq<Seq<bool>>)
    requires
        is_square(g),
        all_dead(g),
    ensures
        forall|i: int| 0 <= i < g.len() ==> #[trigger] row_text(g[i]) == dead_row_text(g.len()),
{
    assert forall|i: int| 0 <= i < g.len() implies #[trigger] row_text(g[i]) == dead_row_text(g.len()) by {
        assert forall|k: int| 0 <= k < g[i].len() implies !#[trigger] g[i][k] by {}
        lemma_dead_row_text(g[i]);
    }
}

} // verus!
