use vstd::prelude::*;

verus! {

/// One cell of the board: its fixed coordinates and whether it is alive.
#[derive(Debug, Clone, Copy, PartialEq, Eq, Structural)]
pub struct Creature {
    pub alive: bool,
    pub x: usize,
    pub y: usize,
}

/// The seeding policy: a draw of 0 or 2 gives a live cell, anything else a dead one.
pub open spec fn seed_is_alive(seed: i8) -> bool {
    seed == 0 || seed == 2
}

/// The live/dead states of a board of cells, row by row.
pub open spec fn states(m: Seq<Vec<Creature>>) -> Seq<Seq<bool>> {
    Seq::new(m.len(), |i: int| Seq::new(m[i]@.len(), |j: int| m[i]@[j].alive))
}

/// Every row is as long as the board has rows.
pub open spec fn is_square(g: Seq<Seq<bool>>) -> bool {
    forall|i: int| 0 <= i < g.len() ==> #[trigger] g[i].len() == g.len()
}

/// 1 when position (i, j) lies on the board and holds a live cell, else 0.
pub open spec fn live_at(g: Seq<Seq<bool>>, i: int, j: int) -> int {
    if 0 <= i < g.len() && 0 <= j < g[i].len() && g[i][j] {
        1
    } else {
        0
    }
}

/// Live cells among the eight Moore neighbours of (x, y), without wrapping at the edges.
pub open spec fn neighbor_count(g: Seq<Seq<bool>>, x: int, y: int) -> int {
    live_at(g, x - 1, y - 1) + live_at(g, x - 1, y) + live_at(g, x - 1, y + 1) + live_at(g, x, y - 1)
        + live_at(g, x, y + 1) + live_at(g, x + 1, y - 1) + live_at(g, x + 1, y) + live_at(
        g,
        x + 1,
        y + 1,
    )
}

/// The rule: three neighbours give life, two keep the current state, any other count kills.
pub open spec fn next_state(alive: bool, count: int) -> bool {
    if count == 3 {
        true
    } else if count == 2 {
        alive
    } else {
        false
    }
}

/// What a cell prints as: `[1]` when alive, `[0]` when dead.
pub open spec fn cell_text(alive: bool) -> Seq<char> {
    if alive {
        seq!['[', '1', ']']
    } else {
        seq!['[', '0', ']']
    }
}

/// 1 when the cell at (i, j) of `matrix` is alive, else 0.
fn live(matrix: &Vec<Vec<Creature>>, i: usize, j: usize) -> (r: u8)
    requires
        i < matrix@.len(),
        j < matrix@[i as int]@.len(),
    ensures
        r as int == live_at(states(matrix@), i as int, j as int),
{
    if matrix[i][j].alive {
        1
    } else {
        0
    }
}

impl Creature {
    /// A cell at (x, y) whose state comes from a seed draw.
    pub fn new(x: usize, y: usize, alive: i8) -> (r: Creature)
        ensures
            r.alive == seed_is_alive(alive),
            r.x == x,
            r.y == y,
    {
        Creature {
            alive: match alive {
                0 | 2 => true,
                _ => false,
            },
            x,
            y,
        }
    }

    /// Whether the cell is alive.
    pub fn is_alive(&self) -> (r: bool)
        ensures
            r == self.alive,
    {
        self.alive
    }

    /// Sets the cell's state; its position stays.
    pub fn set_alive(&mut self, alive: bool)
        ensures
            final(self).alive == alive,
            final(self).x == old(self).x,
            final(self).y == old(self).y,
    {
        self.alive = alive;
    }

    /// Applies the rule to this cell, counting its neighbours in the snapshot `matrix`.
    pub fn check_still_alive(&mut self, matrix: &Vec<Vec<Creature>>)
        requires
            matrix@.len() >= 1,
            is_square(states(matrix@)),
            old(self).x < matrix@.len(),
            old(self).y < matrix@.len(),
        ensures
            final(self).alive == next_state(
                old(self).alive,
                neighbor_count(states(matrix@), old(self).x as int, old(self).y as int),
            ),
            final(self).x == old(self).x,
            final(self).y == old(self).y,
    {
        match self.check_neighbors(matrix) {
            2 => {
                if self.alive {
                    self.set_alive(true)
                }
            },
            3 => {
                if !self.alive {
                    self.set_alive(true)
                }
            },
            _ => self.set_alive(false),
        };
    }

    /// Counts the live neighbours of this cell in the snapshot `matrix`.
    pub fn check_neighbors(&self, matrix: &Vec<Vec<Creature>>) -> (r: u8)
        requires
            matrix@.len() >= 1,
            is_square(states(matrix@)),
            self.x < matrix@.len(),
            self.y < matrix@.len(),
        ensures
            r as int == neighbor_count(states(matrix@), self.x as int, self.y as int),
            r <= 8,
    {
        let ghost g = states(matrix@);
        let n = matrix.len();
        let x = self.x;
        let y = self.y;
        proof {
            assert(g[x as int].len() == n);
            assert(x + 1 < n ==> g[x + 1].len() == n);
            assert(x > 0 ==> g[x - 1].len() == n);
        }
        let mut count: u8 = 0;
        if x > 0 {
            if y > 0 {
                count += live(matrix, x - 1, y - 1);
            }
            count += live(matrix, x - 1, y);
            if y + 1 < n {
                count += live(matrix, x - 1, y + 1);
            }
        }
        if y > 0 {
            count += live(matrix, x, y - 1);
        }
        if y + 1 < n {
            count += live(matrix, x, y + 1);
        }
        if x + 1 < n {
            if y > 0 {
                count += live(matrix, x + 1, y - 1);
            }
            count += live(matrix, x + 1, y);
            if y + 1 < n {
                count += live(matrix, x + 1, y + 1);
            }
        }
        count
    }

    /// The cell as text: `[1]` when alive, `[0]` when dead.
    pub fn to_text(&self) -> (r: String)
        ensures
            r@ == cell_text(self.alive),
    {
        if self.alive {
            let s = String::from_str("[1]");
            proof {
                reveal_strlit("[1]");
            }
            s
        } else {
            let s = String::from_str("[0]");
            proof {
                reveal_strlit("[0]");
            }
            s
        }
    }
}

/// A cell has between 0 and 8 live neighbours on a non-empty square board; a
/// corner cell has at most 3, and a cell on an edge but not in a corner at most 5.
pub proof fn lemma_neighbor_count_bounds(g: Seq<Seq<bool>>, x: int, y: int)
    requires
        g.len() >= 1,
        is_square(g),
        0 <= x < g.len(),
        0 <= y < g.len(),
    ensures
        0 <= neighbor_count(g, x, y) <= 8,
        (x == 0 || x == g.len() - 1) && (y == 0 || y == g.len() - 1) ==> neighbor_count(g, x, y)
            <= 3,
        (x == 0 || x == g.len() - 1 || y == 0 || y == g.len() - 1) ==> neighbor_count(g, x, y)
            <= 5,
{
}

/// The rule case by case: a dead cell with three live neighbours is born; two
/// live neighbours keep a dead cell dead and a live one alive; 0, 1 or 4 and
/// more neighbours leave the cell dead whatever its state.
pub proof fn lemma_rule_cases(alive: bool, count: int)
    requires
        0 <= count <= 8,
    ensures
        !alive && count == 3 ==> next_state(alive, count),
        !alive && count == 2 ==> !next_state(alive, count),
        alive && count == 2 ==> next_state(alive, count),
        count <= 1 || count >= 4 ==> !next_state(alive, count),
{
}

} // verus!
