use vstd::arithmetic::div_mod::{
    lemma_fundamental_div_mod_converse, lemma_mod_add_multiples_vanish, lemma_small_mod,
};
use vstd::prelude::*;
use vstd::string::StringExecFns;

verus! {

/// The state of one grid position.
#[derive(Clone, Copy, Debug, PartialEq, Eq, Structural)]
pub enum Cell {
    Dead,
    Alive,
}

/// What a cell contributes to its neighbours' live count: one when alive, zero when dead.
pub open spec fn alive_value(c: Cell) -> int {
    match c {
        Cell::Dead => 0,
        Cell::Alive => 1,
    }
}

/// The opposite state.
pub open spec fn flip(c: Cell) -> Cell {
    match c {
        Cell::Dead => Cell::Alive,
        Cell::Alive => Cell::Dead,
    }
}

/// Whether the cell at linear index `i` is alive in a freshly built grid.
pub open spec fn seed_cell(i: int) -> Cell {
    if i % 2 == 0 || i % 7 == 0 {
        Cell::Alive
    } else {
        Cell::Dead
    }
}

/// The row-major position of `(row, column)` in a grid `width` cells wide.
pub open spec fn index_of(width: int, row: int, column: int) -> int {
    row * width + column
}

/// What the cell at `(row, column)` contributes to a count, both coordinates
/// taken modulo the grid's dimensions so that the grid wraps at every edge.
pub open spec fn live_at(cells: Seq<Cell>, width: int, height: int, row: int, column: int) -> int {
    alive_value(cells[index_of(width, row % height, column % width)])
}

/// The number of live cells among the eight that surround `(row, column)` on the torus.
pub open spec fn neighbor_count(
    cells: Seq<Cell>,
    width: int,
    height: int,
    row: int,
    column: int,
) -> int {
    let (w, h) = (width, height);
    live_at(cells, w, h, row - 1, column - 1)
        + live_at(cells, w, h, row - 1, column)
        + live_at(cells, w, h, row - 1, column + 1)
        + live_at(cells, w, h, row, column - 1)
        + live_at(cells, w, h, row, column + 1)
        + live_at(cells, w, h, row + 1, column - 1)
        + live_at(cells, w, h, row + 1, column)
        + live_at(cells, w, h, row + 1, column + 1)
}

/// The standard rule: a live cell survives with two or three live neighbours,
/// a dead cell comes alive with exactly three, and every other cell is dead.
pub open spec fn next_state(c: Cell, live_neighbors: int) -> Cell {
    match c {
        Cell::Alive => if live_neighbors == 2 || live_neighbors == 3 {
            Cell::Alive
        } else {
            Cell::Dead
        },
        Cell::Dead => if live_neighbors == 3 {
            Cell::Alive
        } else {
            Cell::Dead
        },
    }
}

/// The generation after `cells`: every cell's next state is computed from
/// the counts in `cells`, never from a cell that has already moved on.
pub open spec fn next_generation(cells: Seq<Cell>, width: int, height: int) -> Seq<Cell> {
    Seq::new(
        cells.len(),
        |i: int| next_state(cells[i], neighbor_count(cells, width, height, i / width, i % width)),
    )
}

/// The glyph that shows a cell in text.
pub open spec fn glyph(c: Cell) -> char {
    match c {
        Cell::Dead => '\u{25fb}',
        Cell::Alive => '\u{25fc}',
    }
}

/// The glyphs of the first `columns` cells of `row`.
pub open spec fn row_glyphs(cells: Seq<Cell>, width: int, row: int, columns: int) -> Seq<char> {
    Seq::new(columns as nat, |c: int| glyph(cells[index_of(width, row, c)]))
}

/// The first `rows` rows of the grid as text, each row's glyphs followed by a newline.
pub open spec fn rendered(cells: Seq<Cell>, width: int, rows: int) -> Seq<char>
    decreases rows,
{
    if rows <= 0 {
        Seq::empty()
    } else {
        rendered(cells, width, rows - 1) + row_glyphs(cells, width, rows - 1, width).push('\n')
    }
}

/// A position inside the grid has an index inside the buffer.
pub proof fn lemma_index_in_grid(width: int, height: int, row: int, column: int)
    requires
        0 <= row < height,
        0 <= column < width,
    ensures
        0 <= index_of(width, row, column) < width * height,
{
    assert(0 <= row * width + column < width * height) by (nonlinear_arith)
        requires
            0 <= row < height,
            0 <= column < width,
    ;
}

/// A wrapped coordinate always lands inside its dimension.
pub proof fn lemma_wrap_in_range(x: int, n: int)
    requires
        0 < n,
    ensures
        0 <= x % n < n,
{
}

/// A neighbour count is never above eight, however the grid is filled.
pub proof fn lemma_neighbor_count_bound(
    cells: Seq<Cell>,
    width: int,
    height: int,
    row: int,
    column: int,
)
    requires
        0 <= row < height,
        0 <= column < width,
        cells.len() == width * height,
    ensures
        0 <= neighbor_count(cells, width, height, row, column) <= 8,
{
}

/// When every cell is alive, every cell has eight live neighbours: the grid
/// wraps, so corners and edges have as many neighbours as the middle.
pub proof fn lemma_full_grid_neighbor_count(
    cells: Seq<Cell>,
    width: int,
    height: int,
    row: int,
    column: int,
)
    requires
        0 <= row < height,
        0 <= column < width,
        cells.len() == width * height,
        forall|i: int| 0 <= i < cells.len() ==> cells[i] == Cell::Alive,
    ensures
        neighbor_count(cells, width, height, row, column) == 8,
{
    assert forall|r: int, c: int| #[trigger] live_at(cells, width, height, r, c) == 1 by {
        lemma_wrap_in_range(r, height);
        lemma_wrap_in_range(c, width);
        lemma_index_in_grid(width, height, r % height, c % width);
    }
}

/// On a grid of a single cell, each of the eight neighbours is that cell itself.
pub proof fn lemma_single_cell_neighbor_count(cells: Seq<Cell>)
    requires
        cells.len() == 1,
    ensures
        neighbor_count(cells, 1, 1, 0, 0) == 8 * alive_value(cells[0]),
{
}

/// Flipping the same cell twice gives back the grid it started from.
pub proof fn lemma_toggle_twice(cells: Seq<Cell>, idx: int)
    requires
        0 <= idx < cells.len(),
    ensures
        ({
            let once = cells.update(idx, flip(cells[idx]));
            once.update(idx, flip(once[idx]))
        }) == cells,
{
    let once = cells.update(idx, flip(cells[idx]));
    assert(once.update(idx, flip(once[idx])) =~= cells);
}

/// A generation's cell at `(row, column)` follows the rule from that cell's
/// state and its neighbour count in the generation before.
pub proof fn lemma_next_generation_at(
    cells: Seq<Cell>,
    width: int,
    height: int,
    row: int,
    column: int,
)
    requires
        0 <= row < height,
        0 <= column < width,
        cells.len() == width * height,
    ensures
        next_generation(cells, width, height).len() == cells.len(),
        next_generation(cells, width, height)[index_of(width, row, column)] == next_state(
            cells[index_of(width, row, column)],
            neighbor_count(cells, width, height, row, column),
        ),
{
    lemma_index_in_grid(width, height, row, column);
    lemma_fundamental_div_mod_converse(index_of(width, row, column), width, row, column);
}

/// A Game of Life grid of fixed size whose edges wrap around, so that every
/// cell has exactly eight neighbours.
pub struct Universe {
    width: u32,
    height: u32,
    cells: Vec<Cell>,
}

impl View for Universe {
    type V = Seq<Cell>;

    /// The cells in row-major order.
    closed spec fn view(&self) -> Seq<Cell> {
        self.cells@
    }
}

impl Universe {
    /// The number of columns, fixed at construction.
    pub closed spec fn spec_width(&self) -> u32 {
        self.width
    }

    /// The number of rows, fixed at construction.
    pub closed spec fn spec_height(&self) -> u32 {
        self.height
    }

    /// The buffer holds one cell per grid position, and every index fits in a `u32`.
    pub open spec fn wf(&self) -> bool {
        &&& self@.len() == self.width() as int * self.height() as int
        &&& self.width() as int * self.height() as int <= u32::MAX
    }

    /// Builds a `width` by `height` grid; the cell at index `i` starts alive
    /// exactly when `i` is a multiple of 2 or of 7. A grid with a zero
    /// dimension is empty, and has no position to ask about.
    pub fn new(width: u32, height: u32) -> (r: Universe)
        requires
            width as int * height as int <= u32::MAX,
        ensures
            r.wf(),
            r.width() == width,
            r.height() == height,
            r@ == Seq::new((width * height) as nat, |i: int| seed_cell(i)),
    {
        let n: u32 = width * height;
        let mut cells: Vec<Cell> = Vec::new();
        let mut i: u32 = 0;
        while i < n
            invariant
                i <= n,
                cells@.len() == i,
                forall|j: int| 0 <= j < i ==> cells@[j] == seed_cell(j),
            decreases n - i,
        {
            let c = if i % 2 == 0 || i % 7 == 0 {
                Cell::Alive
            } else {
                Cell::Dead
            };
            cells.push(c);
            i = i + 1;
        }
        let r = Universe { width, height, cells };
        assert(r@ =~= Seq::new((width * height) as nat, |i: int| seed_cell(i)));
        r
    }

    /// Advances the grid by one generation. All next states are computed from
    /// the current buffer, which is then replaced as a whole.
    pub fn tick(&mut self)
        requires
            old(self).wf(),
        ensures
            final(self).wf(),
            final(self).width() == old(self).width(),
            final(self).height() == old(self).height(),
            final(self)@ == next_generation(
                old(self)@,
                old(self).width() as int,
                old(self).height() as int,
            ),
    {
        let ghost target = next_generation(self@, self.width as int, self.height as int);
        let mut next: Vec<Cell> = Vec::new();
        let mut row: u32 = 0;
        while row < self.height
            invariant
                self.wf(),
                target == next_generation(self@, self.width as int, self.height as int),
                row <= self.height,
                next@.len() == row * self.width,
                forall|j: int| 0 <= j < next@.len() ==> next@[j] == target[j],
            decreases self.height - row,
        {
            let mut column: u32 = 0;
            while column < self.width
                invariant
                    self.wf(),
                    target == next_generation(self@, self.width as int, self.height as int),
                    row < self.height,
                    column <= self.width,
                    next@.len() == row * self.width + column,
                    forall|j: int| 0 <= j < next@.len() ==> next@[j] == target[j],
                decreases self.width - column,
            {
                let index = self.get_index(row, column);
                proof {
                    lemma_fundamental_div_mod_converse(
                        index as int,
                        self.width as int,
                        row as int,
                        column as int,
                    );
                }
                let state = self.cells[index];
                let count = self.live_neighbor_count(row, column);
                let n = match (state, count) {
                    (Cell::Alive, 2) | (Cell::Alive, 3) => Cell::Alive,
                    (Cell::Alive, _) => Cell::Dead,
                    (Cell::Dead, 3) => Cell::Alive,
                    _ => Cell::Dead,
                };
                next.push(n);
                column = column + 1;
            }
            assert(next@.len() == (row + 1) * self.width) by (nonlinear_arith)
                requires
                    next@.len() == row * self.width + self.width,
            ;
            row = row + 1;
        }
        assert(next@.len() == target.len()) by (nonlinear_arith)
            requires
                next@.len() == self.height * self.width,
                target.len() == self.width * self.height,
        ;
        assert(next@ =~= target);
        self.cells = next;
    }

    /// The grid as text: one line per row, one glyph per cell.
    pub fn render(&self) -> (r: String)
        requires
            self.wf(),
        ensures
            r@ == rendered(self@, self.width() as int, self.height() as int),
    {
        let ghost w = self.width as int;
        let mut text = String::new();
        let mut row: u32 = 0;
        while row < self.height
            invariant
                self.wf(),
                w == self.width,
                row <= self.height,
                text@ == rendered(self@, w, row as int),
            decreases self.height - row,
        {
            let mut column: u32 = 0;
            while column < self.width
                invariant
                    self.wf(),
                    w == self.width,
                    row < self.height,
                    column <= self.width,
                    text@ == rendered(self@, w, row as int) + row_glyphs(
                        self@,
                        w,
                        row as int,
                        column as int,
                    ),
                decreases self.width - column,
            {
                let index = self.get_index(row, column);
                proof {
                    reveal_strlit("\u{25fb}");
                    reveal_strlit("\u{25fc}");
                }
                if self.cells[index] == Cell::Dead {
                    text.append("\u{25fb}");
                } else {
                    text.append("\u{25fc}");
                }
                assert(row_glyphs(self@, w, row as int, column + 1) =~= row_glyphs(
                    self@,
                    w,
                    row as int,
                    column as int,
                ).push(glyph(self@[index as int])));
                column = column + 1;
            }
            proof {
                reveal_strlit("\n");
            }
            text.append("\n");
            row = row + 1;
        }
        text
    }

    /// The cells in row-major order, for a host to draw from.
    pub fn cells(&self) -> (r: &[Cell])
        ensures
            r@ == self@,
    {
        self.cells.as_slice()
    }

    /// Flips the cell at linear index `idx` between dead and alive, leaving
    /// every other cell as it was.
    pub fn toggle_cell(&mut self, idx: usize)
        requires
            old(self).wf(),
            idx < old(self)@.len(),
        ensures
            final(self).wf(),
            final(self).width() == old(self).width(),
            final(self).height() == old(self).height(),
            final(self)@ == old(self)@.update(idx as int, flip(old(self)@[idx as int])),
    {
        let new_state = match self.cells[idx] {
            Cell::Dead => Cell::Alive,
            Cell::Alive => Cell::Dead,
        };
        self.cells.set(idx, new_state);
    }

    /// The number of columns.
    #[verifier::when_used_as_spec(spec_width)]
    pub fn width(&self) -> (r: u32)
        ensures
            r == self.width(),
    {
        self.width
    }

    /// The number of rows.
    #[verifier::when_used_as_spec(spec_height)]
    pub fn height(&self) -> (r: u32)
        ensures
            r == self.height(),
    {
        self.height
    }

    /// The row-major index of the cell at `(row, column)`.
    pub fn get_index(&self, row: u32, column: u32) -> (r: usize)
        requires
            self.wf(),
            row < self.height(),
            column < self.width(),
        ensures
            r == index_of(self.width() as int, row as int, column as int),
            r < self@.len(),
    {
        proof {
            lemma_index_in_grid(self.width as int, self.height as int, row as int, column as int);
        }
        (row * self.width + column) as usize
    }

    /// What the cell at `(row, column)` adds to a neighbour count.
    fn alive_value_at(&self, row: u32, column: u32) -> (r: u8)
        requires
            self.wf(),
            row < self.height(),
            column < self.width(),
        ensures
            r == alive_value(self@[index_of(self.width() as int, row as int, column as int)]),
    {
        match self.cells[self.get_index(row, column)] {
            Cell::Dead => 0,
            Cell::Alive => 1,
        }
    }

    /// The number of live cells among the eight around `(row, column)`, each
    /// neighbour's coordinates wrapped around the grid's edges. On a grid one
    /// cell wide or high, a cell is counted among its own neighbours.
    pub fn live_neighbor_count(&self, row: u32, column: u32) -> (r: u8)
        requires
            self.wf(),
            row < self.height(),
            column < self.width(),
        ensures
            r == neighbor_count(self@, self.width() as int, self.height() as int, row as int, column as int),
            r <= 8,
    {
        let w: u64 = self.width as u64;
        let h: u64 = self.height as u64;
        let up = ((row as u64 + h - 1) % h) as u32;
        let down = ((row as u64 + 1) % h) as u32;
        let left = ((column as u64 + w - 1) % w) as u32;
        let right = ((column as u64 + 1) % w) as u32;
        proof {
            lemma_mod_add_multiples_vanish(row - 1, h as int);
            lemma_mod_add_multiples_vanish(column - 1, w as int);
            lemma_small_mod(row as nat, h as nat);
            lemma_small_mod(column as nat, w as nat);
            lemma_wrap_in_range(row + 1, h as int);
            lemma_wrap_in_range(column + 1, w as int);
            lemma_wrap_in_range(row - 1, h as int);
            lemma_wrap_in_range(column - 1, w as int);
        }
        self.alive_value_at(up, left)
            + self.alive_value_at(up, column)
            + self.alive_value_at(up, right)
            + self.alive_value_at(row, left)
            + self.alive_value_at(row, right)
            + self.alive_value_at(down, left)
            + self.alive_value_at(down, column)
            + self.alive_value_at(down, right)
    }
}

} // verus!
