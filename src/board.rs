use vstd::prelude::*;
use crate::chance::{choose_distinct, random_below, random_ratio};
use crate::line::{
    is_pow2, is_tile, lemma_settle_made_of, lemma_slid_line_tiles, made_of, pad4, settle,
    slid_line, slide_line, tiles_of,
};

verus! {

/// A direction in which all tiles slide.
#[derive(Clone, Copy, Debug, PartialEq, Eq, Structural)]
pub enum Direction {
    Up,
    Down,
    Left,
    Right,
}

/// Index, in row-major order, of the cell at position `pos` of line `line` when sliding
/// toward `d`; position `0` is the cell nearest the destination edge.
pub open spec fn cell_index(d: Direction, line: int, pos: int) -> int {
    match d {
        Direction::Left => line * 4 + pos,
        Direction::Right => line * 4 + (3 - pos),
        Direction::Up => pos * 4 + line,
        Direction::Down => (3 - pos) * 4 + line,
    }
}

/// The line that holds cell `i` when sliding toward `d`.
pub open spec fn line_no(d: Direction, i: int) -> int {
    match d {
        Direction::Left | Direction::Right => i / 4,
        Direction::Up | Direction::Down => i % 4,
    }
}

/// The position of cell `i` within its line when sliding toward `d`.
pub open spec fn pos_no(d: Direction, i: int) -> int {
    match d {
        Direction::Left => i % 4,
        Direction::Right => 3 - i % 4,
        Direction::Up => i / 4,
        Direction::Down => 3 - i / 4,
    }
}

/// Line `l` of grid `g`, read from the destination edge of `d` inward.
pub open spec fn line_of(g: Seq<u32>, d: Direction, l: int) -> Seq<u32> {
    Seq::new(4, |p: int| g[cell_index(d, l, p)])
}

/// Grid `g` after every line slides toward `d`.
pub open spec fn slid_grid(g: Seq<u32>, d: Direction) -> Seq<u32> {
    Seq::new(16, |i: int| slid_line(line_of(g, d, line_no(d, i)))[pos_no(d, i)])
}

/// Every cell holds `0` or a power of two from `2` up.
pub open spec fn all_tiles(g: Seq<u32>) -> bool {
    g.len() == 16 && forall|i: int| 0 <= i < 16 ==> is_tile(#[trigger] g[i])
}


/// A cell of `g` holds `2048`.
pub open spec fn has_2048(g: Seq<u32>) -> bool {
    exists|i: int| 0 <= i < 16 && g[i] == 2048
}

/// Every cell of `g` holds a tile.
pub open spec fn is_full(g: Seq<u32>) -> bool {
    forall|i: int| 0 <= i < 16 ==> g[i] != 0
}

/// Two orthogonally adjacent cells of `g` hold the same value: cell `i` and its right
/// neighbour in the same row, or cell `i` and the cell below it.
pub open spec fn has_equal_neighbours(g: Seq<u32>) -> bool {
    exists|i: int|
        0 <= i < 16 && ((i % 4 < 3 && #[trigger] g[i] == g[i + 1]) || (i < 12 && g[i] == g[i + 4]))
}

/// The grid is full and no two orthogonally adjacent cells are equal.
pub open spec fn is_lost(g: Seq<u32>) -> bool {
    is_full(g) && !has_equal_neighbours(g)
}

/// Sum of the cells of `g`.
pub open spec fn sum_cells(g: Seq<u32>) -> int
    decreases g.len(),
{
    if g.len() == 0 {
        0
    } else {
        sum_cells(g.drop_last()) + g.last()
    }
}

/// Indices of the empty cells among the first `n` cells of `g`, in increasing order.
pub open spec fn empties_upto(g: Seq<u32>, n: int) -> Seq<int>
    decreases n,
{
    if n <= 0 {
        Seq::empty()
    } else if g[n - 1] == 0 {
        empties_upto(g, n - 1).push(n - 1)
    } else {
        empties_upto(g, n - 1)
    }
}

/// Indices of the empty cells of `g`, in increasing order.
pub open spec fn empty_cells(g: Seq<u32>) -> Seq<int> {
    empties_upto(g, 16)
}

/// An empty grid with `2` in cells `a` and `b`.
pub open spec fn seeded(a: int, b: int) -> Seq<u32> {
    Seq::new(16, |i: int| 0u32).update(a, 2).update(b, 2)
}

/// `g` is an empty grid with `2` in two distinct cells.
pub open spec fn is_fresh(g: Seq<u32>) -> bool {
    exists|a: int, b: int| 0 <= a < 16 && 0 <= b < 16 && a != b && g == #[trigger] seeded(a, b)
}

/// `after` is `before` with a new tile written into one of its empty cells, or `before`
/// itself when it has no empty cell.
pub open spec fn spawned(before: Seq<u32>, after: Seq<u32>) -> bool {
    if is_full(before) {
        after == before
    } else {
        exists|k: int, four: bool|
            0 <= k < empty_cells(before).len() && after == #[trigger] before.update(
                empty_cells(before)[k],
                spawn_value(four),
            )
    }
}

/// The value that a spawn writes: `4` when `four`, else `2`.
pub open spec fn spawn_value(four: bool) -> u32 {
    if four { 4 } else { 2 }
}

proof fn lemma_empties_upto(g: Seq<u32>, n: int)
    requires
        0 <= n <= g.len(),
    ensures
        empties_upto(g, n).len() <= n,
        empties_upto(g, n).len() == 0 <==> forall|i: int| 0 <= i < n ==> g[i] != 0,
        forall|k: int|
            0 <= k < empties_upto(g, n).len() ==> 0 <= #[trigger] empties_upto(g, n)[k] < n
                && g[empties_upto(g, n)[k]] == 0,
    decreases n,
{
    if n > 0 {
        lemma_empties_upto(g, n - 1);
    }
}

proof fn lemma_small_tiles()
    ensures
        is_tile(2),
        is_tile(4),
        is_tile(0),
{
    assert(is_pow2(1));
    assert(is_pow2(2));
    assert(is_pow2(4));
}

proof fn lemma_index_roundtrip(d: Direction)
    ensures
        forall|i: int|
            0 <= i < 16 ==> 0 <= #[trigger] line_no(d, i) < 4 && 0 <= pos_no(d, i) < 4
                && cell_index(d, line_no(d, i), pos_no(d, i)) == i,
        forall|l: int, p: int|
            0 <= l < 4 && 0 <= p < 4 ==> 0 <= #[trigger] cell_index(d, l, p) < 16
                && line_no(d, cell_index(d, l, p)) == l && pos_no(d, cell_index(d, l, p)) == p,
{
}

/// Sliding a grid slides each of its lines on its own: line `l` of the result is line
/// `l` of `g` slid, and in it every tile of the line is merged at most once, with one
/// equal neighbour.
pub proof fn lemma_slide_merges_each_tile_once(g: Seq<u32>, d: Direction, l: int)
    requires
        g.len() == 16,
        0 <= l < 4,
    ensures
        line_of(slid_grid(g, d), d, l) == pad4(settle(line_of(g, d, l)).0),
        made_of(tiles_of(line_of(g, d, l)), settle(line_of(g, d, l)).0),
{
    lemma_index_roundtrip(d);
    lemma_settle_made_of(line_of(g, d, l));
    assert(line_of(slid_grid(g, d), d, l) =~= slid_line(line_of(g, d, l)));
}

/// Every operation that changes the board keeps each cell `0` or a power of two from `2` up.
pub proof fn lemma_tiles_kept(g: Seq<u32>, d: Direction, k: int, four: bool)
    requires
        all_tiles(g),
    ensures
        all_tiles(slid_grid(g, d)),
        0 <= k < empty_cells(g).len() ==> all_tiles(g.update(empty_cells(g)[k], spawn_value(four))),
{
    lemma_index_roundtrip(d);
    assert forall|i: int| 0 <= i < 16 implies is_tile(#[trigger] slid_grid(g, d)[i]) by {
        lemma_slid_line_tiles(line_of(g, d, line_no(d, i)));
    }
    lemma_empties_upto(g, 16);
    lemma_small_tiles();
}

/// The 4×4 grid of the game, held row by row.
pub struct Board {
    cells: [u32; 16],
}

impl View for Board {
    type V = Seq<u32>;

    closed spec fn view(&self) -> Seq<u32> {
        self.cells@
    }
}

/// A board always has sixteen cells.
pub broadcast proof fn lemma_board_len(b: &Board)
    ensures
        #[trigger] b@.len() == 16,
{
}

impl Board {
    /// An empty board.
    pub fn new() -> (r: Board)
        ensures
            r@ == Seq::new(16, |i: int| 0u32),
            all_tiles(r@),
    {
        let r = Board { cells: [0u32; 16] };
        assert(r@ =~= Seq::new(16, |i: int| 0u32));
        r
    }

    /// The value of the cell at `row`, `col`.
    pub fn cell(&self, row: usize, col: usize) -> (r: u32)
        requires
            row < 4,
            col < 4,
        ensures
            r == self@[row * 4 + col],
    {
        self.cells[row * 4 + col]
    }

    /// Sets the cell at `row`, `col` to `value`, which must be a tile value.
    pub fn set(&mut self, row: usize, col: usize, value: u32)
        requires
            row < 4,
            col < 4,
            is_tile(value),
        ensures
            final(self)@ == old(self)@.update(row * 4 + col, value),
            all_tiles(old(self)@) ==> all_tiles(final(self)@),
    {
        self.cells[row * 4 + col] = value;
    }

    /// Empties every cell.
    pub fn clear(&mut self)
        ensures
            final(self)@ == Seq::new(16, |i: int| 0u32),
            all_tiles(final(self)@),
    {
        proof { lemma_small_tiles(); }
        self.cells = [0u32; 16];
        assert(self@ =~= Seq::new(16, |i: int| 0u32));
    }

    /// A copy of the grid, row by row.
    pub fn snapshot(&self) -> (r: [[u32; 4]; 4])
        ensures
            forall|row: int, col: int| 0 <= row < 4 && 0 <= col < 4 ==> #[trigger] r[row][col] == self@[row * 4 + col],
    {
        let c = &self.cells;
        [
            [c[0], c[1], c[2], c[3]],
            [c[4], c[5], c[6], c[7]],
            [c[8], c[9], c[10], c[11]],
            [c[12], c[13], c[14], c[15]],
        ]
    }

    /// Every cell as `(row, col, value)`, row by row.
    pub fn cells(&self) -> (r: Vec<(usize, usize, u32)>)
        ensures
            r@.len() == 16,
            forall|i: int|
                0 <= i < 16 ==> #[trigger] r@[i] == ((i / 4) as usize, (i % 4) as usize, self@[i]),
    {
        let mut r: Vec<(usize, usize, u32)> = Vec::new();
        for i in 0..16
            invariant
                self.cells@.len() == 16,
                r@.len() == i,
                forall|j: int|
                    0 <= j < i ==> #[trigger] r@[j] == ((j / 4) as usize, (j % 4) as usize, self@[j]),
        {
            r.push((i / 4, i % 4, self.cells[i]));
        }
        r
    }

    /// Slides every tile toward `d`, merging equal neighbours; returns whether any cell changed.
    /// Two tiles of `2 * MAX_MERGE` (see `line`), the largest value a cell holds, stay apart.
    pub fn slide(&mut self, d: Direction) -> (changed: bool)
        ensures
            final(self)@ == slid_grid(old(self)@, d),
            changed == (final(self)@ != old(self)@),
            all_tiles(old(self)@) ==> all_tiles(final(self)@),
    {
        let before = self.cells;
        proof { lemma_index_roundtrip(d); }
        for l in 0..4
            invariant
                self.cells@.len() == 16,
                forall|i: int|
                    0 <= i < 16 && line_no(d, i) < l ==> #[trigger] self.cells@[i]
                        == slid_grid(before@, d)[i],
                forall|i: int| 0 <= i < 16 && line_no(d, i) >= l ==> #[trigger] self.cells@[i] == before@[i],
                forall|i: int|
                    0 <= i < 16 ==> 0 <= #[trigger] line_no(d, i) < 4 && 0 <= pos_no(d, i) < 4
                        && cell_index(d, line_no(d, i), pos_no(d, i)) == i,
                forall|l: int, p: int|
                    0 <= l < 4 && 0 <= p < 4 ==> 0 <= #[trigger] cell_index(d, l, p) < 16
                        && line_no(d, cell_index(d, l, p)) == l && pos_no(d, cell_index(d, l, p)) == p,
        {
            let i0 = Self::index(d, l, 0);
            let i1 = Self::index(d, l, 1);
            let i2 = Self::index(d, l, 2);
            let i3 = Self::index(d, l, 3);
            let src = [self.cells[i0], self.cells[i1], self.cells[i2], self.cells[i3]];
            assert(src@ =~= line_of(before@, d, l as int));
            let out = slide_line(src);
            self.cells[i0] = out[0];
            self.cells[i1] = out[1];
            self.cells[i2] = out[2];
            self.cells[i3] = out[3];
        }
        assert(self@ =~= slid_grid(before@, d));
        proof {
            if all_tiles(before@) {
                assert forall|i: int| 0 <= i < 16 implies is_tile(#[trigger] self@[i]) by {
                    let s = line_of(before@, d, line_no(d, i));
                    lemma_slid_line_tiles(s);
                }
            }
        }
        let mut changed = false;
        for i in 0..16
            invariant
                self.cells@.len() == 16,
                changed == exists|j: int| 0 <= j < i && self.cells@[j] != before@[j],
        {
            if self.cells[i] != before[i] {
                changed = true;
            }
        }
        if !changed {
            assert(self@ =~= before@);
        }
        changed
    }

    /// Whether a cell holds `2048`.
    pub fn won(&self) -> (r: bool)
        ensures
            r == has_2048(self@),
    {
        for i in 0..16
            invariant
                self.cells@.len() == 16,
                forall|j: int| 0 <= j < i ==> self.cells@[j] != 2048,
        {
            if self.cells[i] == 2048 {
                return true;
            }
        }
        false
    }

    /// Whether the game is lost: no empty cell and no two orthogonally adjacent equal cells.
    pub fn lost(&self) -> (r: bool)
        ensures
            r == is_lost(self@),
    {
        for i in 0..16
            invariant
                self.cells@.len() == 16,
                forall|j: int| 0 <= j < i ==> self.cells@[j] != 0,
        {
            if self.cells[i] == 0 {
                return false;
            }
        }
        for i in 0..16
            invariant
                self.cells@.len() == 16,
                forall|j: int|
                    0 <= j < i ==> !((j % 4 < 3 && #[trigger] self.cells@[j] == self.cells@[j + 1]) || (j < 12
                        && self.cells@[j] == self.cells@[j + 4])),
        {
            if i % 4 < 3 && self.cells[i] == self.cells[i + 1] {
                return false;
            }
            if i < 12 && self.cells[i] == self.cells[i + 4] {
                return false;
            }
        }
        true
    }

    /// Sum of all cell values.
    pub fn score(&self) -> (r: u64)
        ensures
            r == sum_cells(self@),
    {
        let mut total: u64 = 0;
        for i in 0..16
            invariant
                self.cells@.len() == 16,
                total == sum_cells(self.cells@.take(i as int)),
                total <= i * 0xFFFF_FFFFu64,
        {
            assert(self.cells@.take(i + 1).drop_last() =~= self.cells@.take(i as int));
            total = total + self.cells[i] as u64;
        }
        assert(self.cells@.take(16) =~= self.cells@);
        total
    }

    /// Indices of the empty cells, in increasing order.
    pub fn empty_cells(&self) -> (r: Vec<usize>)
        ensures
            r@.len() == empty_cells(self@).len(),
            forall|k: int| 0 <= k < r@.len() ==> r@[k] == empty_cells(self@)[k],
    {
        let mut r: Vec<usize> = Vec::new();
        for i in 0..16
            invariant
                self.cells@.len() == 16,
                r@.len() == empties_upto(self@, i as int).len(),
                forall|k: int| 0 <= k < r@.len() ==> r@[k] == empties_upto(self@, i as int)[k],
        {
            if self.cells[i] == 0 {
                r.push(i);
            }
        }
        r
    }

    /// Writes `4` if `four`, else `2`, into the `k`-th empty cell.
    pub fn spawn_at(&mut self, k: usize, four: bool)
        requires
            k < empty_cells(old(self)@).len(),
        ensures
            final(self)@ == old(self)@.update(empty_cells(old(self)@)[k as int], spawn_value(four)),
            all_tiles(old(self)@) ==> all_tiles(final(self)@),
    {
        let empties = self.empty_cells();
        proof {
            lemma_empties_upto(self@, 16);
            lemma_small_tiles();
        }
        let i = empties[k];
        self.cells[i] = if four { 4 } else { 2 };
    }

    /// Writes a new tile into an empty cell drawn uniformly at random: `2` nine times in
    /// ten, `4` otherwise. Returns `false`, leaving the board unchanged, when no cell is empty.
    pub fn spawn(&mut self) -> (r: bool)
        ensures
            r == (empty_cells(old(self)@).len() > 0),
            r == !is_full(old(self)@),
            spawned(old(self)@, final(self)@),
            all_tiles(old(self)@) ==> all_tiles(final(self)@),
    {
        proof { lemma_empties_upto(self@, 16); }
        let ghost before = self@;
        let empties = self.empty_cells();
        if empties.len() == 0 {
            return false;
        }
        let k = random_below(empties.len());
        let four = random_ratio(1, 10);
        self.spawn_at(k, four);
        assert(self@ == before.update(empty_cells(before)[k as int], spawn_value(four)));
        true
    }

    /// Empties the board and writes `2` into cells `a` and `b`.
    pub fn reset_at(&mut self, a: usize, b: usize)
        requires
            a < 16,
            b < 16,
            a != b,
        ensures
            final(self)@ == seeded(a as int, b as int),
            all_tiles(final(self)@),
    {
        self.clear();
        self.cells[a] = 2;
        self.cells[b] = 2;
        proof { lemma_small_tiles(); }
    }

    /// Empties the board and writes `2` into two distinct cells drawn at random.
    pub fn reset(&mut self)
        ensures
            is_fresh(final(self)@),
            all_tiles(final(self)@),
    {
        let picked = choose_distinct(16, 2);
        let a = picked[0];
        let b = picked[1];
        self.reset_at(a, b);
        assert(self@ == seeded(a as int, b as int));
    }

    /// Executable form of `cell_index`.
    fn index(d: Direction, l: usize, p: usize) -> (r: usize)
        requires
            l < 4,
            p < 4,
        ensures
            r == cell_index(d, l as int, p as int),
    {
        match d {
            Direction::Left => l * 4 + p,
            Direction::Right => l * 4 + (3 - p),
            Direction::Up => p * 4 + l,
            Direction::Down => (3 - p) * 4 + l,
        }
    }
}

} // verus!
