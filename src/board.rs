//! The playfield: `height` rows of `width` cells, each empty or holding a colour.
//! Row 0 is the bottom row.

use vstd::prelude::*;
use crate::pieces::{BlockColor, BlockSet, PieceView};

verus! {

/// Largest width or height a board may have.
pub const MAX_DIM: usize = 1024;

/// The mathematical value of a board: `rows[y][x]` is the cell in column `x` of row `y`.
pub struct BoardView {
    pub width: int,
    pub height: int,
    pub rows: Seq<Seq<Option<BlockColor>>>,
}

/// A row of `width` empty cells.
pub open spec fn empty_row(width: int) -> Seq<Option<BlockColor>> {
    Seq::new(width as nat, |x: int| None::<BlockColor>)
}

/// Every cell of the row holds a colour.
pub open spec fn row_full(row: Seq<Option<BlockColor>>) -> bool {
    forall|x: int| 0 <= x < row.len() ==> (#[trigger] row[x]) is Some
}

/// Some cell of the row is empty.
pub open spec fn row_open(row: Seq<Option<BlockColor>>) -> bool {
    !row_full(row)
}

/// `row_full` as a predicate value.
pub open spec fn full_pred() -> spec_fn(Seq<Option<BlockColor>>) -> bool {
    |r: Seq<Option<BlockColor>>| row_full(r)
}

/// `row_open` as a predicate value.
pub open spec fn open_pred() -> spec_fn(Seq<Option<BlockColor>>) -> bool {
    |r: Seq<Option<BlockColor>>| row_open(r)
}

impl BoardView {
    /// A board of the given size with every cell empty.
    pub open spec fn empty(width: int, height: int) -> BoardView {
        BoardView { width, height, rows: Seq::new(height as nat, |y: int| empty_row(width)) }
    }

    /// `height` rows, each `width` cells long.
    pub open spec fn shaped(self) -> bool {
        &&& self.rows.len() == self.height
        &&& forall|y: int| 0 <= y < self.height ==> (#[trigger] self.rows[y]).len() == self.width
    }

    /// `(x, y)` lies on the board.
    pub open spec fn in_bounds(self, x: int, y: int) -> bool {
        0 <= x < self.width && 0 <= y < self.height
    }

    /// `(x, y)` lies on the board and its cell is empty.
    pub open spec fn free(self, x: int, y: int) -> bool {
        self.in_bounds(x, y) && self.rows[y][x] is None
    }

    /// Every cell of the piece lands on a free cell.
    pub open spec fn fits(self, p: PieceView) -> bool {
        forall|i: int| 0 <= i < p.cells.len() ==> #[trigger] self.free(p.cell_x(i), p.cell_y(i))
    }

    /// The board with cell `(x, y)` set to `c`.
    pub open spec fn set(self, x: int, y: int, c: Option<BlockColor>) -> BoardView {
        BoardView { rows: self.rows.update(y, self.rows[y].update(x, c)), ..self }
    }

    /// The board with the colours of the first `n` cells of `p` written in, in order.
    pub open spec fn stamp_prefix(self, p: PieceView, n: int) -> BoardView
        decreases n,
    {
        if n <= 0 {
            self
        } else {
            self.stamp_prefix(p, n - 1).set(p.cell_x(n - 1), p.cell_y(n - 1), Some(p.cells[n - 1].2))
        }
    }

    /// The board with the colours of all cells of `p` written in.
    pub open spec fn stamped(self, p: PieceView) -> BoardView {
        self.stamp_prefix(p, p.cells.len() as int)
    }

    /// The rows that are not full, bottom to top.
    pub open spec fn open_rows(self) -> Seq<Seq<Option<BlockColor>>> {
        self.rows.filter(open_pred())
    }

    /// How many rows are full.
    pub open spec fn full_count(self) -> nat {
        self.rows.filter(full_pred()).len()
    }

    /// Full rows removed, the rest moved down in order, empty rows added on top.
    pub open spec fn cleared(self) -> BoardView {
        BoardView {
            rows: self.open_rows() + Seq::new(self.full_count(), |i: int| empty_row(self.width)),
            ..self
        }
    }
}

/// Splitting rows into full and open ones loses none.
pub proof fn lemma_filter_split(rows: Seq<Seq<Option<BlockColor>>>)
    ensures
        rows.filter(full_pred()).len() + rows.filter(open_pred()).len() == rows.len(),
    decreases rows.len(),
{
    reveal_with_fuel(Seq::filter, 1);
    if rows.len() > 0 {
        lemma_filter_split(rows.drop_last());
    }
}

/// A stamp moves no row and changes no row's length.
proof fn lemma_stamp_prefix_shape(b: BoardView, p: PieceView, n: int)
    requires
        b.shaped(),
        n <= p.cells.len(),
        b.fits(p),
    ensures
        b.stamp_prefix(p, n).shaped(),
        b.stamp_prefix(p, n).width == b.width,
        b.stamp_prefix(p, n).height == b.height,
    decreases n,
{
    if n > 0 {
        lemma_stamp_prefix_shape(b, p, n - 1);
        assert(b.free(p.cell_x(n - 1), p.cell_y(n - 1)));
    }
}

/// The first `n` cells of a piece carry its colour after a stamp of them,
/// and every other cell of the board is as it was.
proof fn lemma_stamp_prefix_cells(b: BoardView, p: PieceView, n: int)
    requires
        b.shaped(),
        b.fits(p),
        p.cells_ok(),
        0 <= n <= p.cells.len(),
    ensures
        forall|i: int|
            0 <= i < n ==> (#[trigger] b.stamp_prefix(p, n).rows[p.cell_y(i)])[p.cell_x(i)] == Some(
                p.cells[0].2,
            ),
        forall|x: int, y: int|
            b.in_bounds(x, y) && (forall|i: int|
                0 <= i < n ==> !(p.cell_x(i) == x && p.cell_y(i) == y)) ==> #[trigger] b.stamp_prefix(
                p,
                n,
            ).rows[y][x] == b.rows[y][x],
    decreases n,
{
    if n > 0 {
        lemma_stamp_prefix_cells(b, p, n - 1);
        lemma_stamp_prefix_shape(b, p, n - 1);
        let prev = b.stamp_prefix(p, n - 1);
        assert(b.free(p.cell_x(n - 1), p.cell_y(n - 1)));
        assert forall|i: int| 0 <= i < n implies (#[trigger] b.stamp_prefix(p, n).rows[p.cell_y(
            i,
        )])[p.cell_x(i)] == Some(p.cells[0].2) by {
            assert(b.free(p.cell_x(i), p.cell_y(i)));
            assert(p.cells[n - 1].2 == p.cells[0].2);
        }
        assert forall|x: int, y: int|
            b.in_bounds(x, y) && (forall|i: int|
                0 <= i < n ==> !(p.cell_x(i) == x && p.cell_y(i) == y)) implies #[trigger] b.stamp_prefix(
            p,
            n,
        ).rows[y][x] == b.rows[y][x] by {
            assert(!(p.cell_x(n - 1) == x && p.cell_y(n - 1) == y));
            assert forall|i: int| 0 <= i < n - 1 implies !(p.cell_x(i) == x && p.cell_y(i) == y) by {}
            assert(prev.rows[y][x] == b.rows[y][x]);
        }
    }
}

/// A stamp writes the piece's colour into each of its cells and leaves every
/// other cell as it was.
pub proof fn lemma_stamped_cells(b: BoardView, p: PieceView)
    requires
        b.shaped(),
        b.fits(p),
        p.cells_ok(),
    ensures
        b.stamped(p).shaped(),
        b.stamped(p).width == b.width,
        b.stamped(p).height == b.height,
        forall|i: int|
            0 <= i < p.cells.len() ==> (#[trigger] b.stamped(p).rows[p.cell_y(i)])[p.cell_x(i)]
                == Some(p.cells[i].2),
        forall|x: int, y: int|
            b.in_bounds(x, y) && (forall|i: int|
                0 <= i < p.cells.len() ==> !(p.cell_x(i) == x && p.cell_y(i) == y))
                ==> #[trigger] b.stamped(p).rows[y][x] == b.rows[y][x],
{
    lemma_stamp_prefix_cells(b, p, p.cells.len() as int);
    lemma_stamp_prefix_shape(b, p, p.cells.len() as int);
    assert forall|i: int| 0 <= i < p.cells.len() implies (#[trigger] b.stamped(p).rows[p.cell_y(
        i,
    )])[p.cell_x(i)] == Some(p.cells[i].2) by {
        assert(p.cells[i].2 == p.cells[0].2);
    }
}

/// After clearing, the board keeps its shape and no row is full.
pub proof fn lemma_cleared_has_no_full_row(b: BoardView)
    requires
        b.shaped(),
        b.width >= 1,
    ensures
        b.cleared().shaped(),
        b.cleared().width == b.width,
        b.cleared().height == b.height,
        forall|y: int| 0 <= y < b.height ==> row_open(#[trigger] b.cleared().rows[y]),
{
    lemma_filter_split(b.rows);
    let c = b.cleared();
    let open = b.open_rows();
    assert forall|y: int| 0 <= y < b.height implies (#[trigger] c.rows[y]).len() == b.width && row_open(
        c.rows[y],
    ) by {
        if y < open.len() {
            lemma_open_rows_shape(b.rows, b.width);
        } else {
            assert(c.rows[y] == empty_row(b.width));
            assert(!(empty_row(b.width)[0] is Some));
        }
    }
}

/// Clearing a board with no full row changes nothing.
pub proof fn lemma_cleared_without_full_rows(b: BoardView)
    requires
        b.full_count() == 0,
    ensures
        b.cleared() == b,
{
    lemma_filter_all_open(b.rows);
    assert(b.cleared().rows =~= b.rows);
}

proof fn lemma_open_rows_shape(rows: Seq<Seq<Option<BlockColor>>>, w: int)
    requires
        forall|y: int| 0 <= y < rows.len() ==> (#[trigger] rows[y]).len() == w,
    ensures
        forall|k: int|
            0 <= k < rows.filter(open_pred()).len() ==> (#[trigger] rows.filter(open_pred())[k]).len()
                == w && row_open(rows.filter(open_pred())[k]),
    decreases rows.len(),
{
    reveal_with_fuel(Seq::filter, 1);
    if rows.len() > 0 {
        let rest = rows.drop_last();
        assert forall|y: int| 0 <= y < rest.len() implies (#[trigger] rest[y]).len() == w by {
            assert(rest[y] == rows[y]);
        }
        lemma_open_rows_shape(rest, w);
        let f = rows.filter(open_pred());
        let g = rest.filter(open_pred());
        assert(rows.last() == rows[rows.len() - 1]);
        if open_pred()(rows.last()) {
            assert(f == g.push(rows.last()));
            assert forall|k: int| 0 <= k < f.len() implies (#[trigger] f[k]).len() == w && row_open(f[k]) by {
                if k < g.len() {
                    assert(f[k] == g[k]);
                }
            }
        } else {
            assert(f == g);
        }
    }
}

proof fn lemma_filter_all_open(rows: Seq<Seq<Option<BlockColor>>>)
    requires
        rows.filter(full_pred()).len() == 0,
    ensures
        rows.filter(open_pred()) == rows,
    decreases rows.len(),
{
    reveal_with_fuel(Seq::filter, 1);
    if rows.len() > 0 {
        lemma_filter_all_open(rows.drop_last());
        assert(rows.drop_last().push(rows.last()) =~= rows);
    }
}

/// A playfield whose size is fixed when it is made.
pub struct Board {
    width: usize,
    height: usize,
    rows: Vec<Vec<Option<BlockColor>>>,
}

/// The rows of a board as sequences of cells.
pub open spec fn row_views(rows: Seq<Vec<Option<BlockColor>>>) -> Seq<Seq<Option<BlockColor>>> {
    rows.map_values(|r: Vec<Option<BlockColor>>| r@)
}

proof fn lemma_row_views_push(rows: Seq<Vec<Option<BlockColor>>>, row: Vec<Option<BlockColor>>)
    ensures
        row_views(rows.push(row)) == row_views(rows).push(row@),
{
    assert(row_views(rows.push(row)) =~= row_views(rows).push(row@));
}

impl View for Board {
    type V = BoardView;

    closed spec fn view(&self) -> BoardView {
        BoardView {
            width: self.width as int,
            height: self.height as int,
            rows: row_views(self.rows@),
        }
    }
}

/// A row of `width` empty cells.
fn new_row(width: usize) -> (r: Vec<Option<BlockColor>>)
    ensures
        r@ == empty_row(width as int),
{
    let mut r: Vec<Option<BlockColor>> = Vec::new();
    let mut i: usize = 0;
    while i < width
        invariant
            i <= width,
            r@ == empty_row(i as int),
        decreases width - i,
    {
        r.push(None);
        i += 1;
        assert(r@ =~= empty_row(i as int));
    }
    r
}

/// A copy of a row.
fn copy_row(row: &Vec<Option<BlockColor>>) -> (r: Vec<Option<BlockColor>>)
    ensures
        r@ == row@,
{
    let mut r: Vec<Option<BlockColor>> = Vec::new();
    let mut i: usize = 0;
    while i < row.len()
        invariant
            i <= row.len(),
            r@ == row@.subrange(0, i as int),
        decreases row.len() - i,
    {
        r.push(row[i]);
        i += 1;
        assert(r@ =~= row@.subrange(0, i as int));
    }
    assert(r@ =~= row@);
    r
}

/// Whether every cell of the row holds a colour.
fn is_full(row: &Vec<Option<BlockColor>>) -> (r: bool)
    ensures
        r == row_full(row@),
{
    let mut i: usize = 0;
    while i < row.len()
        invariant
            i <= row.len(),
            forall|x: int| 0 <= x < i ==> (#[trigger] row@[x]) is Some,
        decreases row.len() - i,
    {
        if row[i].is_none() {
            return false;
        }
        i += 1;
    }
    true
}

impl Board {
    /// Within its size limits, and every row as wide as the board.
    pub open spec fn wf(&self) -> bool {
        &&& self@.shaped()
        &&& 1 <= self@.width <= MAX_DIM
        &&& 1 <= self@.height <= MAX_DIM
    }

    /// An empty board of `width` columns and `height` rows.
    pub fn new(width: usize, height: usize) -> (r: Board)
        requires
            1 <= width <= MAX_DIM,
            1 <= height <= MAX_DIM,
        ensures
            r.wf(),
            r@ == BoardView::empty(width as int, height as int),
    {
        let mut rows: Vec<Vec<Option<BlockColor>>> = Vec::new();
        let mut i: usize = 0;
        while i < height
            invariant
                i <= height,
                row_views(rows@) == Seq::new(
                    i as nat,
                    |y: int| empty_row(width as int),
                ),
            decreases height - i,
        {
            let row = new_row(width);
            proof {
                lemma_row_views_push(rows@, row);
            }
            rows.push(row);
            i += 1;
            assert(row_views(rows@) =~= Seq::new(
                i as nat,
                |y: int| empty_row(width as int),
            ));
        }
        let r = Board { width, height, rows };
        assert(r@.rows =~= BoardView::empty(width as int, height as int).rows);
        r
    }

    /// Number of columns.
    pub fn width(&self) -> (r: usize)
        ensures
            r == self@.width,
    {
        self.width
    }

    /// Number of rows.
    pub fn height(&self) -> (r: usize)
        ensures
            r == self@.height,
    {
        self.height
    }

    /// The cell in column `x` of row `y`.
    pub fn get(&self, x: usize, y: usize) -> (r: Option<BlockColor>)
        requires
            self.wf(),
            self@.in_bounds(x as int, y as int),
        ensures
            r == self@.rows[y as int][x as int],
    {
        assert(self@.rows[y as int] == self.rows@[y as int]@);
        self.rows[y][x]
    }

    /// Whether `(x, y)` is filled or off the board: off the board counts as occupied.
    pub fn is_occupied(&self, x: i64, y: i64) -> (r: bool)
        requires
            self.wf(),
        ensures
            r == !self@.free(x as int, y as int),
    {
        if x < 0 || y < 0 || x >= self.width as i64 || y >= self.height as i64 {
            true
        } else {
            assert(self@.rows[y as int] == self.rows@[y as int]@);
            self.rows[y as usize][x as usize].is_some()
        }
    }

    /// Writes `color` into cell `(x, y)`.
    pub fn set(&mut self, x: usize, y: usize, color: BlockColor)
        requires
            old(self).wf(),
            old(self)@.in_bounds(x as int, y as int),
        ensures
            final(self).wf(),
            final(self)@ == old(self)@.set(x as int, y as int, Some(color)),
    {
        assert(self@.rows[y as int] == self.rows@[y as int]@);
        let mut row: Vec<Option<BlockColor>> = Vec::new();
        std::mem::swap(&mut row, &mut self.rows[y]);
        row.set(x, Some(color));
        std::mem::swap(&mut row, &mut self.rows[y]);
        assert(self@.rows =~= old(self)@.set(x as int, y as int, Some(color)).rows);
    }

    /// Whether every cell of `p` lands on a free cell of the board.
    pub fn fits(&self, p: &BlockSet) -> (r: bool)
        requires
            self.wf(),
        ensures
            r == self@.fits(p@),
    {
        let mut i: usize = 0;
        while i < p.content.len()
            invariant
                self.wf(),
                i <= p.content.len(),
                forall|j: int| 0 <= j < i ==> #[trigger] self@.free(p@.cell_x(j), p@.cell_y(j)),
            decreases p.content.len() - i,
        {
            let (dx, dy, _) = p.content[i];
            assert(p@.cells[i as int] == (dx as int, dy as int, p.content@[i as int].2));
            if self.is_occupied(p.x as i64 + dx as i64, p.y as i64 + dy as i64) {
                assert(!self@.free(p@.cell_x(i as int), p@.cell_y(i as int)));
                return false;
            }
            i += 1;
        }
        true
    }

    /// Writes the colour of each cell of `p` into the board.
    pub fn stamp(&mut self, p: &BlockSet)
        requires
            old(self).wf(),
            old(self)@.fits(p@),
        ensures
            final(self).wf(),
            final(self)@ == old(self)@.stamped(p@),
            final(self)@.width == old(self)@.width,
            final(self)@.height == old(self)@.height,
    {
        let ghost start = self@;
        proof {
            lemma_stamp_prefix_shape(start, p@, p@.cells.len() as int);
        }
        let mut i: usize = 0;
        while i < p.content.len()
            invariant
                self.wf(),
                start.fits(p@),
                start.shaped(),
                i <= p.content.len(),
                self@.width == start.width,
                self@.height == start.height,
                self@ == start.stamp_prefix(p@, i as int),
            decreases p.content.len() - i,
        {
            let (dx, dy, c) = p.content[i];
            assert(p@.cells[i as int] == (dx as int, dy as int, c));
            assert(start.free(p@.cell_x(i as int), p@.cell_y(i as int)));
            let x = (p.x as i64 + dx as i64) as usize;
            let y = (p.y as i64 + dy as i64) as usize;
            self.set(x, y, c);
            i += 1;
        }
    }

    /// Removes the full rows, moves the others down in order, fills the top
    /// with empty rows, and returns how many rows were removed.
    pub fn clear_full_rows(&mut self) -> (n: usize)
        requires
            old(self).wf(),
        ensures
            final(self).wf(),
            final(self)@ == old(self)@.cleared(),
            n == old(self)@.full_count(),
    {
        let ghost rows = self@.rows;
        let mut kept: Vec<Vec<Option<BlockColor>>> = Vec::new();
        let mut erased: usize = 0;
        let mut i: usize = 0;
        while i < self.height
            invariant
                self.wf(),
                rows == self@.rows,
                i <= self.height,
                row_views(kept@) == rows.subrange(0, i as int).filter(open_pred()),
                erased == rows.subrange(0, i as int).filter(full_pred()).len(),
                kept.len() + erased == i,
                forall|k: int| 0 <= k < kept.len() ==> (#[trigger] kept@[k])@.len() == self.width,
            decreases self.height - i,
        {
            proof {
                reveal_with_fuel(Seq::filter, 1);
                let next = rows.subrange(0, i as int + 1);
                assert(next.drop_last() =~= rows.subrange(0, i as int));
                assert(next.last() == rows[i as int]);
                assert(rows[i as int] == self.rows@[i as int]@);
            }
            if is_full(&self.rows[i]) {
                erased += 1;
            } else {
                let row = copy_row(&self.rows[i]);
                proof {
                    lemma_row_views_push(kept@, row);
                }
                kept.push(row);
            }
            i += 1;
        }
        assert(rows.subrange(0, self.height as int) =~= rows);
        let ghost open = row_views(kept@);
        let mut j: usize = 0;
        while j < erased
            invariant
                self.wf(),
                rows == self@.rows,
                j <= erased,
                erased == self@.full_count(),
                row_views(kept@) == open + Seq::new(j as nat, |k: int| empty_row(self.width as int)),
                kept.len() <= self.height,
                kept.len() == open.len() + j,
                open.len() + erased == self.height,
                forall|k: int| 0 <= k < kept.len() ==> (#[trigger] kept@[k])@.len() == self.width,
            decreases erased - j,
        {
            let row = new_row(self.width);
            proof {
                lemma_row_views_push(kept@, row);
            }
            kept.push(row);
            j += 1;
            assert(row_views(kept@) =~= open + Seq::new(j as nat, |k: int| empty_row(self.width as int)));
        }
        self.rows = kept;
        assert(self@.rows =~= old(self)@.cleared().rows);
        erased
    }
}

} // verus!
