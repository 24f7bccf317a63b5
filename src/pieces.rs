//! The seven tetromino templates and the falling piece built from them.

use vstd::prelude::*;

verus! {

/// The display tag of a cell; it carries no behaviour.
#[derive(Clone, Copy, Debug, PartialEq, Eq, Structural)]
pub enum BlockColor {
    Cyan,
    Yellow,
    Green,
    Red,
    Blue,
    Orange,
    Purple,
}

/// Number of templates in the catalog.
pub const SHAPE_COUNT: usize = 7;

/// Largest absolute offset of a cell from its piece's origin, in any orientation.
pub const MAX_OFFSET: i32 = 2;

/// Bound on the coordinates of a piece's origin.
pub const MAX_ORIGIN: i32 = 4096;

/// A piece: an origin and the cells around it, each an offset and a colour.
#[derive(Clone, Debug)]
pub struct BlockSet {
    pub x: i32,
    pub y: i32,
    pub content: Vec<(i32, i32, BlockColor)>,
}

/// The mathematical value of a piece.
pub struct PieceView {
    pub x: int,
    pub y: int,
    pub cells: Seq<(int, int, BlockColor)>,
}

/// The cells of a piece with their offsets as integers.
pub open spec fn cells_view(v: Seq<(i32, i32, BlockColor)>) -> Seq<(int, int, BlockColor)> {
    v.map_values(|c: (i32, i32, BlockColor)| (c.0 as int, c.1 as int, c.2))
}

/// Appending a cell appends its value.
pub proof fn lemma_cells_view_push(v: Seq<(i32, i32, BlockColor)>, c: (i32, i32, BlockColor))
    ensures
        cells_view(v.push(c)) == cells_view(v).push((c.0 as int, c.1 as int, c.2)),
{
    assert(cells_view(v.push(c)) =~= cells_view(v).push((c.0 as int, c.1 as int, c.2)));
}

impl View for BlockSet {
    type V = PieceView;

    open spec fn view(&self) -> PieceView {
        PieceView {
            x: self.x as int,
            y: self.y as int,
            cells: cells_view(self.content@),
        }
    }
}

impl PieceView {
    /// Column of the `i`-th cell on the board.
    pub open spec fn cell_x(self, i: int) -> int {
        self.x + self.cells[i].0
    }

    /// Row of the `i`-th cell on the board.
    pub open spec fn cell_y(self, i: int) -> int {
        self.y + self.cells[i].1
    }

    /// The same cells around an origin moved by `(dx, dy)`.
    pub open spec fn shifted(self, dx: int, dy: int) -> PieceView {
        PieceView { x: self.x + dx, y: self.y + dy, cells: self.cells }
    }

    /// Every offset `(a, b)` turned into `(b, -a)`: a quarter turn about the origin.
    pub open spec fn rotated(self) -> PieceView {
        PieceView {
            x: self.x,
            y: self.y,
            cells: self.cells.map_values(|c: (int, int, BlockColor)| (c.1, -c.0, c.2)),
        }
    }

    /// Four cells of one colour, each at most `MAX_OFFSET` from the origin either way.
    pub open spec fn cells_ok(self) -> bool {
        &&& self.cells.len() == 4
        &&& forall|i: int|
            0 <= i < 4 ==> -MAX_OFFSET <= (#[trigger] self.cells[i]).0 <= MAX_OFFSET
                && -MAX_OFFSET <= self.cells[i].1 <= MAX_OFFSET
                && self.cells[i].2 == self.cells[0].2
    }

    /// Well-formed cells, and an origin that leaves room to move.
    pub open spec fn wf(self) -> bool {
        &&& self.cells_ok()
        &&& -MAX_ORIGIN <= self.x <= MAX_ORIGIN
        &&& -MAX_ORIGIN <= self.y <= MAX_ORIGIN
    }
}

/// The cells of the `i`-th template in its spawn orientation.
pub open spec fn template(i: int) -> Seq<(int, int, BlockColor)> {
    if i == 0 {
        seq![(-1, 0, BlockColor::Cyan), (0, 0, BlockColor::Cyan), (1, 0, BlockColor::Cyan), (2, 0, BlockColor::Cyan)]
    } else if i == 1 {
        seq![(0, 0, BlockColor::Yellow), (1, 0, BlockColor::Yellow), (1, 1, BlockColor::Yellow), (0, 1, BlockColor::Yellow)]
    } else if i == 2 {
        seq![(-1, -1, BlockColor::Green), (0, -1, BlockColor::Green), (0, 0, BlockColor::Green), (1, 0, BlockColor::Green)]
    } else if i == 3 {
        seq![(-1, 0, BlockColor::Red), (0, 0, BlockColor::Red), (0, -1, BlockColor::Red), (1, -1, BlockColor::Red)]
    } else if i == 4 {
        seq![(-1, 0, BlockColor::Blue), (-1, -1, BlockColor::Blue), (0, -1, BlockColor::Blue), (1, -1, BlockColor::Blue)]
    } else if i == 5 {
        seq![(-1, -1, BlockColor::Orange), (0, -1, BlockColor::Orange), (1, -1, BlockColor::Orange), (1, 0, BlockColor::Orange)]
    } else {
        seq![(-1, -1, BlockColor::Purple), (0, -1, BlockColor::Purple), (1, -1, BlockColor::Purple), (0, 0, BlockColor::Purple)]
    }
}

/// The cells of template `shape`, as a fresh vector.
pub fn block_set_content(shape: usize) -> (r: Vec<(i32, i32, BlockColor)>)
    requires
        shape < SHAPE_COUNT,
    ensures
        cells_view(r@) == template(shape as int),
{
    let r = if shape == 0 {
        let c = BlockColor::Cyan;
        vec![(-1, 0, c), (0, 0, c), (1, 0, c), (2, 0, c)]
    } else if shape == 1 {
        let c = BlockColor::Yellow;
        vec![(0, 0, c), (1, 0, c), (1, 1, c), (0, 1, c)]
    } else if shape == 2 {
        let c = BlockColor::Green;
        vec![(-1, -1, c), (0, -1, c), (0, 0, c), (1, 0, c)]
    } else if shape == 3 {
        let c = BlockColor::Red;
        vec![(-1, 0, c), (0, 0, c), (0, -1, c), (1, -1, c)]
    } else if shape == 4 {
        let c = BlockColor::Blue;
        vec![(-1, 0, c), (-1, -1, c), (0, -1, c), (1, -1, c)]
    } else if shape == 5 {
        let c = BlockColor::Orange;
        vec![(-1, -1, c), (0, -1, c), (1, -1, c), (1, 0, c)]
    } else {
        let c = BlockColor::Purple;
        vec![(-1, -1, c), (0, -1, c), (1, -1, c), (0, 0, c)]
    };
    assert(cells_view(r@) =~= template(shape as int));
    r
}

impl BlockSet {
    /// Whether the piece is well formed: four cells of one colour, offsets of at
    /// most `MAX_OFFSET`, and an origin within `MAX_ORIGIN` of zero.
    pub fn is_well_formed(&self) -> (r: bool)
        ensures
            r == self@.wf(),
    {
        if self.content.len() != 4 || self.x < -MAX_ORIGIN || self.x > MAX_ORIGIN || self.y
            < -MAX_ORIGIN || self.y > MAX_ORIGIN {
            return false;
        }
        let color = self.content[0].2;
        let mut i: usize = 0;
        while i < 4
            invariant
                i <= 4,
                self.content.len() == 4,
                color == self@.cells[0].2,
                forall|j: int|
                    0 <= j < i ==> -MAX_OFFSET <= #[trigger] self@.cells[j].0 <= MAX_OFFSET
                        && -MAX_OFFSET <= self@.cells[j].1 <= MAX_OFFSET
                        && self@.cells[j].2 == self@.cells[0].2,
            decreases 4 - i,
        {
            let (dx, dy, c) = self.content[i];
            assert(self@.cells[i as int] == (dx as int, dy as int, c));
            if dx < -MAX_OFFSET || dx > MAX_OFFSET || dy < -MAX_OFFSET || dy > MAX_OFFSET || c != color {
                return false;
            }
            i += 1;
        }
        true
    }
}

/// A piece of template `shape` with its origin at `(x, y)`.
pub fn template_block_set(shape: usize, x: i32, y: i32) -> (r: BlockSet)
    requires
        shape < SHAPE_COUNT,
    ensures
        r@ == (PieceView { x: x as int, y: y as int, cells: template(shape as int) }),
{
    BlockSet { x, y, content: block_set_content(shape) }
}

/// Every template, placed anywhere in range, is a well-formed piece.
pub proof fn lemma_template_wf(shape: int, x: int, y: int)
    requires
        0 <= shape < SHAPE_COUNT,
        -MAX_ORIGIN <= x <= MAX_ORIGIN,
        -MAX_ORIGIN <= y <= MAX_ORIGIN,
    ensures
        (PieceView { x, y, cells: template(shape) }).wf(),
{
}

} // verus!
