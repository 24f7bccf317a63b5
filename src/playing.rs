//! A game in progress: the board, the falling piece, the score and the gravity clock.

use vstd::prelude::*;
use crate::board::{
    lemma_cleared_has_no_full_row, lemma_cleared_without_full_rows, lemma_stamped_cells, row_open, Board,
    BoardView,
};
use crate::game::GameEvent;
use crate::keys::{Key, KeyState, PressedKeys};
use crate::random::random_index;
use crate::pieces::{
    cells_view, lemma_cells_view_push, lemma_template_wf, template, template_block_set, BlockColor, BlockSet, PieceView,
    SHAPE_COUNT,
};

verus! {

/// Columns of the playfield.
pub const BLOCK_WIDTH: usize = 10;

/// Rows of the playfield.
pub const BLOCK_HEIGHT: usize = 25;

/// Column of a new piece's origin.
pub const SPAWN_X: i32 = 5;

/// Row of a new piece's origin.
pub const SPAWN_Y: i32 = 20;

/// Milliseconds that must pass between two gravity steps.
pub const UPDATE_INTERVAL_MS: u64 = 400;

/// `a + b`, held at the largest `u64`.
pub open spec fn sat_add(a: int, b: int) -> int {
    if a + b > u64::MAX {
        u64::MAX as int
    } else {
        a + b
    }
}

/// The piece that template `shape` gives at the spawn point.
pub open spec fn spawn_piece(shape: int) -> PieceView {
    PieceView { x: SPAWN_X as int, y: SPAWN_Y as int, cells: template(shape) }
}

/// A fresh game: an empty board, no piece, score zero, gravity not yet run, no key held.
pub open spec fn fresh_play() -> PlayView {
    PlayView {
        board: BoardView::empty(BLOCK_WIDTH as int, BLOCK_HEIGHT as int),
        piece: None,
        score: 0,
        last_update: None,
        pressed: Set::empty(),
    }
}

/// The mathematical value of a game in progress.
pub struct PlayView {
    pub board: BoardView,
    pub piece: Option<PieceView>,
    pub score: int,
    /// When gravity last ran, in milliseconds; none before the first step.
    pub last_update: Option<int>,
    pub pressed: Set<Key>,
}

impl PlayView {
    /// The board has its fixed size and a falling piece is well formed.
    pub open spec fn inv(self) -> bool {
        &&& self.board.shaped()
        &&& self.board.width == BLOCK_WIDTH
        &&& self.board.height == BLOCK_HEIGHT
        &&& self.piece matches Some(p) ==> p.wf()
        &&& 0 <= self.score <= u64::MAX
    }

    /// `cand` becomes the falling piece if it fits; otherwise nothing changes.
    pub open spec fn try_place(self, cand: PieceView) -> PlayView {
        if self.board.fits(cand) {
            PlayView { piece: Some(cand), ..self }
        } else {
            self
        }
    }

    /// The falling piece moved by `(dx, dy)` where it fits.
    pub open spec fn moved(self, dx: int, dy: int) -> PlayView {
        match self.piece {
            Some(p) => self.try_place(p.shifted(dx, dy)),
            None => self,
        }
    }

    /// The falling piece turned a quarter where it fits.
    pub open spec fn turned(self) -> PlayView {
        match self.piece {
            Some(p) => self.try_place(p.rotated()),
            None => self,
        }
    }

    /// The falling piece rests where it is: it fits there and not one row lower.
    pub open spec fn lockable(self) -> bool {
        match self.piece {
            Some(p) => self.board.fits(p) && !self.board.fits(p.shifted(0, -1)),
            None => false,
        }
    }

    /// Full rows cleared, the score raised by their number.
    pub open spec fn rows_cleared(self) -> PlayView {
        PlayView {
            board: self.board.cleared(),
            score: sat_add(self.score, self.board.full_count() as int),
            ..self
        }
    }

    /// A resting piece written into the board, then full rows cleared; otherwise nothing changes.
    pub open spec fn locked(self) -> PlayView {
        if self.lockable() {
            PlayView { board: self.board.stamped(self.piece.unwrap()), piece: None, ..self }.rows_cleared()
        } else {
            self
        }
    }

    /// A new piece of template `shape` at the spawn point.
    pub open spec fn spawned(self, shape: int) -> PlayView {
        PlayView { piece: Some(spawn_piece(shape)), ..self }
    }

    /// More than the interval has passed since gravity last ran, or it never ran.
    pub open spec fn due(self, now: int) -> bool {
        match self.last_update {
            Some(t) => now - t > UPDATE_INTERVAL_MS,
            None => true,
        }
    }

    /// The game after a lock attempt and a gravity step, before any spawn.
    pub open spec fn settled(self) -> PlayView {
        self.locked().moved(0, -1)
    }

    /// The game after a tick at time `now` that spawns template `shape` if needed.
    pub open spec fn ticked(self, now: int, shape: int) -> PlayView {
        if !self.due(now) {
            self
        } else {
            let a = self.settled();
            let b = if a.piece is None { a.spawned(shape) } else { a };
            PlayView { last_update: Some(now), ..b }
        }
    }

    /// The tick spawns a piece that does not fit: the game is over.
    pub open spec fn tops_out(self, now: int, shape: int) -> bool {
        self.due(now) && self.settled().piece is None && !self.settled().board.fits(spawn_piece(shape))
    }

    /// What a tick asks of the session.
    pub open spec fn tick_event(self, now: int, shape: int) -> Option<GameEvent> {
        if self.tops_out(now, shape) {
            Some(GameEvent::End(self.settled().score as u64))
        } else {
            None
        }
    }

    /// What a key does to the falling piece.
    pub open spec fn acted(self, k: Key) -> PlayView {
        match k {
            Key::Rotate => self.turned(),
            Key::Down => self.moved(0, -1),
            Key::Right => self.moved(1, 0),
            Key::Left => self.moved(-1, 0),
            Key::Confirm => self,
        }
    }

    /// The game after a key event: a key acts when it goes down and was not held.
    pub open spec fn after_input(self, k: Key, state: KeyState) -> PlayView {
        match state {
            KeyState::Pressed => if self.pressed.contains(k) {
                self
            } else {
                PlayView { pressed: self.pressed.insert(k), ..self.acted(k) }
            },
            KeyState::Released => PlayView { pressed: self.pressed.remove(k), ..self },
        }
    }
}

/// A borrowed view of a game in progress, for drawing.
pub struct GameContext<'a> {
    pub blocks: &'a Board,
    pub block_set: &'a Option<BlockSet>,
    pub score: u64,
}

/// A game in progress.
pub struct GameSystem {
    board: Board,
    block_set: Option<BlockSet>,
    pressed: PressedKeys,
    last_update: Option<u64>,
    score: u64,
}

/// The value of an optional piece.
pub open spec fn piece_view(p: Option<BlockSet>) -> Option<PieceView> {
    match p {
        Some(b) => Some(b@),
        None => None,
    }
}

impl View for GameSystem {
    type V = PlayView;

    closed spec fn view(&self) -> PlayView {
        PlayView {
            board: self.board@,
            piece: piece_view(self.block_set),
            score: self.score as int,
            last_update: match self.last_update {
                Some(t) => Some(t as int),
                None => None,
            },
            pressed: self.pressed@,
        }
    }
}

/// A copy of a piece's cells.
fn copy_cells(v: &Vec<(i32, i32, BlockColor)>) -> (r: Vec<(i32, i32, BlockColor)>)
    ensures
        r@ == v@,
{
    let mut r: Vec<(i32, i32, BlockColor)> = Vec::new();
    let mut i: usize = 0;
    while i < v.len()
        invariant
            i <= v.len(),
            r@ == v@.subrange(0, i as int),
        decreases v.len() - i,
    {
        r.push(v[i]);
        i += 1;
        assert(r@ =~= v@.subrange(0, i as int));
    }
    assert(r@ =~= v@);
    r
}

/// A piece that fits on a board lies close to it.
proof fn lemma_fit_is_near(b: BoardView, p: PieceView)
    requires
        p.cells_ok(),
        b.fits(p),
        b.width == BLOCK_WIDTH,
        b.height == BLOCK_HEIGHT,
    ensures
        -4 <= p.x <= BLOCK_WIDTH + 4,
        -4 <= p.y <= BLOCK_HEIGHT + 4,
{
    assert(b.free(p.cell_x(0), p.cell_y(0)));
}

/// Turning a well-formed piece keeps it well formed.
proof fn lemma_rotated_wf(p: PieceView)
    requires
        p.wf(),
    ensures
        p.rotated().wf(),
{
    let r = p.rotated();
    assert forall|i: int| 0 <= i < 4 implies -2 <= #[trigger] r.cells[i].0 <= 2 && -2 <= r.cells[i].1
        <= 2 && r.cells[i].2 == r.cells[0].2 by {
        assert(-2 <= p.cells[i].0 <= 2);
        assert(p.cells[i].2 == p.cells[0].2);
    }
}

impl GameSystem {
    /// The model's invariant holds.
    pub open spec fn wf(&self) -> bool {
        self@.inv()
    }

    proof fn lemma_board_wf(&self)
        requires
            self.wf(),
        ensures
            self.board.wf(),
            self.board@ == self@.board,
            piece_view(self.block_set) == self@.piece,
    {
    }

    /// A fresh game: an empty board, no piece, score zero, gravity not yet run.
    pub fn new() -> (r: GameSystem)
        ensures
            r.wf(),
            r@ == fresh_play(),
    {
        GameSystem {
            board: Board::new(BLOCK_WIDTH, BLOCK_HEIGHT),
            block_set: None,
            pressed: PressedKeys::new(),
            last_update: None,
            score: 0,
        }
    }

    /// Whether every cell of `block_set` lands on a free cell of the board.
    pub fn is_valid_placement(&self, block_set: &BlockSet) -> (r: bool)
        requires
            self.wf(),
        ensures
            r == self@.board.fits(block_set@),
    {
        proof {
            self.lemma_board_wf();
        }
        self.board.fits(block_set)
    }

    /// Makes `cand` the falling piece if it fits.
    fn commit_if_valid(&mut self, cand: BlockSet)
        requires
            old(self).wf(),
            cand@.cells_ok(),
        ensures
            final(self).wf(),
            final(self)@ == old(self)@.try_place(cand@),
    {
        if self.is_valid_placement(&cand) {
            proof {
                lemma_fit_is_near(self@.board, cand@);
            }
            self.block_set = Some(cand);
        }
    }

    /// Moves the falling piece by `(dx, dy)` if the moved piece fits.
    fn translate(&mut self, dx: i32, dy: i32)
        requires
            old(self).wf(),
            -1 <= dx <= 1,
            -1 <= dy <= 1,
        ensures
            final(self).wf(),
            final(self)@ == old(self)@.moved(dx as int, dy as int),
    {
        let cand = match &self.block_set {
            Some(b) => Some(BlockSet { x: b.x + dx, y: b.y + dy, content: copy_cells(&b.content) }),
            None => None,
        };
        if let Some(c) = cand {
            self.commit_if_valid(c);
        }
    }

    /// Moves the falling piece one row down if it fits there.
    pub fn down_block_set(&mut self)
        requires
            old(self).wf(),
        ensures
            final(self).wf(),
            final(self)@ == old(self)@.moved(0, -1),
    {
        self.translate(0, -1)
    }

    /// Moves the falling piece one column right if it fits there.
    pub fn right_block_set(&mut self)
        requires
            old(self).wf(),
        ensures
            final(self).wf(),
            final(self)@ == old(self)@.moved(1, 0),
    {
        self.translate(1, 0)
    }

    /// Moves the falling piece one column left if it fits there.
    pub fn left_block_set(&mut self)
        requires
            old(self).wf(),
        ensures
            final(self).wf(),
            final(self)@ == old(self)@.moved(-1, 0),
    {
        self.translate(-1, 0)
    }

    /// Turns the falling piece a quarter, each offset `(a, b)` becoming `(b, -a)`,
    /// if the turned piece fits; no wall kicks.
    pub fn rotate_block_set(&mut self)
        requires
            old(self).wf(),
        ensures
            final(self).wf(),
            final(self)@ == old(self)@.turned(),
    {
        let cand = match &self.block_set {
            Some(b) => {
                let mut content: Vec<(i32, i32, BlockColor)> = Vec::new();
                let mut i: usize = 0;
                while i < b.content.len()
                    invariant
                        b@.wf(),
                        i <= b.content.len(),
                        cells_view(content@) == b@.rotated().cells.subrange(0, i as int),
                    decreases b.content.len() - i,
                {
                    let (dx, dy, c) = b.content[i];
                    assert(b@.cells[i as int] == (dx as int, dy as int, c));
                    let cell = (dy, -dx, c);
                    proof {
                        lemma_cells_view_push(content@, cell);
                    }
                    content.push(cell);
                    i += 1;
                    assert(cells_view(content@) =~= b@.rotated().cells.subrange(0, i as int));
                }
                let cand = BlockSet { x: b.x, y: b.y, content };
                assert(cand@.cells =~= b@.rotated().cells);
                proof {
                    lemma_rotated_wf(b@);
                }
                Some(cand)
            },
            None => None,
        };
        if let Some(c) = cand {
            self.commit_if_valid(c);
        }
    }

    /// Clears the full rows and adds their number to the score.
    pub fn erase_block_line(&mut self)
        requires
            old(self).wf(),
        ensures
            final(self).wf(),
            final(self)@ == old(self)@.rows_cleared(),
    {
        proof {
            self.lemma_board_wf();
        }
        let n = self.board.clear_full_rows();
        self.score = self.score.saturating_add(n as u64);
    }

    /// Locks a resting piece: writes its cells into the board, drops it, and
    /// clears full rows. Does nothing while the piece can still fall.
    pub fn place_block_set(&mut self)
        requires
            old(self).wf(),
        ensures
            final(self).wf(),
            final(self)@ == old(self)@.locked(),
    {
        proof {
            self.lemma_board_wf();
        }
        let lock = match &self.block_set {
            Some(b) => {
                let below = BlockSet { x: b.x, y: b.y - 1, content: copy_cells(&b.content) };
                self.is_valid_placement(b) && !self.is_valid_placement(&below)
            },
            None => false,
        };
        if lock {
            match &self.block_set {
                Some(b) => self.board.stamp(b),
                None => {},
            }
            self.block_set = None;
            self.erase_block_line();
        }
    }

    /// Makes a piece of template `shape` at the spawn point the falling piece.
    pub fn spawn_block_set(&mut self, shape: usize)
        requires
            old(self).wf(),
            shape < SHAPE_COUNT,
        ensures
            final(self).wf(),
            final(self)@ == old(self)@.spawned(shape as int),
    {
        proof {
            lemma_template_wf(shape as int, SPAWN_X as int, SPAWN_Y as int);
        }
        self.block_set = Some(template_block_set(shape, SPAWN_X, SPAWN_Y));
    }

    /// One gravity tick at time `now` (milliseconds of a monotonic clock). When
    /// the interval has passed: lock a resting piece, move the piece down,
    /// spawn template `shape` if no piece is left, and note the time. Asks for
    /// the end of the game when the new piece does not fit.
    pub fn update_with(&mut self, now: u64, shape: usize) -> (ev: Option<GameEvent>)
        requires
            old(self).wf(),
            shape < SHAPE_COUNT,
        ensures
            final(self).wf(),
            final(self)@ == old(self)@.ticked(now as int, shape as int),
            ev == old(self)@.tick_event(now as int, shape as int),
    {
        let due = match self.last_update {
            Some(t) => now > t && now - t > UPDATE_INTERVAL_MS,
            None => true,
        };
        if !due {
            return None;
        }
        self.place_block_set();
        self.down_block_set();
        let mut ev: Option<GameEvent> = None;
        if self.block_set.is_none() {
            self.spawn_block_set(shape);
            let fits = match &self.block_set {
                Some(b) => self.is_valid_placement(b),
                None => true,
            };
            if !fits {
                ev = Some(GameEvent::End(self.score));
            }
        }
        self.last_update = Some(now);
        ev
    }

    /// One gravity tick at time `now`, with the template of a new piece drawn at random.
    pub fn update(&mut self, now: u64) -> (ev: Option<GameEvent>)
        requires
            old(self).wf(),
        ensures
            final(self).wf(),
            exists|shape: int|
                0 <= shape < SHAPE_COUNT && final(self)@ == old(self)@.ticked(now as int, shape)
                    && ev == old(self)@.tick_event(now as int, shape),
    {
        let shape = random_index(SHAPE_COUNT);
        self.update_with(now, shape)
    }

    /// A key event: a key that goes down and was not held rotates, drops or
    /// moves the piece once; a key that comes up is forgotten.
    pub fn input(&mut self, key: Key, state: KeyState)
        requires
            old(self).wf(),
        ensures
            final(self).wf(),
            final(self)@ == old(self)@.after_input(key, state),
    {
        match state {
            KeyState::Pressed => {
                if self.pressed.press(key) {
                    match key {
                        Key::Rotate => self.rotate_block_set(),
                        Key::Down => self.down_block_set(),
                        Key::Right => self.right_block_set(),
                        Key::Left => self.left_block_set(),
                        Key::Confirm => {},
                    }
                } else {
                    assert(old(self)@.pressed.insert(key) =~= old(self)@.pressed);
                }
            },
            KeyState::Released => self.pressed.release(key),
        }
    }

    /// What there is to draw: the board, the falling piece and the score.
    pub fn context(&self) -> (r: GameContext<'_>)
        requires
            self.wf(),
        ensures
            r.blocks@ == self@.board,
            r.blocks.wf(),
            piece_view(*r.block_set) == self@.piece,
            r.score == self@.score,
    {
        proof {
            self.lemma_board_wf();
        }
        GameContext { blocks: &self.board, block_set: &self.block_set, score: self.score }
    }

    /// Writes `color` into cell `(x, y)` if it lies on the board; returns whether it did.
    pub fn set_block(&mut self, x: usize, y: usize, color: BlockColor) -> (r: bool)
        requires
            old(self).wf(),
        ensures
            final(self).wf(),
            r == old(self)@.board.in_bounds(x as int, y as int),
            r ==> final(self)@ == (PlayView {
                board: old(self)@.board.set(x as int, y as int, Some(color)),
                ..old(self)@
            }),
            !r ==> final(self)@ == old(self)@,
    {
        proof {
            self.lemma_board_wf();
        }
        if x >= BLOCK_WIDTH || y >= BLOCK_HEIGHT {
            return false;
        }
        self.board.set(x, y, color);
        assert(self@.board.rows =~= old(self)@.board.set(x as int, y as int, Some(color)).rows);
        true
    }

    /// Makes `block_set` the falling piece if it is well formed; returns whether it did.
    pub fn set_block_set(&mut self, block_set: BlockSet) -> (r: bool)
        requires
            old(self).wf(),
        ensures
            final(self).wf(),
            r == block_set@.wf(),
            r ==> final(self)@ == (PlayView { piece: Some(block_set@), ..old(self)@ }),
            !r ==> final(self)@ == old(self)@,
    {
        if block_set.is_well_formed() {
            self.block_set = Some(block_set);
            true
        } else {
            false
        }
    }
}


/// Turning a piece whose turned cells would leave the board changes nothing.
pub proof fn lemma_turn_off_board_is_noop(s: PlayView, i: int)
    requires
        s.inv(),
        s.piece is Some,
        0 <= i < s.piece.unwrap().cells.len(),
        !s.board.in_bounds(s.piece.unwrap().rotated().cell_x(i), s.piece.unwrap().rotated().cell_y(i)),
    ensures
        s.turned() == s,
{
    let r = s.piece.unwrap().rotated();
    assert(!s.board.free(r.cell_x(i), r.cell_y(i)));
}

/// Locking a resting piece writes its colour into exactly its cells, drops
/// the piece, and then clears the rows that are full; when none is, the board
/// is the stamped one.
pub proof fn lemma_lock_writes_cells(s: PlayView)
    requires
        s.inv(),
        s.lockable(),
    ensures
        s.locked().piece is None,
        s.locked().board == s.board.stamped(s.piece.unwrap()).cleared(),
        forall|i: int|
            0 <= i < s.piece.unwrap().cells.len() ==> (#[trigger] s.board.stamped(
                s.piece.unwrap(),
            ).rows[s.piece.unwrap().cell_y(i)])[s.piece.unwrap().cell_x(i)] == Some(
                s.piece.unwrap().cells[i].2,
            ),
        forall|x: int, y: int|
            s.board.in_bounds(x, y) && (forall|i: int|
                0 <= i < s.piece.unwrap().cells.len() ==> !(s.piece.unwrap().cell_x(i) == x
                    && s.piece.unwrap().cell_y(i) == y)) ==> #[trigger] s.board.stamped(
                s.piece.unwrap(),
            ).rows[y][x] == s.board.rows[y][x],
        s.board.stamped(s.piece.unwrap()).full_count() == 0 ==> s.locked().board == s.board.stamped(
            s.piece.unwrap(),
        ),
{
    let p = s.piece.unwrap();
    lemma_stamped_cells(s.board, p);
    if s.board.stamped(p).full_count() == 0 {
        lemma_cleared_without_full_rows(s.board.stamped(p));
    }
}

/// Locking a resting piece keeps the invariant, leaves no full row, and adds
/// to the score the number of rows that were full once the piece was written.
pub proof fn lemma_lock_clears_full_rows(s: PlayView)
    requires
        s.inv(),
        s.lockable(),
    ensures
        s.locked().inv(),
        forall|y: int| 0 <= y < s.board.height ==> row_open(#[trigger] s.locked().board.rows[y]),
        s.locked().score == sat_add(s.score, s.board.stamped(s.piece.unwrap()).full_count() as int),
{
    let p = s.piece.unwrap();
    lemma_stamped_cells(s.board, p);
    lemma_cleared_has_no_full_row(s.board.stamped(p));
}

/// A tick before the interval has passed changes nothing and asks nothing.
pub proof fn lemma_early_tick_is_noop(s: PlayView, now: int, shape: int)
    requires
        !s.due(now),
    ensures
        s.ticked(now, shape) == s,
        s.tick_event(now, shape) is None,
{
}

/// The same key event twice in a row has the effect of one.
pub proof fn lemma_repeated_input(s: PlayView, k: Key, state: KeyState)
    ensures
        s.after_input(k, state).after_input(k, state) == s.after_input(k, state),
{
    assert(s.pressed.remove(k).remove(k) =~= s.pressed.remove(k));
}

/// Every template fits on an empty board at the spawn point.
pub proof fn lemma_spawn_fits_empty_board(shape: int)
    requires
        0 <= shape < SHAPE_COUNT,
    ensures
        BoardView::empty(BLOCK_WIDTH as int, BLOCK_HEIGHT as int).fits(spawn_piece(shape)),
{
    lemma_template_wf(shape, SPAWN_X as int, SPAWN_Y as int);
    let b = BoardView::empty(BLOCK_WIDTH as int, BLOCK_HEIGHT as int);
    let p = spawn_piece(shape);
    assert forall|i: int| 0 <= i < p.cells.len() implies #[trigger] b.free(p.cell_x(i), p.cell_y(i)) by {
        assert(-2 <= p.cells[i].0 <= 2 && -2 <= p.cells[i].1 <= 2);
    }
}

} // verus!
