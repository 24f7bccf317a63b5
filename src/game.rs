//! The session: Start, Playing or End, and the moves between them.

use vstd::prelude::*;
use crate::end;
use crate::keys::{Key, KeyState};
use crate::pieces::SHAPE_COUNT;
use crate::board::BoardView;
use crate::playing::{
    self, fresh_play, lemma_spawn_fits_empty_board, spawn_piece, PlayView, BLOCK_HEIGHT, BLOCK_WIDTH,
};
use crate::random::random_index;
use crate::start;

verus! {

/// A request to replace the session's state.
#[derive(Clone, Copy, Debug, PartialEq, Eq, Structural)]
pub enum GameEvent {
    /// Start a fresh game.
    Play,
    /// The game is over, with this final score.
    End(u64),
}

/// The mathematical value of a session.
pub enum SessionView {
    /// The keys held on the title screen.
    Start(Set<Key>),
    Playing(PlayView),
    /// The final score.
    End(int),
}

impl SessionView {
    /// A game in progress keeps its invariant.
    pub open spec fn inv(self) -> bool {
        match self {
            SessionView::Playing(p) => p.inv(),
            _ => true,
        }
    }

    /// The session that an event puts in place.
    pub open spec fn received(ev: GameEvent) -> SessionView {
        match ev {
            GameEvent::Play => SessionView::Playing(fresh_play()),
            GameEvent::End(score) => SessionView::End(score as int),
        }
    }

    /// The session after a key event.
    pub open spec fn after_input(self, key: Key, state: KeyState) -> SessionView {
        match self {
            SessionView::Start(held) => if start::starts_game(held, key, state) {
                SessionView::Playing(fresh_play())
            } else {
                SessionView::Start(start::held_after(held, key, state))
            },
            SessionView::Playing(p) => SessionView::Playing(p.after_input(key, state)),
            SessionView::End(score) => self,
        }
    }

    /// The session after a tick at time `now` that spawns template `shape` if needed.
    pub open spec fn ticked(self, now: int, shape: int) -> SessionView {
        match self {
            SessionView::Playing(p) => match p.tick_event(now, shape) {
                Some(ev) => SessionView::received(ev),
                None => SessionView::Playing(p.ticked(now, shape)),
            },
            _ => self,
        }
    }
}

/// What there is to draw, by state.
pub enum GameContext<'a> {
    Start,
    Playing(playing::GameContext<'a>),
    End(end::GameContext),
}

/// A session: exactly one of the three states is live.
pub enum GameSystem {
    Start(start::GameSystem),
    Playing(playing::GameSystem),
    End(end::GameSystem),
}

impl View for GameSystem {
    type V = SessionView;

    open spec fn view(&self) -> SessionView {
        match self {
            GameSystem::Start(s) => SessionView::Start(s@),
            GameSystem::Playing(p) => SessionView::Playing(p@),
            GameSystem::End(e) => SessionView::End(e@),
        }
    }
}

impl GameSystem {
    /// A game in progress keeps its invariant.
    pub open spec fn wf(&self) -> bool {
        self@.inv()
    }

    /// A session on the title screen with no key held.
    pub fn new() -> (r: GameSystem)
        ensures
            r.wf(),
            r@ == SessionView::Start(Set::empty()),
    {
        GameSystem::Start(start::GameSystem::new())
    }

    /// Replaces the whole session as the event asks.
    pub fn receive_event(&mut self, event: GameEvent)
        ensures
            final(self).wf(),
            final(self)@ == SessionView::received(event),
    {
        match event {
            GameEvent::Play => {
                *self = GameSystem::Playing(playing::GameSystem::new());
            },
            GameEvent::End(score) => {
                *self = GameSystem::End(end::GameSystem::new(score));
            },
        }
    }

    /// A key event, routed to the live state.
    pub fn input(&mut self, key: Key, state: KeyState)
        requires
            old(self).wf(),
        ensures
            final(self).wf(),
            final(self)@ == old(self)@.after_input(key, state),
    {
        let ev = match self {
            GameSystem::Start(s) => s.input(key, state),
            GameSystem::Playing(p) => {
                p.input(key, state);
                None
            },
            GameSystem::End(_) => None,
        };
        if let Some(e) = ev {
            self.receive_event(e);
        }
    }

    /// A tick at time `now` (milliseconds of a monotonic clock) that spawns
    /// template `shape` if a new piece is needed.
    pub fn update_with(&mut self, now: u64, shape: usize)
        requires
            old(self).wf(),
            shape < SHAPE_COUNT,
        ensures
            final(self).wf(),
            final(self)@ == old(self)@.ticked(now as int, shape as int),
    {
        let ev = match self {
            GameSystem::Playing(p) => p.update_with(now, shape),
            _ => None,
        };
        if let Some(e) = ev {
            self.receive_event(e);
        }
    }

    /// A tick at time `now`, with the template of a new piece drawn at random.
    pub fn update(&mut self, now: u64)
        requires
            old(self).wf(),
        ensures
            final(self).wf(),
            exists|shape: int| 0 <= shape < SHAPE_COUNT && final(self)@ == old(self)@.ticked(now as int, shape),
    {
        let shape = random_index(SHAPE_COUNT);
        self.update_with(now, shape)
    }

    /// What there is to draw in the live state.
    pub fn context(&self) -> (r: GameContext<'_>)
        requires
            self.wf(),
        ensures
            r is Start <==> self is Start,
            r matches GameContext::End(c) ==> self@ == SessionView::End(c.score as int),
            r matches GameContext::Playing(c) ==> self@ matches SessionView::Playing(p) && c.blocks@
                == p.board && playing::piece_view(*c.block_set) == p.piece && c.score == p.score,
    {
        match self {
            GameSystem::Start(_) => GameContext::Start,
            GameSystem::Playing(p) => GameContext::Playing(p.context()),
            GameSystem::End(e) => GameContext::End(e.context()),
        }
    }
}


/// When a tick's new piece does not fit, the session ends with the score the
/// game had reached, and from then on no key event and no tick changes it.
pub proof fn lemma_top_out_ends_session(
    p: PlayView,
    now: int,
    shape: int,
    key: Key,
    state: KeyState,
    later: int,
    next_shape: int,
)
    requires
        p.inv(),
        p.tops_out(now, shape),
    ensures
        SessionView::Playing(p).ticked(now, shape) == SessionView::End(p.settled().score),
        SessionView::End(p.settled().score).after_input(key, state) == SessionView::End(
            p.settled().score,
        ),
        SessionView::End(p.settled().score).ticked(later, next_shape) == SessionView::End(
            p.settled().score,
        ),
{
    if p.lockable() {
        crate::playing::lemma_lock_clears_full_rows(p);
    }
}

/// On the title screen the confirm key starts a fresh game: an empty board,
/// score zero, no piece. The first tick then brings in a piece at the spawn
/// point, and the game goes on.
pub proof fn lemma_confirm_starts_game(held: Set<Key>, now: int, shape: int)
    requires
        !held.contains(Key::Confirm),
        0 <= shape < SHAPE_COUNT,
    ensures
        SessionView::Start(held).after_input(Key::Confirm, KeyState::Pressed) == SessionView::Playing(
            fresh_play(),
        ),
        fresh_play().board == BoardView::empty(BLOCK_WIDTH as int, BLOCK_HEIGHT as int),
        fresh_play().score == 0,
        fresh_play().piece is None,
        SessionView::Playing(fresh_play()).ticked(now, shape) == SessionView::Playing(
            PlayView { piece: Some(spawn_piece(shape)), last_update: Some(now), ..fresh_play() },
        ),
{
    lemma_spawn_fits_empty_board(shape);
}

/// Before the gravity interval has passed, a tick leaves the session as it is.
pub proof fn lemma_early_tick_leaves_session(s: SessionView, now: int, shape: int)
    requires
        s matches SessionView::Playing(p) ==> !p.due(now),
    ensures
        s.ticked(now, shape) == s,
{
}

} // verus!
