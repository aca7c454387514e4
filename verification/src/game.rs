//! A round of the game: the cat, the food, the queue of headings and the
//! clock, and the order in which one step of the simulation deals with them.

use vstd::prelude::*;
use crate::cat::{
    blocked, cells_of, crashed, grown, lemma_cells_occupied, lemma_crashed_shape,
    lemma_grown_shape, lemma_moved_shape, mouthed, moved, occupied, valid, well_formed, Chain,
    Segment,
};
use crate::control::{
    control_cat, headed, lemma_no_reversal, pressed, pushed, resolved, update_cat_head_dir,
    ArrowKeys, InputBuffer, INPUT_CAPACITY,
};
use crate::direction::Direction;
use crate::food::{consume_food, is_free, is_full, Food, Meal};
use crate::level::{initial_chain, reset_level, spawn_level};
use crate::ticktimer::{
    advance_tick_timer, pause_tick_timer, tick_passed, unpause_tick_timer, TickTimer,
    TICK_INTERVAL,
};

verus! {

/// Where a round stands.
#[derive(Clone, Copy, PartialEq, Eq, Structural, Debug)]
pub enum GameState {
    /// No round has begun.
    Idle,
    /// The clock runs and the cat moves.
    Running,
    /// The clock stands still until the round is resumed.
    Paused,
    /// The round has ended; only a reset leads on.
    Over,
}

/// What one step of the simulation came to.
#[derive(Clone, Copy, PartialEq, Eq, Structural, Debug)]
pub enum TickEvent {
    /// The round does not run, or no interval has passed: nothing moved.
    Skipped,
    /// The cat moved by one cell.
    Moved,
    /// The cat moved, ate the food and grew; new food lies on a free cell.
    Ate,
    /// The cat ran into itself, and the round is over.
    Crashed,
    /// The cat moved, ate the food and grew, and no cell is left for new
    /// food: the round is over.
    BoardFull,
}

/// All that belongs to one round.
#[derive(Debug)]
pub struct Round {
    pub state: GameState,
    pub cat: Chain,
    pub food: Food,
    pub input_buffer: InputBuffer,
    pub tick_timer: TickTimer,
}

/// A round as the contracts see it.
pub struct RoundView {
    pub state: GameState,
    pub cat: Seq<Segment>,
    pub food: Food,
    pub input: Seq<Direction>,
    pub tick_timer: TickTimer,
}

impl View for Round {
    type V = RoundView;

    open spec fn view(&self) -> RoundView {
        RoundView {
            state: self.state,
            cat: self.cat@,
            food: self.food,
            input: self.input_buffer@,
            tick_timer: self.tick_timer,
        }
    }
}

/// The chain `s` at the end of a move, before food and crashes are looked
/// at: the head has settled its heading from the queue `q`, the chain has
/// moved by one cell, and the head has opened its mouth where the food is
/// within its reach.
pub open spec fn advanced(s: Seq<Segment>, q: Seq<Direction>, food: Food) -> Seq<Segment> {
    mouthed(moved(headed(s, q)), food.cell)
}

/// The queue `q` of a round in the state `state` after the keys of one frame
/// are taken: a round that runs queues the heading they ask for, if any.
pub open spec fn keyed(state: GameState, q: Seq<Direction>, keys: ArrowKeys) -> Seq<Direction> {
    match pressed(keys) {
        Some(d) if state == GameState::Running => pushed(q, d),
        _ => q,
    }
}

/// A clock that has been stopped and has forgotten the time it had gathered.
pub open spec fn halted(t: TickTimer) -> TickTimer {
    TickTimer { paused: true, ..t.cleared() }
}

impl RoundView {
    /// What holds of a round between any two calls. The chain starts with
    /// its head and lies on the field, and so does the food; the queue is
    /// within its capacity; the clock stands still exactly while the round
    /// is paused or over. Until the round is over the chain is whole, and
    /// the food lies on none of its cells.
    pub open spec fn inv(self) -> bool {
        &&& valid(self.cat)
        &&& self.food.cell.in_grid()
        &&& self.input.len() <= INPUT_CAPACITY
        &&& self.tick_timer.paused <==> (self.state == GameState::Paused || self.state
            == GameState::Over)
        &&& self.state != GameState::Over ==> well_formed(self.cat)
        &&& self.state != GameState::Over ==> !occupied(self.cat, self.food.cell)
    }

    /// Whether one step of the simulation leads from the running round
    /// `self` to `post` with the event `event`. The head settles its
    /// heading and the chain moves. A head that is then on the food eats:
    /// the chain grows, and the food moves to some cell that the chain does
    /// not lie on, or the round ends where there is none. A head that is
    /// then on a segment behind it crashes, and the round ends. Food lies on
    /// no cell of a chain in play, so a head that eats does not crash. All
    /// of `post` is fixed by `self` but the cell of the new food.
    pub open spec fn steps_to(self, post: RoundView, event: TickEvent) -> bool {
        let s = advanced(self.cat, self.input, self.food);
        &&& post.input == resolved(self.cat, self.input).1
        &&& if s[0].cell == self.food.cell {
            &&& post.cat == grown(s)
            &&& if is_full(cells_of(s)) {
                &&& event == TickEvent::BoardFull
                &&& post.food == self.food
                &&& post.state == GameState::Over
                &&& post.tick_timer == halted(self.tick_timer)
            } else {
                &&& event == TickEvent::Ate
                &&& is_free(cells_of(s), post.food.cell)
                &&& post.state == GameState::Running
                &&& post.tick_timer == self.tick_timer
            }
        } else if blocked(s, s[0].cell) {
            &&& event == TickEvent::Crashed
            &&& post.cat == crashed(s)
            &&& post.food == self.food
            &&& post.state == GameState::Over
            &&& post.tick_timer == halted(self.tick_timer)
        } else {
            &&& event == TickEvent::Moved
            &&& post.cat == s
            &&& post.food == self.food
            &&& post.state == GameState::Running
            &&& post.tick_timer == self.tick_timer
        }
    }
}

impl Round {
    /// A round that has not begun: the chain and the food are laid out, the
    /// queue is empty and the clock is at zero.
    pub fn new() -> (round: Round)
        ensures
            round@.inv(),
            round@.state == GameState::Idle,
            round@.cat == initial_chain(),
            is_free(cells_of(round@.cat), round@.food.cell),
            round@.input == Seq::<Direction>::empty(),
            round@.tick_timer == (TickTimer {
                interval: TICK_INTERVAL,
                elapsed: 0,
                paused: false,
                just_finished: false,
            }),
    {
        let level = spawn_level();
        proof {
            lemma_cells_occupied(level.0@, level.1.cell);
        }
        Round {
            state: GameState::Idle,
            cat: level.0,
            food: level.1,
            input_buffer: InputBuffer::new(),
            tick_timer: TickTimer::new(TICK_INTERVAL),
        }
    }

    /// Tells whether the round is in order, as every function of the round
    /// asks of it and leaves it.
    pub fn is_consistent(&self) -> (ok: bool)
        ensures
            ok == self@.inv(),
    {
        let over = self.state == GameState::Over;
        let halted = over || self.state == GameState::Paused;
        self.cat.is_valid() && self.food.cell.is_in_grid() && self.input_buffer.len()
            <= INPUT_CAPACITY && self.tick_timer.paused == halted && (over || (
            self.cat.is_well_formed() && !self.cat.occupies(self.food.cell)))
    }

    /// Begins the round. A round that has not begun is laid out afresh and
    /// runs; on any other round the call changes nothing and answers
    /// `false`.
    pub fn start(&mut self) -> (started: bool)
        requires
            old(self)@.inv(),
        ensures
            final(self)@.inv(),
            started == (old(self)@.state == GameState::Idle),
            !started ==> final(self)@ == old(self)@,
            started ==> {
                &&& final(self)@.state == GameState::Running
                &&& final(self)@.cat == initial_chain()
                &&& is_free(cells_of(final(self)@.cat), final(self)@.food.cell)
                &&& final(self)@.input == old(self)@.input
                &&& final(self)@.tick_timer == old(self)@.tick_timer
            },
    {
        if self.state != GameState::Idle {
            return false;
        }
        reset_level(&mut self.cat, &mut self.food);
        proof {
            lemma_cells_occupied(self.cat@, self.food.cell);
        }
        self.state = GameState::Running;
        true
    }

    /// Pauses a round that runs: the clock stops and forgets the time it had
    /// gathered. On any other round the call changes nothing and answers
    /// `false`.
    pub fn pause(&mut self) -> (paused: bool)
        requires
            old(self)@.inv(),
        ensures
            final(self)@.inv(),
            paused == (old(self)@.state == GameState::Running),
            !paused ==> final(self)@ == old(self)@,
            paused ==> final(self)@ == (RoundView {
                state: GameState::Paused,
                tick_timer: halted(old(self)@.tick_timer),
                ..old(self)@
            }),
    {
        if self.state != GameState::Running {
            return false;
        }
        pause_tick_timer(&mut self.tick_timer);
        self.state = GameState::Paused;
        true
    }

    /// Lets a paused round run again. On any other round the call changes
    /// nothing and answers `false`.
    pub fn resume(&mut self) -> (resumed: bool)
        requires
            old(self)@.inv(),
        ensures
            final(self)@.inv(),
            resumed == (old(self)@.state == GameState::Paused),
            !resumed ==> final(self)@ == old(self)@,
            resumed ==> final(self)@ == (RoundView {
                state: GameState::Running,
                tick_timer: TickTimer { paused: false, ..old(self)@.tick_timer },
                ..old(self)@
            }),
    {
        if self.state != GameState::Paused {
            return false;
        }
        unpause_tick_timer(&mut self.tick_timer);
        self.state = GameState::Running;
        true
    }

    /// Begins a new round after one that is over: the chain and the food
    /// are laid out afresh, the queue is emptied and the clock runs again.
    /// On a round that is not over the call changes nothing and answers
    /// `false`.
    pub fn reset(&mut self) -> (restarted: bool)
        requires
            old(self)@.inv(),
        ensures
            final(self)@.inv(),
            restarted == (old(self)@.state == GameState::Over),
            !restarted ==> final(self)@ == old(self)@,
            restarted ==> {
                &&& final(self)@.state == GameState::Running
                &&& final(self)@.cat == initial_chain()
                &&& is_free(cells_of(final(self)@.cat), final(self)@.food.cell)
                &&& final(self)@.input == Seq::<Direction>::empty()
                &&& final(self)@.tick_timer == (TickTimer {
                    paused: false,
                    ..old(self)@.tick_timer
                })
            },
    {
        if self.state != GameState::Over {
            return false;
        }
        reset_level(&mut self.cat, &mut self.food);
        proof {
            lemma_cells_occupied(self.cat@, self.food.cell);
        }
        self.input_buffer.clear();
        unpause_tick_timer(&mut self.tick_timer);
        self.state = GameState::Running;
        true
    }

    /// Takes the keys of one frame. A round that runs queues the heading
    /// they ask for; any other round ignores them.
    pub fn control(&mut self, keys: ArrowKeys)
        requires
            old(self)@.inv(),
        ensures
            final(self)@.inv(),
            final(self)@ == (RoundView {
                input: keyed(old(self)@.state, old(self)@.input, keys),
                ..old(self)@
            }),
    {
        if self.state == GameState::Running {
            control_cat(keys, &mut self.input_buffer);
        }
    }

    /// Makes one step of the simulation on a round that runs: the head
    /// settles its heading from the queue, the chain moves, the head opens
    /// its mouth near the food, the food is eaten where the head is on it,
    /// and a crash of the head into the chain ends the round. A round that
    /// does not run is left as it is.
    pub fn tick(&mut self) -> (event: TickEvent)
        requires
            old(self)@.inv(),
        ensures
            final(self)@.inv(),
            old(self)@.state != GameState::Running ==> {
                &&& event == TickEvent::Skipped
                &&& final(self)@ == old(self)@
            },
            old(self)@.state == GameState::Running ==> old(self)@.steps_to(final(self)@, event),
    {
        if self.state != GameState::Running {
            return TickEvent::Skipped;
        }
        let ghost pre = self@;
        let ghost s = advanced(pre.cat, pre.input, pre.food);
        proof {
            lemma_advanced_shape(pre.cat, pre.input, pre.food);
        }
        update_cat_head_dir(&mut self.cat, &mut self.input_buffer);
        assert(well_formed(self.cat@));
        self.cat.move_cat();
        self.cat.open_mouth_if_near_food(self.food.cell);
        assert(self.cat@ == s);
        let meal = consume_food(&mut self.cat, &mut self.food);
        proof {
            if meal != Meal::Missed {
                lemma_meal_is_safe(pre.cat, pre.input, pre.food);
            }
        }
        let hit = self.cat.handle_hit();
        let event = if hit {
            TickEvent::Crashed
        } else {
            match meal {
                Meal::Missed => TickEvent::Moved,
                Meal::Eaten => TickEvent::Ate,
                Meal::BoardFull => TickEvent::BoardFull,
            }
        };
        if hit || meal == Meal::BoardFull {
            pause_tick_timer(&mut self.tick_timer);
            self.state = GameState::Over;
        }
        proof {
            assert(pre.steps_to(self@, event));
            lemma_step(pre, self@, event);
        }
        event
    }

    /// Runs one frame of `delta` nanoseconds on a round that runs: the clock
    /// gathers the time, the keys are taken, and where the clock reports an
    /// interval the simulation makes one step. A round that does not run is
    /// left as it is.
    pub fn update(&mut self, delta: u64, keys: ArrowKeys) -> (event: TickEvent)
        requires
            old(self)@.inv(),
        ensures
            final(self)@.inv(),
            old(self)@.state != GameState::Running ==> {
                &&& event == TickEvent::Skipped
                &&& final(self)@ == old(self)@
            },
            old(self)@.state == GameState::Running ==> {
                let framed = RoundView {
                    input: keyed(GameState::Running, old(self)@.input, keys),
                    tick_timer: old(self)@.tick_timer.ticked(delta),
                    ..old(self)@
                };
                if framed.tick_timer.just_finished {
                    framed.steps_to(final(self)@, event)
                } else {
                    event == TickEvent::Skipped && final(self)@ == framed
                }
            },
    {
        if self.state != GameState::Running {
            return TickEvent::Skipped;
        }
        advance_tick_timer(delta, &mut self.tick_timer);
        self.control(keys);
        if tick_passed(&self.tick_timer) {
            self.tick()
        } else {
            TickEvent::Skipped
        }
    }
}

/// The shape of a whole chain at the end of a move. It is whole again and
/// as long as before. Its head has taken the heading that was settled and
/// has stepped one cell in it; every other segment is in the cell that the
/// segment before it has left, so that the chain has neither gaps nor a cell
/// that it did not have or just stepped on.
pub proof fn lemma_advanced_shape(s: Seq<Segment>, q: Seq<Direction>, food: Food)
    requires
        well_formed(s),
    ensures
        well_formed(advanced(s, q, food)),
        advanced(s, q, food).len() == s.len(),
        advanced(s, q, food)[0].direction == resolved(s, q).0,
        advanced(s, q, food)[0].cell == s[0].cell.stepped(resolved(s, q).0),
        forall|i: int|
            1 <= i < s.len() ==> (#[trigger] advanced(s, q, food)[i]).cell == s[i - 1].cell,
{
    let h = headed(s, q);
    let m = moved(h);
    let a = mouthed(m, food.cell);
    assert(well_formed(h));
    lemma_moved_shape(h);
    assert forall|i: int| 1 <= i < s.len() implies (#[trigger] a[i]).cell == s[i - 1].cell by {
        assert(m[i].cell == h[i - 1].cell);
    }
}

/// One step of the simulation on a round that runs and is in order. The
/// round is in order afterwards; in particular the food, also where it is
/// new, lies on no cell of the chain until the round is over. The head has
/// the heading that was settled, which is never the reverse of the one it
/// had. The chain keeps its length when it only moves, gains one segment
/// when it eats, and loses one when it crashes; after a crash the head is
/// back in the cell it came from.
pub proof fn lemma_step(pre: RoundView, post: RoundView, event: TickEvent)
    requires
        pre.inv(),
        pre.state == GameState::Running,
        pre.steps_to(post, event),
    ensures
        post.inv(),
        event != TickEvent::Skipped,
        post.state == GameState::Over <==> (event == TickEvent::Crashed || event
            == TickEvent::BoardFull),
        post.state == GameState::Running <==> (event == TickEvent::Moved || event
            == TickEvent::Ate),
        post.cat[0].direction == resolved(pre.cat, pre.input).0,
        post.cat[0].direction != pre.cat[0].direction.reversed(),
        event == TickEvent::Moved ==> post.cat.len() == pre.cat.len(),
        event == TickEvent::Ate || event == TickEvent::BoardFull ==> post.cat.len()
            == pre.cat.len() + 1,
        event == TickEvent::Crashed ==> post.cat.len() == pre.cat.len() - 1,
        event == TickEvent::Crashed ==> post.cat[0].cell == pre.cat[0].cell,
        event != TickEvent::Crashed ==> post.cat[0].cell == pre.cat[0].cell.stepped(
            post.cat[0].direction,
        ),
        event == TickEvent::Ate ==> post.food.cell != pre.food.cell,
{
    let s = advanced(pre.cat, pre.input, pre.food);
    lemma_advanced_shape(pre.cat, pre.input, pre.food);
    lemma_no_reversal(pre.cat, pre.input);
    if s[0].cell == pre.food.cell {
        lemma_grown_shape(s, post.food.cell);
        if !is_full(cells_of(s)) {
            lemma_cells_occupied(s, post.food.cell);
            lemma_cells_occupied(s, pre.food.cell);
        }
    } else if blocked(s, s[0].cell) {
        lemma_crashed_shape(s, pre.cat[0].cell);
    } else {
        lemma_advanced_clear(pre.cat, pre.input, pre.food);
    }
}

/// Where food lay on no cell of a whole chain and the head has not stepped
/// on it, the food lies on no cell of the chain after the move.
pub proof fn lemma_advanced_clear(s: Seq<Segment>, q: Seq<Direction>, food: Food)
    requires
        well_formed(s),
        !occupied(s, food.cell),
        advanced(s, q, food)[0].cell != food.cell,
    ensures
        !occupied(advanced(s, q, food), food.cell),
{
    let a = advanced(s, q, food);
    lemma_advanced_shape(s, q, food);
    if occupied(a, food.cell) {
        let i = choose|i: int| 0 <= i < a.len() && (#[trigger] a[i]).cell == food.cell;
        assert(i >= 1);
        assert(s[i - 1].cell == food.cell);
    }
}

/// Where the head of a whole chain has stepped on food that lay on no cell
/// of the chain, it has not run into the chain, neither before nor after the
/// chain has grown.
pub proof fn lemma_meal_is_safe(s: Seq<Segment>, q: Seq<Direction>, food: Food)
    requires
        well_formed(s),
        !occupied(s, food.cell),
        advanced(s, q, food)[0].cell == food.cell,
    ensures
        !blocked(advanced(s, q, food), food.cell),
        !blocked(grown(advanced(s, q, food)), food.cell),
{
    let a = advanced(s, q, food);
    let g = grown(a);
    let n = s.len() as int;
    lemma_advanced_shape(s, q, food);
    if blocked(a, food.cell) {
        let i = choose|i: int| 1 <= i < a.len() && (#[trigger] a[i]).cell == food.cell;
        assert(s[i - 1].cell == food.cell);
    }
    if blocked(g, food.cell) {
        let i = choose|i: int| 1 <= i < g.len() && (#[trigger] g[i]).cell == food.cell;
        if i < n - 1 {
            assert(g[i] == a[i]);
            assert(s[i - 1].cell == food.cell);
        } else {
            assert(g[i].cell == a[n - 1].cell);
            assert(s[n - 2].cell == food.cell);
        }
    }
}

} // verus!
