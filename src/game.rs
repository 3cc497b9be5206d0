use crate::grid::{can_step, step, step_spec, Direction, Position, GRID_HEIGHT, GRID_WIDTH};
use crate::random::random_below;
use vstd::prelude::*;

verus! {

/// Column of the head when a game starts.
pub const SPAWN_X: i32 = 3;

/// Row of the head when a game starts; the one body segment sits one row below.
pub const SPAWN_Y: i32 = 3;

/// A broken sequencing assumption of the simulation.
#[derive(Clone, Copy, Debug, PartialEq, Eq, Structural)]
pub enum SnakeError {
    /// Growth was asked for before any move recorded a vacated tail cell.
    NoLastPosition,
}

/// What one movement tick signalled.
#[derive(Clone, Copy, Debug, PartialEq, Eq, Structural)]
pub struct TickEvents {
    /// The head left the board or ran into the body.
    pub game_over: bool,
    /// Food items eaten by the head this tick.
    pub growth_signals: usize,
}

/// The whole state of one game: the snake (head first), its pending heading,
/// the heading of its latest move, the cell its tail vacated on that move, and
/// the food on the board.
pub struct Game {
    pub segments: Vec<Position>,
    pub direction: Direction,
    pub moved_heading: Direction,
    pub last_tail: Option<Position>,
    pub foods: Vec<Position>,
}

/// The snake of a fresh game: head at the spawn cell, one segment behind it.
pub open spec fn spawn_segments() -> Seq<Position> {
    seq![Position { x: SPAWN_X, y: SPAWN_Y }, Position { x: SPAWN_X, y: (SPAWN_Y - 1) as i32 }]
}

/// The snake after one step: the head advances, every other segment takes
/// the place of the one ahead of it.
pub open spec fn moved(segs: Seq<Position>, d: Direction) -> Seq<Position> {
    Seq::new(segs.len(), |i: int| if i == 0 { step_spec(segs[0], d) } else { segs[i - 1] })
}

/// A head at `head` ends the game: it is off the board or on a cell the snake
/// held before the move.
pub open spec fn hits(segs: Seq<Position>, head: Position) -> bool {
    !head.in_grid_spec() || segs.contains(head)
}

/// `foods` with every item at `p` taken out, order kept.
pub open spec fn without(foods: Seq<Position>, p: Position) -> Seq<Position>
    decreases foods.len(),
{
    if foods.len() == 0 {
        Seq::empty()
    } else {
        let rest = without(foods.drop_last(), p);
        if foods.last() == p {
            rest
        } else {
            rest.push(foods.last())
        }
    }
}

/// How many items of `foods` lie at `p`.
pub open spec fn count_at(foods: Seq<Position>, p: Position) -> nat
    decreases foods.len(),
{
    if foods.len() == 0 {
        0
    } else {
        count_at(foods.drop_last(), p) + if foods.last() == p { 1nat } else { 0nat }
    }
}

/// The direction asked for by the held keys, checked in the order up, left,
/// right, down; `current` when none is held.
pub open spec fn requested(up: bool, left: bool, right: bool, down: bool, current: Direction) -> Direction {
    if up {
        Direction::Up
    } else if left {
        Direction::Left
    } else if right {
        Direction::Right
    } else if down {
        Direction::Down
    } else {
        current
    }
}

/// Eating at `p` leaves no food at `p`, keeps every other item, and takes out
/// exactly as many items as growth signals are raised.
pub proof fn lemma_eating(foods: Seq<Position>, p: Position)
    ensures
        !without(foods, p).contains(p),
        forall|q: Position| q != p ==> (without(foods, p).contains(q) <==> foods.contains(q)),
        without(foods, p).len() + count_at(foods, p) == foods.len(),
        foods.contains(p) <==> count_at(foods, p) > 0,
    decreases foods.len(),
{
    if foods.len() > 0 {
        let init = foods.drop_last();
        lemma_eating(init, p);
        assert forall|q: Position| foods.contains(q) <==> (init.contains(q) || foods.last() == q) by {
            if foods.contains(q) {
                let j = choose|j: int| 0 <= j < foods.len() && foods[j] == q;
                if j < foods.len() - 1 {
                    assert(init[j] == q);
                }
            }
            if init.contains(q) {
                let j = choose|j: int| 0 <= j < init.len() && init[j] == q;
                assert(foods[j] == q);
            }
            if foods.last() == q {
                assert(foods[foods.len() - 1] == q);
            }
        }
        let rest = without(init, p);
        if foods.last() != p {
            assert forall|q: Position| rest.push(foods.last()).contains(q) <==> (rest.contains(q) || foods.last() == q) by {
                if rest.push(foods.last()).contains(q) {
                    let j = choose|j: int| 0 <= j < rest.len() + 1 && rest.push(foods.last())[j] == q;
                    if j < rest.len() {
                        assert(rest[j] == q);
                    }
                }
                if rest.contains(q) {
                    let j = choose|j: int| 0 <= j < rest.len() && rest[j] == q;
                    assert(rest.push(foods.last())[j] == q);
                }
                if foods.last() == q {
                    assert(rest.push(foods.last())[rest.len() as int] == q);
                }
            }
        }
    }
}

impl Game {
    /// The snake is at its spawn configuration.
    pub open spec fn is_spawn_state(self) -> bool {
        &&& self.segments@ == spawn_segments()
        &&& self.direction == Direction::Up
        &&& self.moved_heading == Direction::Up
    }

    /// The pending heading does not turn the snake back on its latest move.
    pub open spec fn heading_ok(self) -> bool {
        self.direction != self.moved_heading.opposite_spec()
    }

    /// The snake is never empty, it and its vacated tail cell are on the
    /// board, and its pending heading does not reverse its latest move.
    pub open spec fn inv(self) -> bool {
        &&& self.segments@.len() >= 1
        &&& self.heading_ok()
        &&& forall|i: int| 0 <= i < self.segments@.len() ==> (#[trigger] self.segments@[i]).in_grid_spec()
        &&& (self.last_tail matches Some(t) ==> t.in_grid_spec())
    }

    pub fn new() -> (g: Game)
        ensures
            g.is_spawn_state(),
            g.foods@.len() == 0,
            g.last_tail.is_none(),
            g.inv(),
    {
        let mut g = Game {
            segments: Vec::new(),
            direction: Direction::Up,
            moved_heading: Direction::Up,
            last_tail: None,
            foods: Vec::new(),
        };
        g.spawn_snake();
        g
    }

    /// Puts the snake back at its spawn configuration; food and the vacated
    /// tail cell are kept.
    pub fn spawn_snake(&mut self)
        ensures
            final(self).is_spawn_state(),
            final(self).foods == old(self).foods,
            final(self).last_tail == old(self).last_tail,
    {
        self.segments = vec![
            Position { x: SPAWN_X, y: SPAWN_Y },
            Position { x: SPAWN_X, y: SPAWN_Y - 1 },
        ];
        self.direction = Direction::Up;
        self.moved_heading = Direction::Up;
        assert(self.segments@ =~= spawn_segments());
    }

    /// Advances the snake one cell in its heading. Every other segment takes
    /// the pre-move place of the one ahead of it, and the cell the tail held
    /// is recorded, as is the heading moved in. Returns whether the new head
    /// is off the board or on a cell the snake held before the move; the
    /// shift completes either way. An empty snake is left as it is.
    pub fn snake_movement(&mut self) -> (game_over: bool)
        requires
            old(self).segments@.len() >= 1 ==> can_step(old(self).segments@[0]),
        ensures
            old(self).segments@.len() == 0 ==> !game_over && *final(self) == *old(self),
            final(self).segments@ == moved(old(self).segments@, old(self).direction),
            final(self).segments@.len() == old(self).segments@.len(),
            old(self).segments@.len() >= 1 ==> final(self).segments@[0] == step_spec(
                old(self).segments@[0],
                old(self).direction,
            ),
            forall|i: int|
                1 <= i < old(self).segments@.len() ==> #[trigger] final(self).segments@[i]
                    == old(self).segments@[i - 1],
            old(self).segments@.len() >= 1 ==> final(self).last_tail == Some(
                old(self).segments@.last(),
            ),
            old(self).segments@.len() >= 1 ==> game_over == hits(
                old(self).segments@,
                final(self).segments@[0],
            ),
            old(self).segments@.len() >= 1 ==> final(self).moved_heading == old(self).direction,
            final(self).direction == old(self).direction,
            final(self).foods == old(self).foods,
    {
        let ghost before = self.segments@;
        let n = self.segments.len();
        if n == 0 {
            assert(self.segments@ =~= moved(before, self.direction));
            return false;
        }
        let head = step(self.segments[0], self.direction);
        let mut occupied = false;
        let mut i: usize = 0;
        while i < n
            invariant
                n == before.len(),
                self.segments@ == before,
                0 <= i <= n,
                occupied == exists|j: int| 0 <= j < i && before[j] == head,
            decreases n - i,
        {
            if self.segments[i] == head {
                occupied = true;
            }
            i = i + 1;
        }
        let game_over = !head.in_grid() || occupied;
        proof {
            if occupied {
                let j = choose|j: int| 0 <= j < n && before[j] == head;
                assert(before[j] == head);
            }
        }
        let mut next: Vec<Position> = Vec::new();
        next.push(head);
        let mut k: usize = 0;
        while k + 1 < n
            invariant
                n == before.len(),
                self.segments@ == before,
                0 <= k < n,
                next@.len() == k + 1,
                next@[0] == head,
                forall|j: int| 1 <= j <= k ==> #[trigger] next@[j] == before[j - 1],
            decreases n - k,
        {
            next.push(self.segments[k]);
            k = k + 1;
        }
        let tail = self.segments[n - 1];
        self.segments = next;
        self.last_tail = Some(tail);
        self.moved_heading = self.direction;
        assert(self.segments@ =~= moved(before, self.direction));
        game_over
    }

    /// Takes the held direction keys of this frame. The pending heading
    /// becomes the direction they ask for unless that is the opposite of the
    /// current heading or of the heading of the latest move; so any number of
    /// frames between two moves cannot turn the snake back onto its neck.
    pub fn snake_movement_input(&mut self, up: bool, left: bool, right: bool, down: bool)
        ensures
            final(self).direction == (if requested(up, left, right, down, old(self).direction)
                != old(self).direction.opposite_spec() && requested(
                up,
                left,
                right,
                down,
                old(self).direction,
            ) != old(self).moved_heading.opposite_spec() {
                requested(up, left, right, down, old(self).direction)
            } else {
                old(self).direction
            }),
            final(self).direction != old(self).direction.opposite_spec(),
            old(self).heading_ok() ==> final(self).direction
                != old(self).moved_heading.opposite_spec(),
            old(self).heading_ok() ==> final(self).heading_ok(),
            final(self).moved_heading == old(self).moved_heading,
            final(self).segments == old(self).segments,
            final(self).foods == old(self).foods,
            final(self).last_tail == old(self).last_tail,
    {
        let dir = if up {
            Direction::Up
        } else if left {
            Direction::Left
        } else if right {
            Direction::Right
        } else if down {
            Direction::Down
        } else {
            self.direction
        };
        if dir != self.direction.opposite() && dir != self.moved_heading.opposite() {
            self.direction = dir;
        }
        proof {
            crate::grid::lemma_opposite_differs(old(self).direction);
        }
    }

    /// Takes out every food item at the head and returns how many there were:
    /// one growth signal each.
    pub fn snake_eating(&mut self) -> (signals: usize)
        requires
            old(self).segments@.len() >= 1,
        ensures
            final(self).foods@ == without(old(self).foods@, old(self).segments@[0]),
            signals == count_at(old(self).foods@, old(self).segments@[0]),
            final(self).segments == old(self).segments,
            final(self).direction == old(self).direction,
            final(self).moved_heading == old(self).moved_heading,
            final(self).last_tail == old(self).last_tail,
    {
        let head = self.segments[0];
        let ghost before = self.foods@;
        let mut kept: Vec<Position> = Vec::new();
        let mut signals: usize = 0;
        let mut i: usize = 0;
        while i < self.foods.len()
            invariant
                self.foods@ == before,
                0 <= i <= before.len(),
                kept@ == without(before.subrange(0, i as int), head),
                signals == count_at(before.subrange(0, i as int), head),
                signals <= i,
            decreases before.len() - i,
        {
            proof {
                assert(before.subrange(0, i + 1).drop_last() =~= before.subrange(0, i as int));
                assert(before.subrange(0, i + 1).last() == before[i as int]);
            }
            let f = self.foods[i];
            if f == head {
                signals = signals + 1;
            } else {
                kept.push(f);
            }
            i = i + 1;
        }
        assert(before.subrange(0, before.len() as int) =~= before);
        self.foods = kept;
        signals
    }

    /// Appends one segment at the recorded vacated tail cell when at least one
    /// growth signal came this tick; further signals of the same tick add
    /// nothing. Growth before any move is refused.
    pub fn snake_growth(&mut self, signals: usize) -> (r: Result<(), SnakeError>)
        ensures
            r is Err <==> (signals > 0 && old(self).last_tail is None),
            r is Err ==> r == Err::<(), SnakeError>(SnakeError::NoLastPosition),
            final(self).segments@ == (if signals > 0 && old(self).last_tail is Some {
                old(self).segments@.push(old(self).last_tail->Some_0)
            } else {
                old(self).segments@
            }),
            final(self).direction == old(self).direction,
            final(self).moved_heading == old(self).moved_heading,
            final(self).foods == old(self).foods,
            final(self).last_tail == old(self).last_tail,
    {
        if signals == 0 {
            return Ok(());
        }
        match self.last_tail {
            Some(tail) => {
                self.segments.push(tail);
                Ok(())
            },
            None => Err(SnakeError::NoLastPosition),
        }
    }

    /// On a game-over signal, takes away all food and every segment, forgets
    /// the vacated tail cell and puts the snake back at its spawn
    /// configuration; otherwise changes nothing.
    pub fn game_over(&mut self, signal: bool)
        ensures
            signal ==> final(self).is_spawn_state() && final(self).foods@.len() == 0,
            signal ==> final(self).last_tail.is_none(),
            !signal ==> *final(self) == *old(self),
    {
        if signal {
            self.foods.clear();
            self.spawn_snake();
            self.last_tail = None;
        }
    }

    /// Puts a food item at `pos`, whatever lies there already.
    pub fn place_food(&mut self, pos: Position)
        ensures
            final(self).foods@ == old(self).foods@.push(pos),
            final(self).segments == old(self).segments,
            final(self).direction == old(self).direction,
            final(self).moved_heading == old(self).moved_heading,
            final(self).last_tail == old(self).last_tail,
    {
        self.foods.push(pos);
    }

    /// Puts a food item on a cell of the board drawn at random; neither the
    /// snake nor other food is avoided.
    pub fn spawn_food(&mut self)
        ensures
            final(self).foods@.len() == old(self).foods@.len() + 1,
            final(self).foods@.drop_last() == old(self).foods@,
            final(self).foods@.last().in_grid_spec(),
            final(self).segments == old(self).segments,
            final(self).direction == old(self).direction,
            final(self).moved_heading == old(self).moved_heading,
            final(self).last_tail == old(self).last_tail,
    {
        let x = random_below(GRID_WIDTH);
        let y = random_below(GRID_HEIGHT);
        self.place_food(Position { x, y });
        assert(self.foods@.drop_last() =~= old(self).foods@);
    }

    /// One movement tick: move, check for collision, eat, then reset on game
    /// over or else grow by at most one segment.
    pub fn tick(&mut self) -> (ev: TickEvents)
        requires
            old(self).inv(),
        ensures
            final(self).inv(),
            final(self).segments@.len() >= 1,
            ev.game_over == hits(
                old(self).segments@,
                step_spec(old(self).segments@[0], old(self).direction),
            ),
            ev.growth_signals == count_at(
                old(self).foods@,
                step_spec(old(self).segments@[0], old(self).direction),
            ),
            !ev.game_over ==> final(self).last_tail == Some(old(self).segments@.last()),
            ev.game_over ==> final(self).last_tail.is_none(),
            ev.game_over ==> final(self).is_spawn_state() && final(self).foods@.len() == 0,
            ev.game_over ==> final(self).segments@ == spawn_segments(),
            !ev.game_over ==> final(self).foods@ == without(
                old(self).foods@,
                step_spec(old(self).segments@[0], old(self).direction),
            ),
            !ev.game_over ==> final(self).segments@ == (if ev.growth_signals > 0 {
                moved(old(self).segments@, old(self).direction).push(old(self).segments@.last())
            } else {
                moved(old(self).segments@, old(self).direction)
            }),
            !ev.game_over ==> final(self).direction == old(self).direction,
            !ev.game_over ==> final(self).moved_heading == old(self).direction,
    {
        proof {
            crate::grid::lemma_in_grid_can_step(self.segments@[0]);
        }
        let game_over = self.snake_movement();
        proof {
            crate::grid::lemma_opposite_differs(self.direction);
        }
        let signals = self.snake_eating();
        if game_over {
            self.game_over(true);
        } else {
            let grown = self.snake_growth(signals);
            assert(grown is Ok);
        }
        proof {
            let n = old(self).segments@.len();
            if !game_over {
                assert forall|i: int| 0 <= i < self.segments@.len() implies
                    (#[trigger] self.segments@[i]).in_grid_spec() by {
                    if i >= 1 && i < n {
                        assert(self.segments@[i] == old(self).segments@[i - 1]);
                    } else if i >= n {
                        assert(self.segments@[i] == old(self).segments@[n - 1]);
                    }
                }
            } else {
                assert(self.segments@[0] == spawn_segments()[0]);
                assert(self.segments@[1] == spawn_segments()[1]);
            }
        }
        TickEvents { game_over, growth_signals: signals }
    }
}

} // verus!
