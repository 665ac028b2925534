//! Forward-only hazard schedules: predictors that watch the start of a
//! game and then emit the hazard square each future turn brings, one turn
//! at a time. The engine itself never consumes these; they are companions
//! for callers that want to project hazards ahead.
use vstd::prelude::*;

use crate::types::Move;
use crate::wire_representation::{Game, Position};

verus! {

/// Why an observation was refused.
#[derive(Debug, Clone, Copy, PartialEq, Eq, Structural)]
pub enum HazardError {
    /// the algorithm has already locked on and only winds forward now
    AlreadyReady,
    /// more than one hazard square appeared before the seed was seen
    MissedSeed,
}

/// The integer square root: the greatest value whose square is at most `n`.
pub open spec fn spec_isqrt(n: int) -> int
    decreases n,
{
    if n <= 0 {
        0
    } else {
        let p = spec_isqrt(n - 1);
        if (p + 1) * (p + 1) <= n {
            p + 1
        } else {
            p
        }
    }
}

/// The integer square root brackets its argument between two squares.
pub proof fn lemma_isqrt_bounds(n: int)
    requires
        n >= 0,
    ensures
        0 <= spec_isqrt(n),
        spec_isqrt(n) * spec_isqrt(n) <= n,
        n < (spec_isqrt(n) + 1) * (spec_isqrt(n) + 1),
    decreases n,
{
    if n > 0 {
        lemma_isqrt_bounds(n - 1);
        let p = spec_isqrt(n - 1);
        if (p + 1) * (p + 1) <= n {
            assert((p + 1) * (p + 1) < (p + 2) * (p + 2)) by (nonlinear_arith)
                requires
                    p >= 0,
            ;
        } else {
        }
    }
}

/// Only one value sits between consecutive squares around `n`.
pub proof fn lemma_isqrt_unique(n: int, b: int)
    requires
        n >= 0,
        b >= 0,
        b * b <= n,
        n < (b + 1) * (b + 1),
    ensures
        b == spec_isqrt(n),
{
    lemma_isqrt_bounds(n);
    let s = spec_isqrt(n);
    assert(b < s + 1 && s < b + 1) by (nonlinear_arith)
        requires
            b >= 0,
            s >= 0,
            b * b <= n,
            n < (b + 1) * (b + 1),
            s * s <= n,
            n < (s + 1) * (s + 1),
    ;
}

/// the integer square root of `n`
#[verifier::loop_isolation(false)]
pub fn isqrt(n: u32) -> (r: u32)
    ensures
        r as int == spec_isqrt(n as int),
        r * r <= n,
        n < (r + 1) * (r + 1),
{
    let mut b: u32 = 0;
    while b < 65535 && square_at_most(b + 1, n)
        invariant
            b <= 65535,
            b * b <= n,
        decreases 65535 - b,
    {
        b = b + 1;
    }
    proof {
        if b == 65535 {
            assert((b + 1) * (b + 1) > n) by (nonlinear_arith)
                requires
                    b == 65535,
                    n <= u32::MAX,
            ;
        }
        lemma_isqrt_unique(n as int, b as int);
    }
    b
}

/// Whether the square of `c` is at most `n`.
fn square_at_most(c: u32, n: u32) -> (r: bool)
    requires
        c <= 65535,
    ensures
        r == (c * c <= n),
{
    proof {
        assert(c * c <= 0xffff_ffff) by (nonlinear_arith)
            requires
                c <= 65535,
        ;
    }
    c * c <= n
}

/// The smallest odd perfect square strictly above `n`: the hazard spiral
/// grows by odd squares, one ring at a time.
pub open spec fn spec_next_odd_square(n: int) -> int {
    let base = spec_isqrt(n);
    let next = if (base + 1) % 2 == 0 {
        base + 2
    } else {
        base + 1
    };
    next * next
}

/// What `spec_next_odd_square` gives: an odd square strictly above `n`,
/// and no odd square fits between.
pub proof fn lemma_next_odd_square(n: int)
    requires
        n >= 0,
    ensures
        spec_next_odd_square(n) > n,
        ({
            let next = if (spec_isqrt(n) + 1) % 2 == 0 {
                spec_isqrt(n) + 2
            } else {
                spec_isqrt(n) + 1
            };
            next % 2 == 1 && spec_next_odd_square(n) == next * next
        }),
        forall|j: int| j >= 0 && j % 2 == 1 && #[trigger] (j * j) > n ==> j * j >= spec_next_odd_square(n),
{
    lemma_isqrt_bounds(n);
    let base = spec_isqrt(n);
    let next = if (base + 1) % 2 == 0 {
        base + 2
    } else {
        base + 1
    };
    assert(next * next > n) by (nonlinear_arith)
        requires
            n < (base + 1) * (base + 1),
            next >= base + 1,
            base >= 0,
    ;
    assert forall|j: int| j >= 0 && j % 2 == 1 && #[trigger] (j * j) > n implies j * j
        >= spec_next_odd_square(n) by {
        assert(j > base) by (nonlinear_arith)
            requires
                j >= 0,
                base >= 0,
                j * j > n,
                base * base <= n,
                n >= 0,
        ;
        if (base + 1) % 2 == 0 {
            assert(j != base + 1);
            assert(j >= base + 2);
        } else {
            assert(j >= base + 1);
        }
        assert(j * j >= next * next) by (nonlinear_arith)
            requires
                j >= next,
                next >= 0,
        ;
    }
}

/// the smallest odd perfect square strictly above `n`
pub fn next_perfect_odd_square(n: u16) -> (r: u16)
    requires
        n <= 64515,
    ensures
        r as int == spec_next_odd_square(n as int),
{
    let base = isqrt(n as u32);
    proof {
        assert(base <= 253) by (nonlinear_arith)
            requires
                base * base <= n,
                n <= 64515,
                base >= 0,
        ;
    }
    let mut next_base: u32 = base + 1;
    if next_base % 2 == 0 {
        next_base = next_base + 1;
    }
    proof {
        assert(next_base * next_base <= 65025) by (nonlinear_arith)
            requires
                next_base <= 255,
        ;
    }
    (next_base * next_base) as u16
}

/// whether `n` is the square of an odd value
pub fn is_perfect_odd_square(n: u16) -> (r: bool)
    ensures
        r == (spec_isqrt(n as int) * spec_isqrt(n as int) == n && spec_isqrt(n as int) % 2 == 1),
{
    let sqrt = isqrt(n as u32);
    sqrt * sqrt == n as u32 && sqrt % 2 == 1
}

/// A hazard schedule that can only be wound forward, one turn at a time:
/// watch snapshots with `observe` until the schedule locks on, then call
/// `inc_turn` once per turn for the squares it adds.
pub trait ForwardOnlyHazardAlgorithm<T>: Sized {
    /// Which states and snapshots `observe` accepts.
    spec fn spec_observe_ok(self, game: Game) -> bool;

    /// What `observe` does to the state and answers.
    spec fn spec_observe_result(self, game: Game) -> (Self, Result<Option<Position>, HazardError>);

    /// Which states `inc_turn` accepts.
    spec fn spec_inc_ok(self) -> bool;

    /// What `inc_turn` does to the state and emits.
    spec fn spec_inc_result(self) -> (Self, Option<T>);

    /// Whether the schedule has locked on and is ready to wind forward.
    spec fn spec_ready(self) -> bool;

    /// The turn the schedule stands at.
    spec fn spec_turn(self) -> int;

    /// feed one snapshot; answers the squares first seen, or why the
    /// snapshot was refused
    fn observe(&mut self, game: &Game) -> (r: Result<Option<Position>, HazardError>)
        requires
            old(self).spec_observe_ok(*game),
        ensures
            (*final(self), r) == old(self).spec_observe_result(*game),
    ;

    /// whether the schedule is ready for `inc_turn` calls
    fn is_ready_for_inc(&self) -> (r: bool)
        ensures
            r == self.spec_ready(),
    ;

    /// wind the schedule forward one turn; answers the square that turn adds
    fn inc_turn(&mut self) -> (r: Option<T>)
        requires
            old(self).spec_inc_ok(),
        ensures
            (*final(self), r) == old(self).spec_inc_result(),
    ;

    /// the turn the schedule stands at
    fn current_turn(&self) -> (r: usize)
        ensures
            r == self.spec_turn(),
    ;
}

/// A hazard schedule that never adds anything.
#[derive(Debug, Clone, Copy, PartialEq, Eq, Structural)]
pub struct NoopHazard();

impl ForwardOnlyHazardAlgorithm<Position> for NoopHazard {
    open spec fn spec_observe_ok(self, game: Game) -> bool {
        true
    }

    open spec fn spec_observe_result(self, game: Game) -> (
        NoopHazard,
        Result<Option<Position>, HazardError>,
    ) {
        (self, Ok(None))
    }

    open spec fn spec_inc_ok(self) -> bool {
        true
    }

    open spec fn spec_inc_result(self) -> (NoopHazard, Option<Position>) {
        (self, None)
    }

    open spec fn spec_ready(self) -> bool {
        false
    }

    open spec fn spec_turn(self) -> int {
        0
    }

    fn observe(&mut self, game: &Game) -> Result<Option<Position>, HazardError> {
        Ok(None)
    }

    fn is_ready_for_inc(&self) -> bool {
        false
    }

    fn inc_turn(&mut self) -> Option<Position> {
        None
    }

    fn current_turn(&self) -> usize {
        0
    }
}

/// The spiral hazard schedule: from a seed square, hazards grow outward in
/// a square spiral, one square every few turns, completing ever larger odd
/// squares.
#[derive(Debug, Clone, Copy, PartialEq, Eq, Structural)]
pub struct SpiralHazard {
    /// a new hazard square appears every this many turns
    pub hazard_every_turns: u8,
    /// the square the spiral grows from
    pub seed_cell: Position,
    /// the turn the seed was first seen; zero while unseen
    pub first_turn_seen: u16,
    /// the turn the schedule stands at
    pub current_turn: u16,
    /// the square the next emission will add
    pub next_hazard_cell: Position,
    /// the direction the spiral is growing in
    pub direction: Move,
}

impl SpiralHazard {
    /// construct an uninitialized spiral schedule; feed it snapshots with
    /// `observe` until it locks on
    pub fn new() -> (r: SpiralHazard)
        ensures
            r == (SpiralHazard {
                hazard_every_turns: 0u8,
                seed_cell: Position { x: 0i32, y: 0i32 },
                first_turn_seen: 0u16,
                current_turn: 0u16,
                next_hazard_cell: Position { x: 0i32, y: 0i32 },
                direction: Move::Up,
            }),
    {
        SpiralHazard {
            hazard_every_turns: 0,
            seed_cell: Position { x: 0, y: 0 },
            first_turn_seen: 0,
            current_turn: 0,
            next_hazard_cell: Position { x: 0, y: 0 },
            direction: Move::Up,
        }
    }

    /// The states the spiral can wind forward from without leaving its
    /// ranges: a positive cadence, a turn counter with room ahead of the
    /// first sighting, and spiral coordinates far from the integer edge.
    pub open spec fn spec_spiral_inc_ok(self) -> bool {
        &&& self.hazard_every_turns > 0
        &&& self.current_turn < u16::MAX
        &&& self.first_turn_seen <= self.current_turn + 1
        &&& (self.current_turn + 1 - self.first_turn_seen) as int / (self.hazard_every_turns as int)
            + 1 <= 64515
        &&& -1000000 <= self.seed_cell.x <= 1000000
        &&& -1000000 <= self.seed_cell.y <= 1000000
        &&& -1000000 <= self.next_hazard_cell.x <= 1000000
        &&& -1000000 <= self.next_hazard_cell.y <= 1000000
    }

    /// One spiral step: on cadence turns, emit the pending square, step it
    /// one square onward, and turn the spiral's direction at the corners of
    /// the ring being completed.
    pub open spec fn spec_spiral_inc(self) -> (SpiralHazard, Option<Position>) {
        let ct = (self.current_turn + 1) as u16;
        if ct as int % (self.hazard_every_turns as int) == 0 {
            let turns_elapsed = ct - self.first_turn_seen;
            let spawns_elapsed = (turns_elapsed as int / (self.hazard_every_turns as int) + 1) as u16;
            let next_square = spec_next_odd_square(spawns_elapsed as int);
            let radius = spec_isqrt(next_square) / 2;
            let result = self.next_hazard_cell;
            let v = self.direction.spec_to_vector();
            let moved = Position {
                x: (self.next_hazard_cell.x + v.x) as i32,
                y: (self.next_hazard_cell.y + v.y) as i32,
            };
            let dir1 = if moved.x - self.seed_cell.x == radius && moved.y - self.seed_cell.y
                == radius {
                Move::Down
            } else if moved.x - self.seed_cell.x == radius && moved.y - self.seed_cell.y
                == -radius {
                Move::Left
            } else if moved.x - self.seed_cell.x == -radius && moved.y - self.seed_cell.y
                == -radius {
                Move::Up
            } else if moved.x - self.seed_cell.x == -radius && moved.y - self.seed_cell.y
                == radius {
                Move::Up
            } else {
                self.direction
            };
            let dir2 = if spec_isqrt(spawns_elapsed as int) * spec_isqrt(spawns_elapsed as int)
                == spawns_elapsed && spec_isqrt(spawns_elapsed as int) % 2 == 1 {
                Move::Right
            } else {
                dir1
            };
            (
                SpiralHazard {
                    current_turn: ct,
                    next_hazard_cell: moved,
                    direction: dir2,
                    ..self
                },
                Some(result),
            )
        } else {
            (SpiralHazard { current_turn: ct, ..self }, None)
        }
    }

    /// What observing a snapshot does while the seed is still unseen: a
    /// second hazard square means the seed was missed; one hazard square is
    /// the seed and locks the schedule on; none changes nothing.
    pub open spec fn spec_spiral_observe(self, game: Game) -> (
        SpiralHazard,
        Result<Option<Position>, HazardError>,
    ) {
        if self.first_turn_seen != 0 {
            (self, Err(HazardError::AlreadyReady))
        } else if game.board.hazards@.len() > 1 {
            (self, Err(HazardError::MissedSeed))
        } else if game.board.hazards@.len() == 1 {
            let seed = game.board.hazards@[0];
            (
                SpiralHazard {
                    seed_cell: seed,
                    hazard_every_turns: 3u8,
                    first_turn_seen: game.turn as u16,
                    current_turn: game.turn as u16,
                    next_hazard_cell: Position { x: seed.x, y: (seed.y + 1) as i32 },
                    direction: Move::Right,
                },
                Ok(Some(seed)),
            )
        } else {
            (self, Ok(None))
        }
    }
}

impl Default for SpiralHazard {
    /// the uninitialized spiral schedule
    fn default() -> (r: SpiralHazard)
        ensures
            r == (SpiralHazard {
                hazard_every_turns: 0u8,
                seed_cell: Position { x: 0i32, y: 0i32 },
                first_turn_seen: 0u16,
                current_turn: 0u16,
                next_hazard_cell: Position { x: 0i32, y: 0i32 },
                direction: Move::Up,
            }),
    {
        SpiralHazard::new()
    }
}

impl ForwardOnlyHazardAlgorithm<Position> for SpiralHazard {
    open spec fn spec_observe_ok(self, game: Game) -> bool {
        &&& 0 <= game.turn <= u16::MAX
        &&& (game.board.hazards@.len() == 1 ==> {
            &&& -1000000 <= game.board.hazards@[0].x <= 1000000
            &&& -1000000 <= game.board.hazards@[0].y <= 1000000
        })
    }

    open spec fn spec_observe_result(self, game: Game) -> (
        SpiralHazard,
        Result<Option<Position>, HazardError>,
    ) {
        self.spec_spiral_observe(game)
    }

    open spec fn spec_inc_ok(self) -> bool {
        self.spec_spiral_inc_ok()
    }

    open spec fn spec_inc_result(self) -> (SpiralHazard, Option<Position>) {
        self.spec_spiral_inc()
    }

    open spec fn spec_ready(self) -> bool {
        self.first_turn_seen != 0
    }

    open spec fn spec_turn(self) -> int {
        self.current_turn as int
    }

    /// call this with snapshots until the seed square has been seen, which
    /// is usually on the third turn; from then on call `inc_turn` instead
    fn observe(&mut self, game: &Game) -> (r: Result<Option<Position>, HazardError>) {
        if self.is_ready_for_inc() {
            return Err(HazardError::AlreadyReady);
        }
        if game.board.hazards.len() > 1 {
            return Err(HazardError::MissedSeed);
        }
        if game.board.hazards.len() == 1 {
            let hazard_pos = game.board.hazards[0];
            self.seed_cell = hazard_pos;
            self.hazard_every_turns = 3;
            self.first_turn_seen = game.turn as u16;
            self.current_turn = game.turn as u16;
            self.next_hazard_cell = hazard_pos.add_vec(Move::Up.to_vector());
            self.direction = Move::Right;
            return Ok(Some(hazard_pos));
        }
        Ok(None)
    }

    fn is_ready_for_inc(&self) -> bool {
        self.first_turn_seen != 0
    }

    fn inc_turn(&mut self) -> (r: Option<Position>) {
        self.current_turn = self.current_turn + 1;
        if self.current_turn % self.hazard_every_turns as u16 == 0 {
            let turns_elapsed = self.current_turn - self.first_turn_seen;
            let spawns_elapsed = turns_elapsed / self.hazard_every_turns as u16 + 1;
            let next_square = next_perfect_odd_square(spawns_elapsed);
            proof {
                lemma_next_odd_square(spawns_elapsed as int);
                lemma_isqrt_bounds(next_square as int);
                assert(spec_isqrt(next_square as int) <= 255) by (nonlinear_arith)
                    requires
                        spec_isqrt(next_square as int) * spec_isqrt(next_square as int)
                            <= next_square,
                        next_square <= u16::MAX,
                        spec_isqrt(next_square as int) >= 0,
                ;
            }
            let radius = isqrt(next_square as u32) / 2;
            let result = self.next_hazard_cell;
            self.next_hazard_cell = self.next_hazard_cell.add_vec(self.direction.to_vector());
            let radius_i = radius as i32;
            if self.next_hazard_cell.x - self.seed_cell.x == radius_i
                && self.next_hazard_cell.y - self.seed_cell.y == radius_i {
                self.direction = Move::Down;
            } else if self.next_hazard_cell.x - self.seed_cell.x == radius_i
                && self.next_hazard_cell.y - self.seed_cell.y == -radius_i {
                self.direction = Move::Left;
            } else if self.next_hazard_cell.x - self.seed_cell.x == -radius_i
                && self.next_hazard_cell.y - self.seed_cell.y == -radius_i {
                self.direction = Move::Up;
            } else if self.next_hazard_cell.x - self.seed_cell.x == -radius_i
                && self.next_hazard_cell.y - self.seed_cell.y == radius_i {
                self.direction = Move::Up;
            }
            if is_perfect_odd_square(spawns_elapsed) {
                self.direction = Move::Right;
            }
            Some(result)
        } else {
            None
        }
    }

    fn current_turn(&self) -> usize {
        self.current_turn as usize
    }
}

} // verus!
