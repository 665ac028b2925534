//! A reference simulator over the wire snapshot itself: slower than the
//! compact engine, used to cross-check it and to explore snapshots without
//! converting them.
use vstd::prelude::*;

use crate::cross_product::{cross_product, spec_count_product, spec_cross_product, spec_vecs_view};
use crate::types::{Move, SimulatorInstruments};
use crate::wire_representation::{BattleSnake, Game, Position};

verus! {

/// how much health a hazard square costs per turn in this simulator
pub const HAZARD_DAMAGE: i32 = 15;

/// What one agent's move leaves of it: the agent still standing, or dead
/// with its id and final body kept for inspection.
#[derive(Debug, Clone, PartialEq, Eq)]
pub enum BattleSnakeResult {
    /// the agent survives, with its new record
    Alive(BattleSnake),
    /// the agent dies; its id and its final record are kept
    Dead(String, BattleSnake),
}

impl BattleSnakeResult {
    /// the id of the agent this result belongs to
    pub fn id(&self) -> (r: &String)
        ensures
            r@ == (match self {
                BattleSnakeResult::Alive(x) => x.id@,
                BattleSnakeResult::Dead(s, _) => s@,
            }),
    {
        match self {
            BattleSnakeResult::Alive(x) => &x.id,
            BattleSnakeResult::Dead(s, _) => s,
        }
    }

    /// whether the agent died
    pub fn is_dead(&self) -> (r: bool)
        ensures
            r == (self is Dead),
    {
        matches!(self, BattleSnakeResult::Dead(_, _))
    }

    /// the agent's body after the move
    pub fn body(&self) -> (r: &Vec<Position>)
        ensures
            r@ == (match self {
                BattleSnakeResult::Alive(x) => x.body@,
                BattleSnakeResult::Dead(_, x) => x.body@,
            }),
    {
        match self {
            BattleSnakeResult::Alive(x) => &x.body,
            BattleSnakeResult::Dead(_, x) => &x.body,
        }
    }

    /// the agent's head after the move
    pub fn head(&self) -> (r: Position)
        ensures
            r == (match self {
                BattleSnakeResult::Alive(x) => x.head,
                BattleSnakeResult::Dead(_, x) => x.head,
            }),
    {
        match self {
            BattleSnakeResult::Alive(x) => x.head,
            BattleSnakeResult::Dead(_, x) => x.head,
        }
    }
}

/// What one isolated move leaves of an agent, stated over plain values.
pub ghost struct SnakeOutcome {
    /// whether the move kills the agent on its own
    pub dead: bool,
    /// the agent's body squares after the move, head first
    pub body: Seq<Position>,
    /// the agent's health after the move
    pub health: int,
    /// the square the head record holds after the move
    pub head: Position,
}

/// What moving one agent in one direction does in isolation on the wire
/// snapshot: None when the move turns into the neck; otherwise the body
/// advances, eating restores health and keeps the tail doubled, stepping
/// off the board, into a body or out of health dies.
pub open spec fn spec_forward_simulate(g: Game, s: BattleSnake, mv: Move) -> Option<SnakeOutcome> {
    let v = mv.spec_to_vector();
    let new_head = Position { x: (s.head.x + v.x) as i32, y: (s.head.y + v.y) as i32 };
    if s.body@[1] == new_head {
        None
    } else if g.spec_off_board(new_head) {
        Some(
            SnakeOutcome { dead: true, body: s.body@.drop_last(), health: s.health as int, head: s.head },
        )
    } else {
        let body1 = s.body@.drop_last();
        let ate = g.board.food@.contains(new_head);
        let health1: int = if !ate {
            s.health - 1
        } else {
            100
        };
        let body2 = if ate {
            body1.push(body1.last())
        } else {
            body1
        };
        if new_head == s.head {
            Some(SnakeOutcome { dead: true, body: body2, health: health1, head: s.head })
        } else if body2.contains(new_head) {
            Some(SnakeOutcome { dead: true, body: body2, health: health1, head: s.head })
        } else {
            let body3 = seq![new_head] + body2;
            let health2: int = if g.board.hazards@.contains(new_head) {
                health1 - 15
            } else {
                health1
            };
            if health2 <= 0 {
                Some(SnakeOutcome { dead: true, body: body3, health: health2, head: s.head })
            } else {
                Some(SnakeOutcome { dead: false, body: body3, health: health2, head: new_head })
            }
        }
    }
}

/// Whether a snake record matches an outcome, field for field; the id and
/// name stay those of the record the move started from.
pub open spec fn spec_matches_outcome(ns: BattleSnake, s: BattleSnake, o: SnakeOutcome) -> bool {
    &&& ns.id@ == s.id@
    &&& ns.name@ == s.name@
    &&& ns.body@ == o.body
    &&& ns.health == o.health
    &&& ns.head == o.head
}

/// Whether some snake of the snapshot carries the given id.
pub open spec fn spec_id_known(g: Game, id: Seq<char>) -> bool {
    exists|s: int| 0 <= s < g.board.snakes@.len() && (#[trigger] g.board.snakes@[s]).id@ == id
}


/// The id a per-move result carries.
pub open spec fn spec_res_id(br: BattleSnakeResult) -> Seq<char> {
    match br {
        BattleSnakeResult::Alive(x) => x.id@,
        BattleSnakeResult::Dead(s, _) => s@,
    }
}

/// One surviving isolated move, distilled to plain values: whether it
/// dies, the direction, and the agent record it leaves (meaningful fields
/// only while the move survives).
pub ghost struct WirePick {
    /// whether the move kills the agent on its own
    pub dead: bool,
    /// the direction taken
    pub mv: Move,
    /// the agent's id
    pub id: Seq<char>,
    /// the agent's display name
    pub name: Seq<char>,
    /// the head square after the move
    pub head: Position,
    /// the body squares after the move, head first
    pub body: Seq<Position>,
    /// the health after the move
    pub health: int,
}

/// Whether a list of per-move results carries exactly the given picks:
/// same moves, same life-or-death, same ids, and for every surviving move
/// the same record fields.
pub open spec fn spec_picks_match(p: Seq<(Move, BattleSnakeResult)>, wp: Seq<WirePick>) -> bool {
    &&& p.len() == wp.len()
    &&& forall|j: int|
        0 <= j < p.len() ==> {
            &&& (#[trigger] p[j]).0 == wp[j].mv
            &&& spec_res_id(p[j].1) == wp[j].id
            &&& match p[j].1 {
                BattleSnakeResult::Dead(_, _) => wp[j].dead,
                BattleSnakeResult::Alive(ns) => !wp[j].dead && ns.id@ == wp[j].id && ns.name@
                    == wp[j].name && ns.head == wp[j].head && ns.body@ == wp[j].body && ns.health
                    == wp[j].health,
            }
        }
}

/// The surviving picks among the first `n`, in order.
pub open spec fn spec_alive_picks(wp: Seq<WirePick>, n: int) -> Seq<WirePick>
    decreases n,
{
    if n <= 0 {
        Seq::empty()
    } else if wp[n - 1].dead {
        spec_alive_picks(wp, n - 1)
    } else {
        spec_alive_picks(wp, n - 1).push(wp[n - 1])
    }
}

/// Whether the `w`-th surviving agent loses a collision: some other agent
/// meets it head to head at no shorter length, or its head lands on that
/// agent's body.
pub open spec fn spec_pick_killed(alive: Seq<WirePick>, w: int) -> bool {
    exists|q: int|
        0 <= q < alive.len() && (#[trigger] alive[q]).id != alive[w].id && (if alive[q].head
            == alive[w].head {
            alive[w].body.len() <= alive[q].body.len()
        } else {
            alive[q].body.contains(alive[w].head)
        })
}

/// The surviving agents that also win their collisions, among the first
/// `n`, in order.
pub open spec fn spec_pick_survivors(alive: Seq<WirePick>, n: int) -> Seq<WirePick>
    decreases n,
{
    if n <= 0 {
        Seq::empty()
    } else if spec_pick_killed(alive, n - 1) {
        spec_pick_survivors(alive, n - 1)
    } else {
        spec_pick_survivors(alive, n - 1).push(alive[n - 1])
    }
}

/// Whether some surviving agent's head stands on the square.
pub open spec fn spec_eaten(alive: Seq<WirePick>, f: Position) -> bool {
    exists|w: int| 0 <= w < alive.len() && (#[trigger] alive[w]).head == f
}

/// The food squares among the first `n` that no surviving head landed on.
pub open spec fn spec_kept_food(food: Seq<Position>, alive: Seq<WirePick>, n: int) -> Seq<Position>
    decreases n,
{
    if n <= 0 {
        Seq::empty()
    } else if spec_eaten(alive, food[n - 1]) {
        spec_kept_food(food, alive, n - 1)
    } else {
        spec_kept_food(food, alive, n - 1).push(food[n - 1])
    }
}

/// The pick carrying your id among the first `n`, the last one when the
/// id was requested more than once.
pub open spec fn spec_you_pick(wp: Seq<WirePick>, you_id: Seq<char>, n: int) -> Option<WirePick>
    decreases n,
{
    if n <= 0 {
        None
    } else if wp[n - 1].id == you_id {
        Some(wp[n - 1])
    } else {
        spec_you_pick(wp, you_id, n - 1)
    }
}

/// The snakes among the first `n` whose id is not yours.
pub open spec fn spec_non_you(snakes: Seq<BattleSnake>, you_id: Seq<char>, n: int) -> Seq<
    BattleSnake,
>
    decreases n,
{
    if n <= 0 {
        Seq::empty()
    } else if snakes[n - 1].id@ == you_id {
        spec_non_you(snakes, you_id, n - 1)
    } else {
        spec_non_you(snakes, you_id, n - 1).push(snakes[n - 1])
    }
}

/// Whether two snake records agree on every gameplay field.
pub open spec fn spec_snake_fields(a: BattleSnake, b: BattleSnake) -> bool {
    &&& a.id@ == b.id@
    &&& a.name@ == b.name@
    &&& a.head == b.head
    &&& a.body@ == b.body@
    &&& a.health == b.health
}

/// Whether a snake list matches another, field for field.
pub open spec fn spec_snakes_like(out: Seq<BattleSnake>, exp: Seq<BattleSnake>) -> bool {
    &&& out.len() == exp.len()
    &&& forall|w: int| 0 <= w < out.len() ==> spec_snake_fields(#[trigger] out[w], exp[w])
}

/// Whether a snake record carries a pick's fields.
pub open spec fn spec_snake_is_pick(a: BattleSnake, p: WirePick) -> bool {
    &&& a.id@ == p.id
    &&& a.name@ == p.name
    &&& a.head == p.head
    &&& a.body@ == p.body
    &&& a.health == p.health
}

/// Whether a snake list carries a pick list, field for field.
pub open spec fn spec_snakes_like_picks(out: Seq<BattleSnake>, exp: Seq<WirePick>) -> bool {
    &&& out.len() == exp.len()
    &&& forall|w: int| 0 <= w < out.len() ==> spec_snake_is_pick(#[trigger] out[w], exp[w])
}

/// Whether some survivor carries the given id.
pub open spec fn spec_survivor_with_id(surv: Seq<WirePick>, id: Seq<char>) -> bool {
    exists|w: int| 0 <= w < surv.len() && (#[trigger] surv[w]).id == id
}

/// What one successor snapshot owes to the picks that made it: the move
/// map lists each pick's id and direction; the turn advances and the
/// metadata, grid size and hazards stay; when your pick dies, you are
/// zeroed and only the other original snakes remain; otherwise the board
/// holds exactly the collision survivors, the food no surviving head
/// landed on, and your record follows your pick, zeroed unless you
/// survive the collisions.
pub open spec fn spec_successor_ok(
    g: Game,
    wp: Seq<WirePick>,
    mm: Seq<(String, Move)>,
    out: Game,
) -> bool {
    &&& mm.len() == wp.len()
    &&& forall|j: int|
        0 <= j < mm.len() ==> (#[trigger] mm[j]).0@ == wp[j].id && mm[j].1 == wp[j].mv
    &&& out.turn == g.turn + 1
    &&& out.game == g.game
    &&& out.board.width == g.board.width
    &&& out.board.height == g.board.height
    &&& out.board.hazards@ == g.board.hazards@
    &&& {
        let alive = spec_alive_picks(wp, wp.len() as int);
        let surv = spec_pick_survivors(alive, alive.len() as int);
        let lives = spec_survivor_with_id(surv, g.you.id@);
        match spec_you_pick(wp, g.you.id@, wp.len() as int) {
            Some(yp) => if yp.dead {
                &&& out.you.id@ == g.you.id@
                &&& out.you.head == g.you.head
                &&& out.you.body@ == g.you.body@
                &&& out.you.health == 0
                &&& spec_snakes_like(
                    out.board.snakes@,
                    spec_non_you(g.board.snakes@, g.you.id@, g.board.snakes@.len() as int),
                )
                &&& out.board.food@ == g.board.food@
            } else {
                &&& spec_snakes_like_picks(out.board.snakes@, surv)
                &&& out.board.food@ == spec_kept_food(
                    g.board.food@,
                    alive,
                    g.board.food@.len() as int,
                )
                &&& out.you.id@ == yp.id
                &&& out.you.name@ == yp.name
                &&& out.you.head == yp.head
                &&& out.you.body@ == yp.body
                &&& out.you.health == (if lives {
                    yp.health
                } else {
                    0int
                })
            },
            None => {
                &&& spec_snakes_like_picks(out.board.snakes@, surv)
                &&& out.board.food@ == spec_kept_food(
                    g.board.food@,
                    alive,
                    g.board.food@.len() as int,
                )
                &&& out.you.id@ == g.you.id@
                &&& out.you.name@ == g.you.name@
                &&& out.you.head == g.you.head
                &&& out.you.body@ == g.you.body@
                &&& out.you.health == (if lives {
                    g.you.health as int
                } else {
                    0int
                })
            },
        }
    }
}

/// The first index of the snake carrying the given id, scanning from
/// `from`.
pub open spec fn spec_first_snake_idx(snakes: Seq<BattleSnake>, id: Seq<char>, from: nat) -> Option<
    int,
>
    decreases snakes.len() - from,
{
    if from >= snakes.len() {
        None
    } else if snakes[from as int].id@ == id {
        Some(from as int)
    } else {
        spec_first_snake_idx(snakes, id, from + 1)
    }
}

/// The snake of the snapshot a request addresses: the first record
/// carrying the requested id.
pub open spec fn spec_found_snake(g: Game, id: Seq<char>) -> BattleSnake {
    match spec_first_snake_idx(g.board.snakes@, id, 0) {
        Some(ix) => g.board.snakes@[ix],
        None => g.you,
    }
}

/// The distilled pick of one surviving move of one snake.
pub open spec fn spec_pick(g: Game, s: BattleSnake, m: Move) -> WirePick {
    let o = spec_forward_simulate(g, s, m)->Some_0;
    WirePick {
        dead: o.dead,
        mv: m,
        id: s.id@,
        name: s.name@,
        head: o.head,
        body: o.body,
        health: o.health,
    }
}

/// The picks of one agent's surviving moves among its first `n` requested
/// directions, in request order.
pub open spec fn spec_picks_upto(g: Game, s: BattleSnake, mvs: Seq<Move>, n: int) -> Seq<WirePick>
    decreases n,
{
    if n <= 0 {
        Seq::empty()
    } else {
        let prev = spec_picks_upto(g, s, mvs, n - 1);
        match spec_forward_simulate(g, s, mvs[n - 1]) {
            None => prev,
            Some(o) => prev.push(spec_pick(g, s, mvs[n - 1])),
        }
    }
}

/// The view of a request list: each id and direction list as sequences.
pub open spec fn spec_wire_requests(v: Seq<(String, Vec<Move>)>) -> Seq<(Seq<char>, Seq<Move>)> {
    v.map(|j: int, p: (String, Vec<Move>)| (p.0@, p.1@))
}

/// The surviving picks of one request against the snapshot.
pub open spec fn spec_request_picks(g: Game, req: (Seq<char>, Seq<Move>)) -> Seq<WirePick> {
    spec_picks_upto(g, spec_found_snake(g, req.0), req.1, req.1.len() as int)
}

/// A request of every direction for each given id, as the convenience
/// entry point builds it.
pub open spec fn spec_all_wire_requests(ids: Seq<String>) -> Seq<(Seq<char>, Seq<Move>)> {
    ids.map(|j: int, id: String| (id@, seq![Move::Up, Move::Down, Move::Left, Move::Right]))
}

/// The indices into a list of the given length, in order.
pub open spec fn spec_iota(n: int) -> Seq<usize> {
    Seq::new(n as nat, |i: int| i as usize)
}

/// One index list per request, each running over that request's surviving
/// picks; their Cartesian product enumerates the joint moves.
pub open spec fn spec_pick_index_lists(g: Game, reqs: Seq<(Seq<char>, Seq<Move>)>) -> Seq<
    Seq<usize>,
> {
    Seq::new(reqs.len(), |j: int| spec_iota(spec_request_picks(g, reqs[j]).len() as int))
}

/// How many surviving picks each request has.
pub open spec fn spec_pick_counts(g: Game, reqs: Seq<(Seq<char>, Seq<Move>)>) -> Seq<int> {
    Seq::new(reqs.len(), |j: int| spec_request_picks(g, reqs[j]).len() as int)
}

/// The picks one joint-move combination selects: for each request, its
/// surviving pick at the combination's index.
pub open spec fn spec_combo_picks(
    g: Game,
    reqs: Seq<(Seq<char>, Seq<Move>)>,
    combo: Seq<usize>,
) -> Seq<WirePick> {
    Seq::new(reqs.len(), |j: int| spec_request_picks(g, reqs[j])[combo[j] as int])
}

/// A simulator borrowing one snapshot.
#[derive(Debug)]
pub struct Simulator<'a> {
    /// the snapshot being simulated
    pub g: &'a Game,
}

/// What simulating requires of a snapshot: sane coordinates and agent
/// records, as every host-sent snapshot has.
pub open spec fn spec_sim_snake_ok(s: BattleSnake) -> bool {
    &&& s.body@.len() >= 2
    &&& -1000000 <= s.head.x <= 1000000
    &&& -1000000 <= s.head.y <= 1000000
    &&& -1000 <= s.health <= 1000
}

impl<'a> Simulator<'a> {
    /// borrow a snapshot for simulation
    pub fn new(g: &'a Game) -> (r: Simulator<'a>)
        ensures
            r.g == g,
    {
        Simulator { g }
    }

    /// what one agent's move does in isolation; None when the move turns
    /// straight into the neck and is not worth simulating
    pub fn forward_simulate(&self, s: &BattleSnake, mv: Move) -> (r: Option<BattleSnakeResult>)
        requires
            spec_sim_snake_ok(*s),
        ensures
            (r is None) == (spec_forward_simulate(*self.g, *s, mv) is None),
            r matches Some(br) ==> {
                let o = spec_forward_simulate(*self.g, *s, mv)->Some_0;
                match br {
                    BattleSnakeResult::Dead(id, ns) => o.dead && id@ == s.id@
                        && spec_matches_outcome(ns, *s, SnakeOutcome { head: ns.head, ..o })
                        && ns.head == s.head,
                    BattleSnakeResult::Alive(ns) => !o.dead && spec_matches_outcome(ns, *s, o),
                }
            },
    {
        let old_head = s.head;
        let v = mv.to_vector();
        let new_head = s.head.add_vec(v);
        if s.body[1] == new_head {
            return None;
        }
        if self.g.off_board(new_head) {
            let mut new_snake = clone_snake(s);
            new_snake.body.pop();
            proof {
                assert(new_snake.body@ =~= s.body@.drop_last());
            }
            return Some(BattleSnakeResult::Dead(s.id.clone(), new_snake));
        }
        let mut new_snake = clone_snake(s);
        new_snake.body.pop();
        proof {
            assert(new_snake.body@ =~= s.body@.drop_last());
        }
        if !contains_pos_list(&self.g.board.food, new_head) {
            new_snake.health = new_snake.health - 1;
        } else {
            let last = new_snake.body[new_snake.body.len() - 1];
            new_snake.body.push(last);
            new_snake.health = 100;
            proof {
                assert(s.body@.drop_last().last() == s.body@.drop_last()[s.body@.drop_last().len()
                    - 1]);
            }
        }
        if new_head == old_head {
            return Some(BattleSnakeResult::Dead(s.id.clone(), new_snake));
        }
        if contains_pos_list(&new_snake.body, new_head) {
            return Some(BattleSnakeResult::Dead(s.id.clone(), new_snake));
        }
        let mut fresh_body: Vec<Position> = Vec::new();
        fresh_body.push(new_head);
        let mut q: usize = 0;
        while q < new_snake.body.len()
            invariant
                q <= new_snake.body@.len(),
                fresh_body@ =~= seq![new_head] + new_snake.body@.take(q as int),
            decreases new_snake.body@.len() - q,
        {
            fresh_body.push(new_snake.body[q]);
            proof {
                assert(fresh_body@ =~= seq![new_head] + new_snake.body@.take(q + 1));
            }
            q = q + 1;
        }
        proof {
            assert(new_snake.body@.take(new_snake.body@.len() as int) =~= new_snake.body@);
        }
        new_snake.body = fresh_body;
        if contains_pos_list(&self.g.board.hazards, new_head) {
            new_snake.health = new_snake.health - HAZARD_DAMAGE;
        }
        if new_snake.health <= 0 {
            return Some(BattleSnakeResult::Dead(s.id.clone(), new_snake));
        }
        new_snake.head = new_head;
        Some(BattleSnakeResult::Alive(new_snake))
    }

    /// simulates every joint move of the given per-agent direction sets:
    /// each agent's surviving isolated moves are combined, and every
    /// combination becomes a successor snapshot one turn later, with
    /// eaten food removed and collision losers dropped from the board
    #[verifier::loop_isolation(false)]
    #[verifier::rlimit(40)]
    pub fn simulate_with_moves<T: SimulatorInstruments>(
        &self,
        instruments: &T,
        snake_ids_and_moves: &Vec<(String, Vec<Move>)>,
    ) -> (r: Vec<(Vec<(String, Move)>, Game)>)
        requires
            forall|s: int|
                0 <= s < self.g.board.snakes@.len() ==> spec_sim_snake_ok(
                    #[trigger] self.g.board.snakes@[s],
                ),
            forall|j: int|
                0 <= j < snake_ids_and_moves@.len() ==> spec_id_known(
                    *self.g,
                    (#[trigger] snake_ids_and_moves@[j]).0@,
                ),
            self.g.turn < i32::MAX,
        ensures
            ({
                let reqs = spec_wire_requests(snake_ids_and_moves@);
                let combos = spec_cross_product(spec_pick_index_lists(*self.g, reqs));
                &&& r@.len() == spec_count_product(spec_pick_counts(*self.g, reqs))
                &&& r@.len() == combos.len()
                &&& forall|k: int|
                    0 <= k < r@.len() ==> spec_successor_ok(
                        *self.g,
                        spec_combo_picks(*self.g, reqs, combos[k]),
                        (#[trigger] r@[k]).0@,
                        r@[k].1,
                    )
            }),
    {
        let start = crate::compact_representation::simulate::sim_clock_start();
        let ghost g = *self.g;
        let ghost reqs = spec_wire_requests(snake_ids_and_moves@);
        let mut new_body_lists: Vec<Vec<(Move, BattleSnakeResult)>> = Vec::new();
        let mut j: usize = 0;
        while j < snake_ids_and_moves.len()
            invariant
                j <= snake_ids_and_moves@.len(),
                new_body_lists@.len() == j,
                forall|jj: int|
                    0 <= jj < j ==> spec_picks_match(
                        (#[trigger] new_body_lists@[jj])@,
                        spec_request_picks(g, reqs[jj]),
                    ),
            decreases snake_ids_and_moves@.len() - j,
        {
            let snake_id = &snake_ids_and_moves[j].0;
            let snake_struct = find_snake(self.g, snake_id);
            let mut options: Vec<(Move, BattleSnakeResult)> = Vec::new();
            let mut l: usize = 0;
            let n_mvs = snake_ids_and_moves[j].1.len();
            while l < n_mvs
                invariant
                    l <= n_mvs,
                    n_mvs == snake_ids_and_moves@[j as int].1@.len(),
                    j < snake_ids_and_moves@.len(),
                    spec_sim_snake_ok(*snake_struct),
                    *snake_struct == spec_found_snake(g, reqs[j as int].0),
                    spec_picks_match(
                        options@,
                        spec_picks_upto(
                            g,
                            *snake_struct,
                            snake_ids_and_moves@[j as int].1@,
                            l as int,
                        ),
                    ),
                decreases n_mvs - l,
            {
                let mv = snake_ids_and_moves[j].1[l];
                let ghost opts0 = options@;
                match self.forward_simulate(snake_struct, mv) {
                    Some(simulated) => {
                        options.push((mv, simulated));
                    },
                    None => {
                    },
                }
                proof {
                    let mvs = snake_ids_and_moves@[j as int].1@;
                    let up1 = spec_picks_upto(g, *snake_struct, mvs, l + 1);
                    let up0 = spec_picks_upto(g, *snake_struct, mvs, l as int);
                    match spec_forward_simulate(g, *snake_struct, mvs[l as int]) {
                        None => {
                            assert(options@ == opts0);
                        },
                        Some(o) => {
                            assert(up1 == up0.push(spec_pick(g, *snake_struct, mvs[l as int])));
                            assert forall|w: int| 0 <= w < options@.len() implies {
                                &&& (#[trigger] options@[w]).0 == up1[w].mv
                                &&& spec_res_id(options@[w].1) == up1[w].id
                                &&& match options@[w].1 {
                                    BattleSnakeResult::Dead(_, _) => up1[w].dead,
                                    BattleSnakeResult::Alive(ns) => !up1[w].dead && ns.id@
                                        == up1[w].id && ns.name@ == up1[w].name && ns.head
                                        == up1[w].head && ns.body@ == up1[w].body && ns.health
                                        == up1[w].health,
                                }
                            } by {
                                if w < opts0.len() {
                                    assert(options@[w] == opts0[w]);
                                    assert(up1[w] == up0[w]);
                                }
                            }
                        },
                    }
                }
                l = l + 1;
            }
            proof {
                assert(snake_ids_and_moves@[j as int].1@ == reqs[j as int].1);
                assert(spec_picks_match(options@, spec_request_picks(g, reqs[j as int])));
            }
            new_body_lists.push(options);
            j = j + 1;
        }
        let mut games: Vec<(Vec<(String, Move)>, Game)> = Vec::new();
        if new_body_lists.len() == 0 {
            let elapsed = crate::compact_representation::simulate::sim_clock_elapsed(&start);
            instruments.observe_simulation(elapsed);
            return games;
        }
        let mut keep = true;
        let ghost mut empty_at: int = 0;
        let mut j: usize = 0;
        while j < new_body_lists.len()
            invariant
                j <= new_body_lists@.len(),
                !keep ==> 0 <= empty_at < new_body_lists@.len() && new_body_lists@[empty_at]@.len()
                    == 0,
            decreases new_body_lists@.len() - j,
        {
            if new_body_lists[j].len() == 0 {
                keep = false;
                proof {
                    empty_at = j as int;
                }
            }
            j = j + 1;
        }
        if !keep {
            proof {
                assert(spec_pick_counts(g, reqs)[empty_at] == 0);
                crate::cross_product::lemma_count_product_zero(
                    spec_pick_counts(g, reqs),
                    empty_at,
                );
                crate::cross_product::lemma_cross_product_len(spec_pick_index_lists(g, reqs));
                assert(spec_pick_index_lists(g, reqs).map(|jj: int, l: Seq<usize>| l.len() as int)
                    =~= spec_pick_counts(g, reqs));
            }
            let elapsed = crate::compact_representation::simulate::sim_clock_elapsed(&start);
            instruments.observe_simulation(elapsed);
            return games;
        }
        let mut index_lists: Vec<Vec<usize>> = Vec::new();
        let mut j: usize = 0;
        while j < new_body_lists.len()
            invariant
                j <= new_body_lists@.len(),
                index_lists@.len() == j,
                forall|jj: int|
                    0 <= jj < j ==> (#[trigger] index_lists@[jj])@ == spec_iota(
                        spec_request_picks(g, reqs[jj]).len() as int,
                    ),
            decreases new_body_lists@.len() - j,
        {
            let mut idxs: Vec<usize> = Vec::new();
            let mut w: usize = 0;
            let n = new_body_lists[j].len();
            while w < n
                invariant
                    w <= n,
                    idxs@.len() == w,
                    forall|q: int| 0 <= q < w ==> (#[trigger] idxs@[q]) == q,
                decreases n - w,
            {
                idxs.push(w);
                w = w + 1;
            }
            proof {
                assert(idxs@ =~= spec_iota(spec_request_picks(g, reqs[j as int]).len() as int));
            }
            index_lists.push(idxs);
            j = j + 1;
        }
        let ghost index_lists_view = spec_vecs_view(index_lists@);
        proof {
            assert(index_lists_view =~= spec_pick_index_lists(g, reqs));
            crate::cross_product::lemma_cross_product_len(spec_pick_index_lists(g, reqs));
            assert(spec_pick_index_lists(g, reqs).map(|jj: int, l: Seq<usize>| l.len() as int)
                =~= spec_pick_counts(g, reqs));
        }
        let combos = cross_product(index_lists);
        let ghost combos_spec = spec_cross_product(spec_pick_index_lists(g, reqs));
        proof {
            crate::cross_product::lemma_cross_product_shape(index_lists_view);
        }
        let mut k: usize = 0;
        while k < combos.len()
            invariant
                k <= combos@.len(),
                self.g.turn < i32::MAX,
                games@.len() == k,
                spec_vecs_view(combos@) == combos_spec,
                combos_spec == spec_cross_product(spec_pick_index_lists(g, reqs)),
                index_lists_view == spec_pick_index_lists(g, reqs),
                new_body_lists@.len() == reqs.len(),
                forall|jj: int|
                    0 <= jj < reqs.len() ==> spec_picks_match(
                        (#[trigger] new_body_lists@[jj])@,
                        spec_request_picks(g, reqs[jj]),
                    ),
                forall|kk: int|
                    0 <= kk < k ==> spec_successor_ok(
                        g,
                        spec_combo_picks(g, reqs, combos_spec[kk]),
                        (#[trigger] games@[kk]).0@,
                        games@[kk].1,
                    ),
            decreases combos@.len() - k,
        {
            let combo = &combos[k];
            proof {
                assert(spec_vecs_view(combos@)[k as int] == combos@[k as int]@);
                assert(combo@ == combos_spec[k as int]);
                assert(combo@.len() == index_lists_view.len());
                assert forall|w: int| 0 <= w < combo@.len() implies (#[trigger] combo@[w])
                    < new_body_lists@[w]@.len() by {
                    assert(index_lists_view[w].contains(combo@[w]));
                    let q = choose|q: int|
                        0 <= q < index_lists_view[w].len() && index_lists_view[w][q] == combo@[w];
                }
            }
            let ghost wp = spec_combo_picks(g, reqs, combo@);
            let mut picks: Vec<(Move, BattleSnakeResult)> = Vec::new();
            let mut w: usize = 0;
            while w < combo.len()
                invariant
                    w <= combo@.len(),
                    picks@.len() == w,
                    combo@.len() == reqs.len(),
                    wp == spec_combo_picks(g, reqs, combo@),
                    forall|ww: int|
                        0 <= ww < combo@.len() ==> (#[trigger] combo@[ww]) < new_body_lists@[ww]@.len(),
                    forall|ww: int|
                        0 <= ww < w ==> {
                            &&& (#[trigger] picks@[ww]).0 == wp[ww].mv
                            &&& spec_res_id(picks@[ww].1) == wp[ww].id
                            &&& match picks@[ww].1 {
                                BattleSnakeResult::Dead(_, _) => wp[ww].dead,
                                BattleSnakeResult::Alive(ns) => !wp[ww].dead && ns.id@
                                    == wp[ww].id && ns.name@ == wp[ww].name && ns.head
                                    == wp[ww].head && ns.body@ == wp[ww].body && ns.health
                                    == wp[ww].health,
                            }
                        },
                decreases combo@.len() - w,
            {
                let j2 = combo[w];
                let pair = &new_body_lists[w][j2];
                proof {
                    assert(wp[w as int] == spec_request_picks(g, reqs[w as int])[combo@[
                    w as int] as int]);
                }
                picks.push((pair.0, clone_result(&pair.1)));
                w = w + 1;
            }
            proof {
                assert(spec_picks_match(picks@, wp));
            }
            let (move_map, new_game) = self.build_successor(&picks, Ghost(wp));
            games.push((move_map, new_game));
            k = k + 1;
        }
        let elapsed = crate::compact_representation::simulate::sim_clock_elapsed(&start);
        instruments.observe_simulation(elapsed);
        games
    }

    /// simulates with every direction allowed for each given agent
    #[verifier::loop_isolation(false)]
    pub fn simulate<T: SimulatorInstruments>(&self, instruments: &T, snake_ids: &Vec<String>) -> (r:
        Vec<(Vec<(String, Move)>, Game)>)
        requires
            forall|s: int|
                0 <= s < self.g.board.snakes@.len() ==> spec_sim_snake_ok(
                    #[trigger] self.g.board.snakes@[s],
                ),
            forall|j: int|
                0 <= j < snake_ids@.len() ==> spec_id_known(*self.g, (#[trigger] snake_ids@[j])@),
            self.g.turn < i32::MAX,
        ensures
            ({
                let reqs = spec_all_wire_requests(snake_ids@);
                let combos = spec_cross_product(spec_pick_index_lists(*self.g, reqs));
                &&& r@.len() == spec_count_product(spec_pick_counts(*self.g, reqs))
                &&& r@.len() == combos.len()
                &&& forall|k: int|
                    0 <= k < r@.len() ==> spec_successor_ok(
                        *self.g,
                        spec_combo_picks(*self.g, reqs, combos[k]),
                        (#[trigger] r@[k]).0@,
                        r@[k].1,
                    )
            }),
    {
        let mut build: Vec<(String, Vec<Move>)> = Vec::new();
        let mut j: usize = 0;
        while j < snake_ids.len()
            invariant
                j <= snake_ids@.len(),
                build@.len() == j,
                forall|jj: int|
                    0 <= jj < j ==> (#[trigger] build@[jj]).0@ == snake_ids@[jj]@ && build@[jj].1@
                        == seq![Move::Up, Move::Down, Move::Left, Move::Right],
            decreases snake_ids@.len() - j,
        {
            let mut all: Vec<Move> = Vec::new();
            all.push(Move::Up);
            all.push(Move::Down);
            all.push(Move::Left);
            all.push(Move::Right);
            proof {
                assert(all@ =~= seq![Move::Up, Move::Down, Move::Left, Move::Right]);
            }
            build.push((snake_ids[j].clone(), all));
            j = j + 1;
        }
        proof {
            assert forall|jj: int| 0 <= jj < build@.len() implies spec_id_known(
                *self.g,
                (#[trigger] build@[jj]).0@,
            ) by {
                assert(spec_id_known(*self.g, snake_ids@[jj]@));
                assert(build@[jj].0@ == snake_ids@[jj]@);
            }
            assert(spec_wire_requests(build@) =~= spec_all_wire_requests(snake_ids@));
        }
        self.simulate_with_moves(instruments, &build)
    }
}


impl<'a> Simulator<'a> {
    /// assembles one successor snapshot from the picks of one joint move:
    /// the move map, the turn bump, your fate, the collision kills, and
    /// the food the surviving heads consumed
    #[verifier::loop_isolation(false)]
    fn build_successor(
        &self,
        picks: &Vec<(Move, BattleSnakeResult)>,
        Ghost(wp): Ghost<Seq<WirePick>>,
    ) -> (r: (Vec<(String, Move)>, Game))
        requires
            spec_picks_match(picks@, wp),
            self.g.turn < i32::MAX,
        ensures
            spec_successor_ok(*self.g, wp, r.0@, r.1),
    {
        let ghost g = *self.g;
        let mut new_game = clone_game(self.g);
        new_game.turn = new_game.turn + 1;

        let mut move_map: Vec<(String, Move)> = Vec::new();
        let mut w: usize = 0;
        while w < picks.len()
            invariant
                w <= picks@.len(),
                move_map@.len() == w,
                forall|j: int|
                    0 <= j < w ==> (#[trigger] move_map@[j]).0@ == wp[j].id && move_map@[j].1
                        == wp[j].mv,
            decreases picks@.len() - w,
        {
            let id = picks[w].1.id().clone();
            move_map.push((id, picks[w].0));
            w = w + 1;
        }

        let mut you_idx: Option<usize> = None;
        let mut w: usize = 0;
        while w < picks.len()
            invariant
                w <= picks@.len(),
                match you_idx {
                    None => spec_you_pick(wp, g.you.id@, w as int) is None,
                    Some(ix) => ix < w && spec_you_pick(wp, g.you.id@, w as int) == Some(
                        wp[ix as int],
                    ),
                },
            decreases picks@.len() - w,
        {
            if *picks[w].1.id() == self.g.you.id {
                you_idx = Some(w);
            }
            w = w + 1;
        }

        let you_is_dead = match you_idx {
            Some(ix) => picks[ix].1.is_dead(),
            None => false,
        };
        if you_is_dead {
            new_game.you.health = 0;
            let mut remaining: Vec<BattleSnake> = Vec::new();
            let mut w: usize = 0;
            while w < new_game.board.snakes.len()
                invariant
                    w <= new_game.board.snakes@.len(),
                    new_game.board.snakes@.len() == g.board.snakes@.len(),
                    forall|q: int|
                        0 <= q < g.board.snakes@.len() ==> spec_snake_fields(
                            #[trigger] new_game.board.snakes@[q],
                            g.board.snakes@[q],
                        ),
                    spec_snakes_like(remaining@, spec_non_you(g.board.snakes@, g.you.id@, w as int)),
                decreases new_game.board.snakes@.len() - w,
            {
                if !(new_game.board.snakes[w].id == self.g.you.id) {
                    remaining.push(clone_snake(&new_game.board.snakes[w]));
                }
                w = w + 1;
            }
            new_game.board.snakes = remaining;
            return (move_map, new_game);
        }

        let mut alive_vec: Vec<BattleSnake> = Vec::new();
        let mut w: usize = 0;
        while w < picks.len()
            invariant
                w <= picks@.len(),
                spec_snakes_like_picks(alive_vec@, spec_alive_picks(wp, w as int)),
            decreases picks@.len() - w,
        {
            match &picks[w].1 {
                BattleSnakeResult::Alive(ns) => {
                    alive_vec.push(clone_snake(ns));
                },
                BattleSnakeResult::Dead(_, _) => {
                },
            }
            w = w + 1;
        }
        let ghost alive = spec_alive_picks(wp, wp.len() as int);

        let mut kept_food: Vec<Position> = Vec::new();
        let mut w: usize = 0;
        while w < new_game.board.food.len()
            invariant
                w <= new_game.board.food@.len(),
                new_game.board.food@ == g.board.food@,
                spec_snakes_like_picks(alive_vec@, alive),
                kept_food@ == spec_kept_food(g.board.food@, alive, w as int),
            decreases new_game.board.food@.len() - w,
        {
            let f = new_game.board.food[w];
            let mut eaten = false;
            let mut q: usize = 0;
            while q < alive_vec.len()
                invariant
                    q <= alive_vec@.len(),
                    w < new_game.board.food@.len(),
                    f == g.board.food@[w as int],
                    eaten == exists|p: int|
                        0 <= p < q && (#[trigger] alive[p]).head == f,
                decreases alive_vec@.len() - q,
            {
                if alive_vec[q].head == f {
                    proof {
                        assert(alive[q as int].head == f);
                    }
                    eaten = true;
                }
                q = q + 1;
            }
            if !eaten {
                kept_food.push(f);
            }
            w = w + 1;
        }
        new_game.board.food = kept_food;

        let mut kill_flags: Vec<bool> = Vec::new();
        let mut w: usize = 0;
        while w < alive_vec.len()
            invariant
                w <= alive_vec@.len(),
                spec_snakes_like_picks(alive_vec@, alive),
                kill_flags@.len() == w,
                forall|q: int| 0 <= q < w ==> kill_flags@[q] == spec_pick_killed(alive, q),
            decreases alive_vec@.len() - w,
        {
            let mut dead = false;
            let mut q: usize = 0;
            while q < alive_vec.len()
                invariant
                    q <= alive_vec@.len(),
                    w < alive_vec@.len(),
                    spec_snakes_like_picks(alive_vec@, alive),
                    dead == exists|p: int|
                        0 <= p < q && (#[trigger] alive[p]).id != alive[w as int].id && (if alive[
                        p].head == alive[w as int].head {
                            alive[w as int].body.len() <= alive[p].body.len()
                        } else {
                            alive[p].body.contains(alive[w as int].head)
                        }),
                decreases alive_vec@.len() - q,
            {
                let hit = if !(alive_vec[q].id == alive_vec[w].id) {
                    if alive_vec[q].head == alive_vec[w].head {
                        alive_vec[w].body.len() <= alive_vec[q].body.len()
                    } else {
                        contains_pos_list(&alive_vec[q].body, alive_vec[w].head)
                    }
                } else {
                    false
                };
                let ghost cond_q = alive[q as int].id != alive[w as int].id && (if alive[
                q as int].head == alive[w as int].head {
                    alive[w as int].body.len() <= alive[q as int].body.len()
                } else {
                    alive[q as int].body.contains(alive[w as int].head)
                });
                proof {
                    assert(hit == cond_q);
                    if hit {
                        assert(0 <= (q as int) < q + 1 && cond_q);
                    } else if !dead {
                        assert forall|p: int|
                            0 <= p < q + 1 implies !((#[trigger] alive[p]).id != alive[
                        w as int].id && (if alive[p].head == alive[w as int].head {
                            alive[w as int].body.len() <= alive[p].body.len()
                        } else {
                            alive[p].body.contains(alive[w as int].head)
                        })) by {
                            if p == q {
                            } else {
                                assert(!(exists|pp: int|
                                    0 <= pp < q && (#[trigger] alive[pp]).id != alive[
                                w as int].id && (if alive[pp].head == alive[w as int].head {
                                    alive[w as int].body.len() <= alive[pp].body.len()
                                } else {
                                    alive[pp].body.contains(alive[w as int].head)
                                })));
                            }
                        }
                    }
                }
                if hit {
                    dead = true;
                }
                q = q + 1;
            }
            kill_flags.push(dead);
            w = w + 1;
        }

        let mut survivors: Vec<BattleSnake> = Vec::new();
        let mut you_survived = false;
        let mut w: usize = 0;
        while w < alive_vec.len()
            invariant
                w <= alive_vec@.len(),
                spec_snakes_like_picks(alive_vec@, alive),
                kill_flags@.len() == alive_vec@.len(),
                forall|q: int| 0 <= q < alive_vec@.len() ==> kill_flags@[q] == spec_pick_killed(alive, q),
                spec_snakes_like_picks(survivors@, spec_pick_survivors(alive, w as int)),
                you_survived == spec_survivor_with_id(
                    spec_pick_survivors(alive, w as int),
                    g.you.id@,
                ),
            decreases alive_vec@.len() - w,
        {
            let ghost surv0 = spec_pick_survivors(alive, w as int);
            if !kill_flags[w] {
                if alive_vec[w].id == self.g.you.id {
                    you_survived = true;
                }
                survivors.push(clone_snake(&alive_vec[w]));
                proof {
                    let surv1 = spec_pick_survivors(alive, w + 1);
                    assert(surv1 == surv0.push(alive[w as int]));
                    if !you_survived {
                        assert forall|p: int| 0 <= p < surv1.len() implies (
                        #[trigger] surv1[p]).id != g.you.id@ by {
                            if p < surv0.len() {
                                assert(!spec_survivor_with_id(surv0, g.you.id@));
                            }
                        }
                    } else {
                        if alive[w as int].id == g.you.id@ {
                            assert(surv1[surv1.len() - 1].id == g.you.id@);
                        } else {
                            let p0 = choose|p: int|
                                0 <= p < surv0.len() && (#[trigger] surv0[p]).id == g.you.id@;
                            assert(surv1[p0].id == g.you.id@);
                        }
                    }
                }
            }
            w = w + 1;
        }
        new_game.board.snakes = survivors;

        match you_idx {
            Some(ix) => {
                match &picks[ix].1 {
                    BattleSnakeResult::Alive(y) => {
                        new_game.you = clone_snake(y);
                    },
                    BattleSnakeResult::Dead(_, _) => {
                    },
                }
            },
            None => {
            },
        }
        if !you_survived {
            new_game.you.health = 0;
        }
        (move_map, new_game)
    }
}

/// a copy of a per-move result
fn clone_result(r0: &BattleSnakeResult) -> (r: BattleSnakeResult)
    ensures
        r is Dead <==> r0 is Dead,
        (match (r, *r0) {
            (BattleSnakeResult::Alive(a), BattleSnakeResult::Alive(b)) => spec_snake_fields(a, b),
            (BattleSnakeResult::Dead(i1, a), BattleSnakeResult::Dead(i2, b)) => i1@ == i2@
                && spec_snake_fields(a, b),
            _ => true,
        }),
{
    match r0 {
        BattleSnakeResult::Alive(s) => BattleSnakeResult::Alive(clone_snake(s)),
        BattleSnakeResult::Dead(i, s) => BattleSnakeResult::Dead(i.clone(), clone_snake(s)),
    }
}

/// a field-for-field copy of a snake record
fn clone_snake(s: &BattleSnake) -> (r: BattleSnake)
    ensures
        r.id@ == s.id@,
        r.name@ == s.name@,
        r.head == s.head,
        r.body@ == s.body@,
        r.health == s.health,
{
    let shout: Option<String> = match &s.shout {
        Some(x) => Some(x.clone()),
        None => None,
    };
    let r = BattleSnake {
        id: s.id.clone(),
        name: s.name.clone(),
        head: s.head,
        body: s.body.clone(),
        health: s.health,
        shout,
        actual_length: s.actual_length,
    };
    proof {
        assert(r.body@ =~= s.body@);
    }
    r
}

/// a field-for-field copy of a snapshot
fn clone_game(g: &Game) -> (r: Game)
    ensures
        r.you.id@ == g.you.id@,
        r.you.name@ == g.you.name@,
        r.you.head == g.you.head,
        r.you.body@ == g.you.body@,
        r.you.health == g.you.health,
        r.turn == g.turn,
        r.game == g.game,
        r.board.width == g.board.width,
        r.board.height == g.board.height,
        r.board.food@ == g.board.food@,
        r.board.hazards@ == g.board.hazards@,
        r.board.snakes@.len() == g.board.snakes@.len(),
        forall|s: int|
            0 <= s < g.board.snakes@.len() ==> spec_snake_fields(
                #[trigger] r.board.snakes@[s],
                g.board.snakes@[s],
            ),
{
    let mut snakes: Vec<BattleSnake> = Vec::new();
    let mut s: usize = 0;
    while s < g.board.snakes.len()
        invariant
            s <= g.board.snakes@.len(),
            snakes@.len() == s,
            forall|w: int|
                0 <= w < s ==> spec_snake_fields(#[trigger] snakes@[w], g.board.snakes@[w]),
        decreases g.board.snakes@.len() - s,
    {
        snakes.push(clone_snake(&g.board.snakes[s]));
        s = s + 1;
    }
    let mut food = Vec::new();
    let mut w: usize = 0;
    while w < g.board.food.len()
        invariant
            w <= g.board.food@.len(),
            food@ =~= g.board.food@.take(w as int),
        decreases g.board.food@.len() - w,
    {
        food.push(g.board.food[w]);
        proof {
            assert(food@ =~= g.board.food@.take(w + 1));
        }
        w = w + 1;
    }
    let mut hazards = Vec::new();
    let mut w: usize = 0;
    while w < g.board.hazards.len()
        invariant
            w <= g.board.hazards@.len(),
            hazards@ =~= g.board.hazards@.take(w as int),
        decreases g.board.hazards@.len() - w,
    {
        hazards.push(g.board.hazards[w]);
        proof {
            assert(hazards@ =~= g.board.hazards@.take(w + 1));
        }
        w = w + 1;
    }
    proof {
        assert(g.board.food@.take(g.board.food@.len() as int) =~= g.board.food@);
        assert(g.board.hazards@.take(g.board.hazards@.len() as int) =~= g.board.hazards@);
    }
    Game {
        you: clone_snake(&g.you),
        board: crate::wire_representation::Board {
            height: g.board.height,
            width: g.board.width,
            food,
            snakes,
            hazards,
        },
        turn: g.turn,
        game: clone_nested_game(&g.game),
    }
}

/// a field-for-field copy of the per-game metadata
fn clone_nested_game(g: &crate::wire_representation::NestedGame) -> (r:
    crate::wire_representation::NestedGame)
    ensures
        r == *g,
{
    let settings: Option<crate::wire_representation::Settings> = match &g.ruleset.settings {
        Some(st) => Some(
            crate::wire_representation::Settings {
                food_spawn_chance: st.food_spawn_chance,
                minimum_food: st.minimum_food,
                hazard_damage_per_turn: st.hazard_damage_per_turn,
                hazard_map: clone_opt_string(&st.hazard_map),
                hazard_map_author: clone_opt_string(&st.hazard_map_author),
                royale: st.royale,
            },
        ),
        None => None,
    };
    crate::wire_representation::NestedGame {
        id: g.id.clone(),
        ruleset: crate::wire_representation::Ruleset {
            name: g.ruleset.name.clone(),
            version: g.ruleset.version.clone(),
            settings,
        },
        timeout: g.timeout,
        map: clone_opt_string(&g.map),
        source: clone_opt_string(&g.source),
    }
}

/// a copy of an optional string
fn clone_opt_string(s: &Option<String>) -> (r: Option<String>)
    ensures
        r == *s,
{
    match s {
        Some(x) => Some(x.clone()),
        None => None,
    }
}

/// whether a position list holds the given position
#[verifier::loop_isolation(false)]
fn contains_pos_list(list: &Vec<Position>, pos: Position) -> (r: bool)
    ensures
        r == list@.contains(pos),
{
    let mut q: usize = 0;
    while q < list.len()
        invariant
            q <= list@.len(),
            !list@.take(q as int).contains(pos),
        decreases list@.len() - q,
    {
        if list[q] == pos {
            proof {
                assert(list@[q as int] == pos);
            }
            return true;
        }
        proof {
            assert forall|w: int| 0 <= w < q + 1 implies #[trigger] list@.take(q + 1)[w]
                != pos by {
                if w < q {
                    assert(list@.take(q as int)[w] == list@.take(q + 1)[w]);
                    assert(!list@.take(q as int).contains(pos));
                }
            }
        }
        q = q + 1;
    }
    proof {
        assert(list@.take(list@.len() as int) =~= list@);
    }
    false
}

/// the snake of the snapshot carrying the given id: the first such record
#[verifier::loop_isolation(false)]
fn find_snake<'b>(g: &'b Game, id: &String) -> (r: &'b BattleSnake)
    requires
        spec_id_known(*g, id@),
    ensures
        *r == spec_found_snake(*g, id@),
        r.id@ == id@,
        exists|s: int|
            0 <= s < g.board.snakes@.len() && #[trigger] g.board.snakes@[s] == *r,
{
    let mut s: usize = 0;
    while s < g.board.snakes.len()
        invariant
            s <= g.board.snakes@.len(),
            exists|w: int|
                s <= w < g.board.snakes@.len() && (#[trigger] g.board.snakes@[w]).id@ == id@,
            spec_first_snake_idx(g.board.snakes@, id@, 0) == spec_first_snake_idx(
                g.board.snakes@,
                id@,
                s as nat,
            ),
        decreases g.board.snakes@.len() - s,
    {
        if g.board.snakes[s].id == *id {
            return &g.board.snakes[s];
        }
        proof {
            let w = choose|w: int|
                s <= w < g.board.snakes@.len() && (#[trigger] g.board.snakes@[w]).id@ == id@;
            assert(w != s);
            assert(s + 1 <= w < g.board.snakes@.len() && g.board.snakes@[w].id@ == id@);
        }
        s = s + 1;
    }
    proof {
        assert(false);
    }
    &g.board.snakes[0]
}

} // verus!
