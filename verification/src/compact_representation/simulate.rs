//! The simulator: enumerates every joint move over the requested per-agent
//! direction sets and evaluates each one against the precomputed table.
use vstd::prelude::*;

use crate::compact_representation::cell_board::{BoardModel, CellBoard};
use crate::compact_representation::eval::{
    spec_evaluate, spec_moves_view, spec_state_table, spec_table_at, EvaluateMode,
    SinglePlayerMoveResult,
};
use crate::cross_product::{
    cross_product, lemma_cross_product_shape, spec_cross_product, spec_vecs_view,
};
use crate::types::{Action, Move, SimulatorInstruments, SnakeId};

verus! {

/// A moment of monotonic time, used only to report elapsed wall time to
/// the host's instruments.
#[verifier::external_type_specification]
#[verifier::external_body]
pub struct ExInstant(std::time::Instant);

/// Relies on std::time::Instant::now: an opaque moment of monotonic time.
/// Nothing is assumed of its value.
#[verifier::external_body]
pub(crate) fn sim_clock_start() -> std::time::Instant {
    std::time::Instant::now()
}

/// Relies on std::time::Instant::elapsed: the time since the moment, here
/// taken in microseconds and truncated to 64 bits. Nothing is assumed of
/// its value.
#[verifier::external_body]
pub(crate) fn sim_clock_elapsed(start: &std::time::Instant) -> u64 {
    #[allow(clippy::cast_possible_truncation)]
    (start.elapsed().as_micros() as u64)
}

/// The directions of one agent's request whose isolated move survives,
/// scanning the first `n` requested directions in order.
pub open spec fn spec_kept(
    sid: SnakeId,
    mvs: Seq<Move>,
    table: Seq<SinglePlayerMoveResult>,
    n: int,
) -> Seq<(SnakeId, Move)>
    decreases n,
{
    if n <= 0 {
        Seq::empty()
    } else {
        let prev = spec_kept(sid, mvs, table, n - 1);
        if !(spec_table_at(table, (sid, mvs[n - 1])) is Dead) {
            prev.push((sid, mvs[n - 1]))
        } else {
            prev
        }
    }
}

/// One agent's surviving directions; an agent left without any is still
/// represented by its first requested direction, which will kill it.
pub open spec fn spec_filtered_pair(
    pair: (SnakeId, Seq<Move>),
    table: Seq<SinglePlayerMoveResult>,
) -> Seq<(SnakeId, Move)> {
    let kept = spec_kept(pair.0, pair.1, table, pair.1.len() as int);
    if kept.len() == 0 {
        seq![(pair.0, pair.1[0])]
    } else {
        kept
    }
}

/// Every agent's surviving directions, in request order.
pub open spec fn spec_filtered_lists(
    mv: Seq<(SnakeId, Seq<Move>)>,
    table: Seq<SinglePlayerMoveResult>,
) -> Seq<Seq<(SnakeId, Move)>> {
    mv.map(|j: int, pair: (SnakeId, Seq<Move>)| spec_filtered_pair(pair, table))
}

/// A request of every direction for each given agent, in the order the
/// convenience entry point builds it.
pub open spec fn spec_all_direction_requests(snake_ids: Seq<SnakeId>) -> Seq<(SnakeId, Seq<Move>)> {
    snake_ids.map(
        |j: int, sid: SnakeId| (sid, seq![Move::Up, Move::Down, Move::Left, Move::Right]),
    )
}

/// Every entry of an agent's surviving directions carries that agent's id.
proof fn lemma_kept_ids(sid: SnakeId, mvs: Seq<Move>, table: Seq<SinglePlayerMoveResult>, n: int)
    ensures
        forall|w: int|
            0 <= w < spec_kept(sid, mvs, table, n).len() ==> (#[trigger] spec_kept(
                sid,
                mvs,
                table,
                n,
            )[w]).0 == sid,
    decreases n,
{
    if n > 0 {
        lemma_kept_ids(sid, mvs, table, n - 1);
        let prev = spec_kept(sid, mvs, table, n - 1);
        let cur = spec_kept(sid, mvs, table, n);
        assert forall|w: int| 0 <= w < cur.len() implies (#[trigger] cur[w]).0 == sid by {
            if w < prev.len() {
                assert(cur[w] == prev[w]);
            }
        }
    }
}

/// simulates every joint move of the requested per-agent direction sets:
/// builds the per-move table once, keeps each agent's surviving directions
/// (falling back to its first request when none survive), and evaluates
/// each combination of them, reporting the elapsed time to the instruments
#[verifier::loop_isolation(false)]
pub fn simulate_with_moves<I: SimulatorInstruments>(
    board: &CellBoard,
    instruments: &I,
    snake_ids_and_moves: &Vec<(SnakeId, Vec<Move>)>,
    evaluate_mode: EvaluateMode,
) -> (r: Vec<(Action, CellBoard)>)
    requires
        board@.wf(),
        forall|j: int|
            0 <= j < snake_ids_and_moves@.len() ==> ((#[trigger] snake_ids_and_moves@[j]).0.0
                as int) < board@.healths.len(),
        forall|j: int|
            0 <= j < snake_ids_and_moves@.len() ==> (#[trigger] snake_ids_and_moves@[j]).1@.len()
                >= 1,
        forall|j1: int, j2: int|
            0 <= j1 < j2 < snake_ids_and_moves@.len() ==> (#[trigger] snake_ids_and_moves@[j1]).0
                != (#[trigger] snake_ids_and_moves@[j2]).0,
    ensures
        ({
            let mv = spec_moves_view(snake_ids_and_moves@);
            let table = spec_state_table(board@, mv, evaluate_mode);
            let combos = spec_cross_product(spec_filtered_lists(mv, table));
            &&& r@.len() == combos.len()
            &&& forall|k: int|
                0 <= k < r@.len() ==> {
                    &&& (#[trigger] r@[k]).1@ == spec_evaluate(board@, combos[k], table)
                    &&& r@[k].1@.wf()
                    &&& r@[k].0.spec_moves() == Action::spec_collect(
                        combos[k],
                        board@.healths.len() as usize,
                    )
                }
        }),
{
    let start = sim_clock_start();
    let ghost mv = spec_moves_view(snake_ids_and_moves@);
    let states = board.generate_state(snake_ids_and_moves, evaluate_mode);
    let ghost table = states@;
    let max_snakes = board.iter_healths().len();

    let mut lists: Vec<Vec<(SnakeId, Move)>> = Vec::new();
    let mut j: usize = 0;
    while j < snake_ids_and_moves.len()
        invariant
            j <= snake_ids_and_moves@.len(),
            lists@.len() == j,
            forall|jj: int|
                0 <= jj < j ==> (#[trigger] lists@[jj])@ == spec_filtered_pair(mv[jj], table),
        decreases snake_ids_and_moves@.len() - j,
    {
        let sid = snake_ids_and_moves[j].0;
        let n_mvs = snake_ids_and_moves[j].1.len();
        let mut kept: Vec<(SnakeId, Move)> = Vec::new();
        let mut l: usize = 0;
        while l < n_mvs
            invariant
                l <= n_mvs,
                n_mvs == mv[j as int].1.len(),
                sid == mv[j as int].0,
                j < snake_ids_and_moves@.len(),
                kept@ == spec_kept(sid, mv[j as int].1, table, l as int),
            decreases n_mvs - l,
        {
            let m = snake_ids_and_moves[j].1[l];
            let e = states[sid.0 as usize * 4 + m.as_index()];
            if !e.is_dead() {
                kept.push((sid, m));
            }
            l = l + 1;
        }
        if kept.len() == 0 {
            kept.push((sid, snake_ids_and_moves[j].1[0]));
        }
        proof {
            assert(kept@ =~= spec_filtered_pair(mv[j as int], table));
        }
        lists.push(kept);
        j = j + 1;
    }
    proof {
        assert(spec_vecs_view(lists@) =~= spec_filtered_lists(mv, table));
    }

    if snake_ids_and_moves.len() == 0 {
        let out: Vec<(Action, CellBoard)> = Vec::new();
        let elapsed = sim_clock_elapsed(&start);
        instruments.observe_simulation(elapsed);
        return out;
    }

    let ghost flists = spec_filtered_lists(mv, table);
    let ghost combos_spec = spec_cross_product(flists);
    let combos = cross_product(lists);
    proof {
        lemma_cross_product_shape(flists);
        assert forall|j2: int, w: int|
            0 <= j2 < flists.len() && 0 <= w < flists[j2].len() implies {
            &&& ((#[trigger] flists[j2][w]).0) == mv[j2].0
            &&& ((flists[j2][w]).0.0 as int) < board@.healths.len()
        } by {
            lemma_kept_ids(mv[j2].0, mv[j2].1, table, mv[j2].1.len() as int);
        }
    }

    let mut out: Vec<(Action, CellBoard)> = Vec::new();
    let mut k: usize = 0;
    while k < combos.len()
        invariant
            k <= combos@.len(),
            spec_vecs_view(combos@) == combos_spec,
            out@.len() == k,
            forall|kk: int|
                0 <= kk < k ==> {
                    &&& (#[trigger] out@[kk]).1@ == spec_evaluate(board@, combos_spec[kk], table)
                    &&& out@[kk].1@.wf()
                    &&& out@[kk].0.spec_moves() == Action::spec_collect(
                        combos_spec[kk],
                        board@.healths.len() as usize,
                    )
                },
        decreases combos@.len() - k,
    {
        let combo = &combos[k];
        proof {
            assert(combo@ == combos_spec[k as int]);
            assert(combo@.len() == flists.len());
            assert forall|w: int| 0 <= w < combo@.len() implies ((#[trigger] combo@[w]).0)
                == mv[w].0 && ((combo@[w]).0.0 as int) < board@.healths.len() by {
                assert(flists[w].contains(combos_spec[k as int][w]));
                let q = choose|q: int| 0 <= q < flists[w].len() && flists[w][q] == combos_spec[
                k as int][w];
                assert(flists[w][q].0 == mv[w].0);
            }
            assert forall|w1: int, w2: int| 0 <= w1 < w2 < combo@.len() implies (
            #[trigger] combo@[w1]).0 != (#[trigger] combo@[w2]).0 by {
                assert(combo@[w1].0 == mv[w1].0);
                assert(combo@[w2].0 == mv[w2].0);
                assert(mv[w1].0 == snake_ids_and_moves@[w1].0);
                assert(mv[w2].0 == snake_ids_and_moves@[w2].0);
            }
        }
        let action = Action::collect_from(combo, max_snakes);
        let game = board.evaluate_moves_with_state(combo, &states);
        out.push((action, game));
        k = k + 1;
    }
    let elapsed = sim_clock_elapsed(&start);
    instruments.observe_simulation(elapsed);
    out
}

} // verus!
