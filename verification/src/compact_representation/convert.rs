//! Building a compact board from a normalized snapshot: each agent's body
//! is written head-first as a linked ring of cells, then food and hazard
//! marks are applied from the snapshot's lists.
use vstd::prelude::*;

use crate::compact_representation::cell::{Cell, CellIndex, CellKind};
use crate::compact_representation::cell_board::{BoardModel, CellBoard};
use crate::types::{SnakeId, SnakeIDMap};
use crate::types::spec_lookup_from;
use crate::wire_representation::{BattleSnake, Game, Position};

verus! {

/// Why a snapshot cannot become a board.
#[derive(Debug, Clone, Copy, PartialEq, Eq, Structural)]
pub enum ConvertError {
    /// the snapshot's grid does not fit the requested cell capacity, or it
    /// holds more agents than the requested agent capacity
    SizeMismatch,
    /// an agent has three body segments on one square combined with other
    /// segments, which no legal game state produces
    MalformedBody,
    /// the snapshot's rule set does not match the geometry asked for
    WrongMode,
}

/// How often a position occurs among the first `n` entries of a body.
pub open spec fn spec_count_of(body: Seq<Position>, pos: Position, n: int) -> int
    decreases n,
{
    if n <= 0 {
        0
    } else {
        spec_count_of(body, pos, n - 1) + (if body[n - 1] == pos {
            1int
        } else {
            0int
        })
    }
}

/// How many distinct positions the first `n` entries of a body hold.
pub open spec fn spec_unique_count(body: Seq<Position>, n: int) -> int
    decreases n,
{
    if n <= 0 {
        0
    } else {
        spec_unique_count(body, n - 1) + (if body.take(n - 1).contains(body[n - 1]) {
            0int
        } else {
            1int
        })
    }
}

/// Whether a body is malformed: some square holds exactly three of its
/// segments while the body covers more than one square.
pub open spec fn spec_body_malformed(body: Seq<Position>) -> bool {
    &&& exists|j: int|
        0 <= j < body.len() && spec_count_of(body, #[trigger] body[j], body.len() as int) == 3
    &&& spec_unique_count(body, body.len() as int) != 1
}

/// The flat index of a position under the given stride.
pub open spec fn spec_pos_index(pos: Position, width: u8) -> int {
    pos.y * width + pos.x
}

/// The cells and the running link after writing the first `i` entries of
/// one agent's body, head first: each square is written once, at its first
/// occurrence; a square holding the whole body becomes a triple stack, the
/// head square a head cell linked to the tail square, a doubled square a
/// double stack and any other a body piece, each linked to the previously
/// written square.
pub open spec fn spec_write_body(
    cells: Seq<Cell>,
    body: Seq<Position>,
    head: Position,
    sid: SnakeId,
    width: u8,
    i: int,
) -> (Seq<Cell>, CellIndex)
    decreases i,
{
    if i <= 0 {
        (cells, CellIndex(spec_pos_index(head, width) as u16))
    } else {
        let prev = spec_write_body(cells, body, head, sid, width, i - 1);
        let pos = body[i - 1];
        if body.take(i - 1).contains(pos) {
            prev
        } else {
            let cell_idx = CellIndex(spec_pos_index(pos, width) as u16);
            let count = spec_count_of(body, pos, body.len() as int);
            let new_cell = if count == 3 {
                Cell { kind: CellKind::TripleStacked, hazard: false, id: sid, idx: CellIndex(0) }
            } else if pos == head {
                Cell {
                    kind: CellKind::Head,
                    hazard: false,
                    id: sid,
                    idx: CellIndex(spec_pos_index(body.last(), width) as u16),
                }
            } else if count == 2 {
                Cell { kind: CellKind::DoubleStacked, hazard: false, id: sid, idx: prev.1 }
            } else {
                Cell { kind: CellKind::BodyPiece, hazard: false, id: sid, idx: prev.1 }
            };
            (prev.0.update(cell_idx.0 as int, new_cell), cell_idx)
        }
    }
}

/// The board arrays after writing the first `n` snakes of the snapshot:
/// dead agents are skipped; every other agent's health, length and head
/// slot is filled from its record, and its body is written to the cells.
pub open spec fn spec_write_snakes(
    cells: Seq<Cell>,
    healths: Seq<u8>,
    lengths: Seq<u16>,
    heads: Seq<CellIndex>,
    snakes: Seq<BattleSnake>,
    ids: Seq<Seq<char>>,
    width: u8,
    n: int,
) -> (Seq<Cell>, Seq<u8>, Seq<u16>, Seq<CellIndex>)
    decreases n,
{
    if n <= 0 {
        (cells, healths, lengths, heads)
    } else {
        let prev = spec_write_snakes(cells, healths, lengths, heads, snakes, ids, width, n - 1);
        let snake = snakes[n - 1];
        if snake.health == 0 {
            prev
        } else {
            match spec_lookup_from(ids, snake.id@, 0) {
                None => prev,
                Some(sid) => {
                    let head_idx = CellIndex(spec_pos_index(snake.head, width) as u16);
                    let written = spec_write_body(
                        prev.0,
                        snake.body@,
                        snake.head,
                        SnakeId(sid as u8),
                        width,
                        snake.body@.len() as int,
                    );
                    (
                        written.0,
                        prev.1.update(sid, snake.health as u8),
                        prev.2.update(sid, snake.body@.len() as u16),
                        prev.3.update(sid, head_idx),
                    )
                },
            }
        }
    }
}

/// A fresh empty cell.
pub open spec fn spec_empty_cell() -> Cell {
    Cell { kind: CellKind::Empty, hazard: false, id: SnakeId(0), idx: CellIndex(0) }
}

/// The cells after applying the snapshot's food and hazard lists to the
/// first `t` squares of the grid: a listed hazard square gets its mark, a
/// listed food square becomes food, in that order per square.
pub open spec fn spec_apply_flags(
    cells: Seq<Cell>,
    food: Seq<Position>,
    hazards: Seq<Position>,
    width: u8,
    t: int,
) -> Seq<Cell>
    decreases t,
{
    if t <= 0 {
        cells
    } else {
        let prev = spec_apply_flags(cells, food, hazards, width, t - 1);
        let pos = Position { x: ((t - 1) % width as int) as i32, y: ((t - 1) / width as int) as i32 };
        let c1 = if hazards.contains(pos) {
            prev.update(t - 1, Cell { hazard: true, ..prev[t - 1] })
        } else {
            prev
        };
        if food.contains(pos) {
            c1.update(t - 1, Cell { kind: CellKind::Food, ..c1[t - 1] })
        } else {
            c1
        }
    }
}

/// The board a snapshot converts to, when it fits: `board_size` empty
/// cells, the snakes written, then food and hazards applied.
pub open spec fn spec_converted_board(
    game: Game,
    ids: Seq<Seq<char>>,
    board_size: int,
    max_snakes: int,
) -> BoardModel {
    let width = game.board.width as u8;
    let height = game.board.height as u8;
    let base_cells = Seq::new(board_size as nat, |i: int| spec_empty_cell());
    let zero_h = Seq::new(max_snakes as nat, |i: int| 0u8);
    let zero_l = Seq::new(max_snakes as nat, |i: int| 0u16);
    let zero_hd = Seq::new(max_snakes as nat, |i: int| CellIndex(0));
    let written = spec_write_snakes(
        base_cells,
        zero_h,
        zero_l,
        zero_hd,
        game.board.snakes@,
        ids,
        width,
        game.board.snakes@.len() as int,
    );
    let flagged = spec_apply_flags(
        written.0,
        game.board.food@,
        game.board.hazards@,
        width,
        width as int * height as int,
    );
    BoardModel {
        hazard_damage: game.spec_hazard_damage(),
        cells: flagged,
        healths: written.1,
        lengths: written.2,
        heads: written.3,
        width,
        height,
    }
}

/// What converting a snapshot requires of it beyond what the conversion
/// itself checks: sane coordinates and records, and an id map that knows
/// every alive snake. These hold of every snapshot a host sends.
pub open spec fn spec_game_convertible(game: Game, ids: Seq<Seq<char>>, max_snakes: int) -> bool {
    &&& 1 <= game.board.width <= u8::MAX
    &&& 1 <= game.board.height <= u8::MAX
    &&& forall|s: int|
        0 <= s < game.board.snakes@.len() ==> {
            let snake = #[trigger] game.board.snakes@[s];
            &&& 0 <= snake.health <= 100
            &&& (snake.health != 0 ==> {
                &&& snake.body@.len() >= 1
                &&& snake.body@.len() <= u16::MAX
                &&& snake.body@[0] == snake.head
                &&& (match spec_lookup_from(ids, snake.id@, 0) {
                    Some(sid) => 0 <= sid < max_snakes,
                    None => false,
                })
                &&& (forall|p: int|
                    0 <= p < snake.body@.len() ==> {
                        let pos = #[trigger] snake.body@[p];
                        0 <= pos.x < game.board.width && 0 <= pos.y < game.board.height
                    })
                &&& spec_count_of(snake.body@, snake.head, snake.body@.len() as int) != 2
            })
        }
}


/// whether a position list holds the given position
#[verifier::loop_isolation(false)]
fn contains_pos(list: &Vec<Position>, pos: Position) -> (r: bool)
    ensures
        r == list@.contains(pos),
{
    let mut q: usize = 0;
    while q < list.len()
        invariant
            q <= list@.len(),
            !list@.take(q as int).contains(pos),
        decreases list@.len() - q,
    {
        if list[q] == pos {
            proof {
                assert(list@[q as int] == pos);
            }
            return true;
        }
        proof {
            assert forall|w: int| 0 <= w < q + 1 implies #[trigger] list@.take(q + 1)[w]
                != pos by {
                if w < q {
                    assert(list@.take(q as int)[w] == list@.take(q + 1)[w]);
                    assert(!list@.take(q as int).contains(pos));
                }
            }
        }
        q = q + 1;
    }
    proof {
        assert(list@.take(list@.len() as int) =~= list@);
    }
    false
}

/// how often a position occurs in a body
#[verifier::loop_isolation(false)]
fn count_of(body: &Vec<Position>, pos: Position) -> (r: usize)
    ensures
        r == spec_count_of(body@, pos, body@.len() as int),
{
    let mut c: usize = 0;
    let mut q: usize = 0;
    while q < body.len()
        invariant
            q <= body@.len(),
            c == spec_count_of(body@, pos, q as int),
            c <= q,
        decreases body@.len() - q,
    {
        if body[q] == pos {
            c = c + 1;
        }
        q = q + 1;
    }
    c
}

/// whether the position at `p` already occurred earlier in the body
#[verifier::loop_isolation(false)]
fn seen_before(body: &Vec<Position>, p: usize) -> (r: bool)
    requires
        p < body@.len(),
    ensures
        r == body@.take(p as int).contains(body@[p as int]),
{
    let pos = body[p];
    let mut q: usize = 0;
    while q < p
        invariant
            q <= p,
            pos == body@[p as int],
            !body@.take(q as int).contains(pos),
        decreases p - q,
    {
        if body[q] == pos {
            proof {
                assert(body@.take(p as int)[q as int] == pos);
            }
            return true;
        }
        proof {
            assert forall|w: int| 0 <= w < q + 1 implies #[trigger] body@.take(q + 1)[w]
                != pos by {
                if w < q {
                    assert(body@.take(q as int)[w] == body@.take(q + 1)[w]);
                    assert(!body@.take(q as int).contains(pos));
                }
            }
        }
        q = q + 1;
    }
    false
}

/// whether a body is malformed: some square holds exactly three segments
/// while the body covers more than one square
#[verifier::loop_isolation(false)]
fn body_is_malformed(body: &Vec<Position>) -> (r: bool)
    ensures
        r == spec_body_malformed(body@),
{
    let mut any3 = false;
    let mut p: usize = 0;
    while p < body.len()
        invariant
            p <= body@.len(),
            any3 == exists|j: int|
                0 <= j < p && spec_count_of(body@, #[trigger] body@[j], body@.len() as int) == 3,
        decreases body@.len() - p,
    {
        let c = count_of(body, body[p]);
        if c == 3 {
            any3 = true;
            proof {
                assert(spec_count_of(body@, body@[p as int], body@.len() as int) == 3);
            }
        }
        proof {
            if !any3 {
                assert forall|j: int|
                    0 <= j < p + 1 implies spec_count_of(
                    body@,
                    #[trigger] body@[j],
                    body@.len() as int,
                ) != 3 by {
                    if j < p {
                        assert(!(exists|jj: int|
                            0 <= jj < p && spec_count_of(
                                body@,
                                #[trigger] body@[jj],
                                body@.len() as int,
                            ) == 3));
                    }
                }
            }
        }
        p = p + 1;
    }
    if !any3 {
        return false;
    }
    let mut uq: usize = 0;
    let mut p: usize = 0;
    while p < body.len()
        invariant
            p <= body@.len(),
            uq == spec_unique_count(body@, p as int),
            uq <= p,
        decreases body@.len() - p,
    {
        if !seen_before(body, p) {
            uq = uq + 1;
        }
        p = p + 1;
    }
    uq != 1
}

impl CellBoard {
    /// builds a compact board from a snapshot: fails with SizeMismatch when
    /// the grid exceeds the cell capacity or the snakes the agent capacity,
    /// and with MalformedBody when some body stacks three segments on one
    /// square beside others; otherwise the board holds every alive agent's
    /// ring, the food and the hazard marks of the snapshot
    #[verifier::loop_isolation(false)]
    #[verifier::rlimit(60)]
    pub fn convert_from_game(
        game: &Game,
        snake_ids: &SnakeIDMap,
        board_size: usize,
        max_snakes: usize,
    ) -> (r: Result<CellBoard, ConvertError>)
        requires
            snake_ids.wf(),
            spec_game_convertible(*game, snake_ids.spec_ids(), max_snakes as int),
            board_size <= u16::MAX + 1,
            1 <= max_snakes <= 256,
        ensures
            r == Err::<CellBoard, ConvertError>(ConvertError::SizeMismatch) <==> (game.board.width
                * game.board.height > board_size || game.board.snakes@.len() > max_snakes),
            r == Err::<CellBoard, ConvertError>(ConvertError::MalformedBody) <==> (!(
            game.board.width * game.board.height > board_size || game.board.snakes@.len()
                > max_snakes) && exists|s: int|
                0 <= s < game.board.snakes@.len() && spec_body_malformed(
                    (#[trigger] game.board.snakes@[s]).body@,
                )),
            r matches Err(e) ==> e == ConvertError::SizeMismatch || e
                == ConvertError::MalformedBody,
            r matches Ok(b) ==> b@ == spec_converted_board(
                *game,
                snake_ids.spec_ids(),
                board_size as int,
                max_snakes as int,
            ) && b@.wf(),
    {
        proof {
            assert(game.board.width * game.board.height <= 65025) by (nonlinear_arith)
                requires
                    1 <= game.board.width <= 255,
                    1 <= game.board.height <= 255,
            ;
        }
        let area: usize = game.board.width as usize * game.board.height as usize;
        if area > board_size {
            return Err(ConvertError::SizeMismatch);
        }
        if game.board.snakes.len() > max_snakes {
            return Err(ConvertError::SizeMismatch);
        }
        let mut s: usize = 0;
        while s < game.board.snakes.len()
            invariant
                s <= game.board.snakes@.len(),
                forall|ss: int|
                    0 <= ss < s ==> !spec_body_malformed(
                        (#[trigger] game.board.snakes@[ss]).body@,
                    ),
            decreases game.board.snakes@.len() - s,
        {
            if body_is_malformed(&game.board.snakes[s].body) {
                proof {
                    assert(spec_body_malformed(game.board.snakes@[s as int].body@));
                }
                return Err(ConvertError::MalformedBody);
            }
            s = s + 1;
        }
        let width = game.board.width as u8;
        let height = game.board.height as u8;
        let ghost ids = snake_ids.spec_ids();

        let mut cells: Vec<Cell> = Vec::new();
        let mut i: usize = 0;
        while i < board_size
            invariant
                i <= board_size,
                cells@ =~= Seq::new(i as nat, |k: int| spec_empty_cell()),
            decreases board_size - i,
        {
            cells.push(Cell::empty());
            proof {
                assert(cells@ =~= Seq::new((i + 1) as nat, |k: int| spec_empty_cell()));
            }
            i = i + 1;
        }
        let mut healths: Vec<u8> = Vec::new();
        let mut lengths: Vec<u16> = Vec::new();
        let mut heads: Vec<CellIndex> = Vec::new();
        let mut i: usize = 0;
        while i < max_snakes
            invariant
                i <= max_snakes,
                healths@ =~= Seq::new(i as nat, |k: int| 0u8),
                lengths@ =~= Seq::new(i as nat, |k: int| 0u16),
                heads@ =~= Seq::new(i as nat, |k: int| CellIndex(0)),
            decreases max_snakes - i,
        {
            healths.push(0);
            lengths.push(0);
            heads.push(CellIndex(0));
            proof {
                assert(healths@ =~= Seq::new((i + 1) as nat, |k: int| 0u8));
                assert(lengths@ =~= Seq::new((i + 1) as nat, |k: int| 0u16));
                assert(heads@ =~= Seq::new((i + 1) as nat, |k: int| CellIndex(0)));
            }
            i = i + 1;
        }
        proof {
            assert(width * height >= 1) by (nonlinear_arith)
                requires
                    width >= 1,
                    height >= 1,
            ;
        }
        let ghost base_cells = cells@;
        let ghost zero_h = healths@;
        let ghost zero_l = lengths@;
        let ghost zero_hd = heads@;

        let mut s: usize = 0;
        while s < game.board.snakes.len()
            invariant
                s <= game.board.snakes@.len(),
                (cells@, healths@, lengths@, heads@) == spec_write_snakes(
                    base_cells,
                    zero_h,
                    zero_l,
                    zero_hd,
                    game.board.snakes@,
                    ids,
                    width,
                    s as int,
                ),
                cells@.len() == board_size,
                healths@.len() == max_snakes,
                lengths@.len() == max_snakes,
                heads@.len() == max_snakes,
                forall|k: int| 0 <= k < max_snakes ==> (#[trigger] heads@[k]).0 < width * height,
                forall|k: int|
                    0 <= k < board_size ==> (#[trigger] cells@[k]).idx.0 < width * height || cells@[
                    k].idx.0 == 0,
            decreases game.board.snakes@.len() - s,
        {
            let snake = &game.board.snakes[s];
            let ghost prev_state = (cells@, healths@, lengths@, heads@);
            if snake.health != 0 {
                match snake_ids.get(&snake.id) {
                    None => {
                    },
                    Some(sid) => {
                        proof {
                            let w = width as int;
                            let h = height as int;
                            assert forall|p: int| 0 <= p < snake.body@.len() implies 0
                                <= spec_pos_index(#[trigger] snake.body@[p], width) < w * h by {
                                let pos = snake.body@[p];
                                assert(pos.y * w + pos.x < h * w) by (nonlinear_arith)
                                    requires
                                        0 <= pos.x < w,
                                        0 <= pos.y < h,
                                        w >= 1,
                                        h >= 1,
                                ;
                                assert(h * w == w * h) by (nonlinear_arith);
                                assert(pos.y * w + pos.x >= 0) by (nonlinear_arith)
                                    requires
                                        0 <= pos.x,
                                        0 <= pos.y,
                                        w >= 1,
                                ;
                            }
                        }
                        healths[sid.0 as usize] = snake.health as u8;
                        lengths[sid.0 as usize] = snake.body.len() as u16;
                        let head_idx = CellIndex::new(snake.head, width);
                        heads[sid.0 as usize] = head_idx;
                        let mut next_index = head_idx;
                        let ghost cells0 = cells@;
                        let mut p: usize = 0;
                        while p < snake.body.len()
                            invariant
                                p <= snake.body@.len(),
                                snake == game.board.snakes@[s as int],
                                s < game.board.snakes@.len(),
                                snake.health != 0,
                                (cells@, next_index) == spec_write_body(
                                    cells0,
                                    snake.body@,
                                    snake.head,
                                    sid,
                                    width,
                                    p as int,
                                ),
                                cells@.len() == board_size,
                                next_index.0 < width * height,
                                forall|k: int|
                                    0 <= k < board_size ==> (#[trigger] cells@[k]).idx.0 < width
                                        * height || cells@[k].idx.0 == 0,
                            decreases snake.body@.len() - p,
                        {
                            let pos = snake.body[p];
                            if !seen_before(&snake.body, p) {
                                let cell_idx = CellIndex::new(pos, width);
                                let count = count_of(&snake.body, pos);
                                let new_cell = if count == 3 {
                                    Cell::make_triple_stacked_piece(sid)
                                } else if pos == snake.head {
                                    let tail_pos = snake.body[snake.body.len() - 1];
                                    Cell::make_snake_head(sid, CellIndex::new(tail_pos, width))
                                } else if count == 2 {
                                    Cell::make_double_stacked_piece(sid, next_index)
                                } else {
                                    Cell::make_body_piece(sid, next_index)
                                };
                                cells[cell_idx.0 as usize] = new_cell;
                                next_index = cell_idx;
                                proof {
                                    assert(snake.body@.last() == snake.body@[snake.body@.len()
                                        - 1]);
                                    assert((cells@, next_index) == spec_write_body(
                                        cells0,
                                        snake.body@,
                                        snake.head,
                                        sid,
                                        width,
                                        p + 1,
                                    ));
                                }
                            }
                            p = p + 1;
                        }
                        proof {
                            assert(spec_lookup_from(ids, snake.id@, 0) == Some(sid.0 as int));
                        }
                    },
                }
            }
            proof {
                assert((cells@, healths@, lengths@, heads@) == spec_write_snakes(
                    base_cells,
                    zero_h,
                    zero_l,
                    zero_hd,
                    game.board.snakes@,
                    ids,
                    width,
                    s + 1,
                ));
            }
            s = s + 1;
        }
        let ghost after_snakes = cells@;

        let mut y: u8 = 0;
        while y < height
            invariant
                y <= height,
                cells@ == spec_apply_flags(
                    after_snakes,
                    game.board.food@,
                    game.board.hazards@,
                    width,
                    y as int * width as int,
                ),
                cells@.len() == board_size,
                board_size >= width * height,
                forall|k: int|
                    0 <= k < board_size ==> (#[trigger] cells@[k]).idx.0 < width * height
                        || cells@[k].idx.0 == 0,
            decreases height - y,
        {
            let mut x: u8 = 0;
            while x < width
                invariant
                    x <= width,
                    y < height,
                    cells@ == spec_apply_flags(
                        after_snakes,
                        game.board.food@,
                        game.board.hazards@,
                        width,
                        y as int * width as int + x as int,
                    ),
                    cells@.len() == board_size,
                    forall|k: int|
                        0 <= k < board_size ==> (#[trigger] cells@[k]).idx.0 < width * height
                            || cells@[k].idx.0 == 0,
                decreases width - x,
            {
                let position = Position { x: x as i32, y: y as i32 };
                proof {
                    let w = width as int;
                    let h = height as int;
                    let yy = y as int;
                    let xx = x as int;
                    assert(0 <= yy * w + xx && yy * w + xx < w * h && yy * w + xx < 65536)
                        by (nonlinear_arith)
                        requires
                            0 <= xx < w,
                            0 <= yy < h,
                            1 <= w <= 255,
                            1 <= h <= 255,
                    ;
                }
                let t: usize = y as usize * width as usize + x as usize;
                proof {
                    let w = width as int;
                    vstd::arithmetic::div_mod::lemma_fundamental_div_mod_converse(
                        t as int,
                        w,
                        y as int,
                        x as int,
                    );
                    assert((t as int) % w == x as int);
                    assert((t as int) / w == y as int);
                    assert(t < board_size);
                }
                if contains_pos(&game.board.hazards, position) {
                    let mut c = cells[t];
                    c.set_hazard();
                    cells[t] = c;
                }
                if contains_pos(&game.board.food, position) {
                    let mut c = cells[t];
                    c.set_food();
                    cells[t] = c;
                }
                proof {
                    assert(cells@ =~= spec_apply_flags(
                        after_snakes,
                        game.board.food@,
                        game.board.hazards@,
                        width,
                        y as int * width as int + x as int + 1,
                    ));
                }
                x = x + 1;
            }
            proof {
                assert(y as int * width as int + width as int == (y + 1) as int * width as int)
                    by (nonlinear_arith);
            }
            y = y + 1;
        }

        let hazard_damage = game.get_hazard_damage();
        let r = CellBoard::from_parts(hazard_damage, cells, healths, heads, lengths, width, height);
        proof {
            assert(height as int * width as int == width as int * height as int)
                by (nonlinear_arith);
            let target = spec_converted_board(*game, ids, board_size as int, max_snakes as int);
            assert(r@.hazard_damage == target.hazard_damage);
            assert(r@.width == target.width);
            assert(r@.height == target.height);
            assert(base_cells == Seq::new(board_size as nat, |i: int| spec_empty_cell()));
            assert(zero_h == Seq::new(max_snakes as nat, |i: int| 0u8));
            assert(zero_l == Seq::new(max_snakes as nat, |i: int| 0u16));
            assert(zero_hd == Seq::new(max_snakes as nat, |i: int| CellIndex(0)));
            assert(r@.healths == target.healths);
            assert(r@.lengths == target.lengths);
            assert(r@.heads == target.heads);
            assert(r@.cells == target.cells);
            assert(r@ =~= spec_converted_board(
                *game,
                ids,
                board_size as int,
                max_snakes as int,
            ));
            assert(r@.cells.len() >= r@.width * r@.height);
            assert forall|k: int| 0 <= k < r@.cells.len() implies (#[trigger] r@.cells[k]).idx.0
                < r@.cells.len() by {
                assert(r@.cells[k].idx.0 < width * height || r@.cells[k].idx.0 == 0);
            }
            assert(r@.wf());
        }
        Ok(r)
    }
}

} // verus!
