//! Move resolution: replaying directional inputs against a level.
//!
//! One move runs to completion before the next is considered. All blocking,
//! pushing and win decisions of a move consult the frozen pre-move snapshot
//! of the level; only the live level is mutated, which gives simultaneous
//! semantics for all movers of one move despite sequential processing.

use vstd::prelude::*;

use crate::grid::GridModel;
use crate::grid::lemma_neighbor_step;
use crate::grid::spec_grid_add;
use crate::grid::spec_grid_remove;
use crate::grid::spec_neighbor;
use crate::grid::spec_travel;
use crate::level::Level;
use crate::level::LevelModel;
use crate::rules::rule_at;
use crate::rules::spec_square_has_property;
use crate::square::ENTITY_COUNT;
use crate::square::Entity;
use crate::square::LayeredSquare;
use crate::square::MARKER_COUNT;
use crate::square::Property;
use crate::square::collapse_index;
use crate::square::entity_index_spec;
use crate::square::lemma_collapse_of_marker;
use crate::square::lemma_index_of_from_index;
use crate::square::marker_index_spec;
use crate::square::property_index_spec;

verus! {

/// A directional input.
#[derive(Clone, Copy, Debug, PartialEq, Eq, Structural)]
pub enum Move {
    Left,
    Right,
    Up,
    Down,
}

/// A terminal outcome of play.
#[derive(Clone, Copy, Debug, PartialEq, Eq, Structural)]
pub enum EndState {
    Win,
    Defeat,
}

/// State of the game after a move: `None` means the game is still ongoing.
pub type GameState = Option<EndState>;

/// Folds one outcome into a running outcome: a win on either side wins,
/// an ongoing result leaves the running outcome alone, and otherwise the
/// fold settles on defeat.
pub open spec fn spec_update_game_state(result: GameState, game_state: GameState) -> GameState {
    if result is None {
        game_state
    } else if result == Some(EndState::Win) {
        Some(EndState::Win)
    } else if game_state == Some(EndState::Win) {
        Some(EndState::Win)
    } else {
        Some(EndState::Defeat)
    }
}

/// A game state is ongoing, a win, or a defeat.
pub proof fn lemma_game_state_cases(a: GameState)
    ensures
        a is None || a == Some(EndState::Win) || a == Some(EndState::Defeat),
{
    match a {
        None => {
        },
        Some(e) => {
            match e {
                EndState::Win => {
                },
                EndState::Defeat => {
                },
            }
        },
    }
}

/// Folds one outcome into a running outcome.
pub fn update_game_state(result: GameState, game_state: GameState) -> (r: GameState)
    ensures
        r == spec_update_game_state(result, game_state),
{
    if result.is_none() {
        game_state
    } else if result == Some(EndState::Win) {
        Some(EndState::Win)
    } else if game_state == Some(EndState::Win) {
        Some(EndState::Win)
    } else {
        Some(EndState::Defeat)
    }
}

/// Outcome for the entity kind `ek` arriving at `dest`, judged against the
/// snapshot: a win exactly when the kind is currently `YOU`-tagged and the
/// snapshot's destination cell holds any marker whose entity has `WIN`.
pub open spec fn spec_check_end(snap: LevelModel, dest: int, ek: int) -> GameState {
    if rule_at(snap.rules, ek, property_index_spec(Property::YOU)) {
        if spec_square_has_property(
            snap.rules,
            snap.grid.cells[dest],
            property_index_spec(Property::WIN),
        ) {
            Some(EndState::Win)
        } else {
            None
        }
    } else {
        None
    }
}

/// Relocation of marker `k` from `from` to `to`: both halves of each
/// update, cell contents and reverse index, are applied together.
pub open spec fn spec_relocate(g: GridModel, k: int, from: int, to: int) -> GridModel {
    spec_grid_add(spec_grid_remove(g, k, from), k, to)
}

/// One mover's move resolution, on the marker with index `k` standing at
/// `pos`: the resulting live grid, this mover's outcome, and whether it
/// moved. Decisions consult only the snapshot `snap`; `live` is the grid
/// being mutated.
pub open spec fn spec_move_entity(live: GridModel, snap: LevelModel, m: Move, pos: int, k: int) -> (
    GridModel,
    GameState,
    bool,
)
    decreases spec_travel(snap.grid.width, snap.grid.height, pos, m), 1int, 0int,
{
    match spec_neighbor(snap.grid.width, snap.grid.height, pos, m) {
        None => (live, None, false),
        Some(dest) => {
            if spec_square_has_property(
                snap.rules,
                snap.grid.cells[pos],
                property_index_spec(Property::STOP),
            ) {
                (live, None, false)
            } else {
                spec_try_pushes(live, snap, m, pos, k, dest, 0)
            }
        },
    }
}

/// Push resolution at the destination cell, trying the snapshot's pushable
/// markers there in ascending index order from `i`. The first marker whose
/// recursive push succeeds lets the mover in; if pushable markers exist but
/// none can be pushed, or the cell holds a blocker and nothing pushable,
/// the mover is blocked.
pub open spec fn spec_try_pushes(
    live: GridModel,
    snap: LevelModel,
    m: Move,
    pos: int,
    k: int,
    dest: int,
    i: int,
) -> (GridModel, GameState, bool)
    decreases spec_travel(snap.grid.width, snap.grid.height, pos, m), 0int, MARKER_COUNT - i,
    when spec_neighbor(snap.grid.width, snap.grid.height, pos, m) == Some(dest)
{
    if i >= MARKER_COUNT {
        if spec_square_has_property(
            snap.rules,
            snap.grid.cells[dest],
            property_index_spec(Property::PUSH),
        ) {
            // Pushable markers were present and every push failed.
            (live, None, false)
        } else if spec_square_has_property(
            snap.rules,
            snap.grid.cells[dest],
            property_index_spec(Property::STOP),
        ) {
            (live, None, false)
        } else {
            (spec_relocate(live, k, pos, dest), spec_check_end(snap, dest, collapse_index(k)), true)
        }
    } else if snap.grid.cells[dest].contains(i) && rule_at(
        snap.rules,
        collapse_index(i),
        property_index_spec(Property::PUSH),
    ) {
        proof {
            lemma_neighbor_step(snap.grid.width, snap.grid.height, pos, m, dest);
        }
        let sub = spec_move_entity(live, snap, m, dest, i);
        if sub.2 {
            (
                spec_relocate(sub.0, k, pos, dest),
                spec_update_game_state(spec_check_end(snap, dest, collapse_index(k)), sub.1),
                true,
            )
        } else {
            spec_try_pushes(sub.0, snap, m, pos, k, dest, i + 1)
        }
    } else {
        spec_try_pushes(live, snap, m, pos, k, dest, i + 1)
    }
}

/// Outcome fold over the movers of one `YOU`-tagged entity kind `e`, taken
/// from the snapshot's reverse index from position-list index `j` on.
pub open spec fn spec_fold_positions(
    live: GridModel,
    snap: LevelModel,
    m: Move,
    e: int,
    j: int,
    acc: GameState,
) -> (GridModel, GameState)
    decreases snap.grid.tracking[e].len() - j,
{
    if j < 0 || j >= snap.grid.tracking[e].len() {
        (live, acc)
    } else {
        let pos = snap.grid.tracking[e][j];
        let sub = spec_move_entity(live, snap, m, pos, e);
        spec_fold_positions(sub.0, snap, m, e, j + 1, spec_update_game_state(sub.1, acc))
    }
}

/// Outcome fold over the entity kinds from index `e` on, processing the
/// movers of each kind currently tagged `YOU`.
pub open spec fn spec_fold_entities(
    live: GridModel,
    snap: LevelModel,
    m: Move,
    e: int,
    acc: GameState,
) -> (GridModel, GameState)
    decreases ENTITY_COUNT - e,
{
    if e < 0 || e >= ENTITY_COUNT {
        (live, acc)
    } else if rule_at(snap.rules, e, property_index_spec(Property::YOU)) {
        let sub = spec_fold_positions(live, snap, m, e, 0, None);
        spec_fold_entities(sub.0, snap, m, e + 1, spec_update_game_state(sub.1, acc))
    } else {
        spec_fold_entities(live, snap, m, e + 1, acc)
    }
}

/// One whole move applied to a level: the level itself is the snapshot all
/// decisions consult, and the returned grid is the mutated live grid.
pub open spec fn spec_apply_move(lv: LevelModel, m: Move) -> (GridModel, GameState) {
    spec_fold_entities(lv.grid, lv, m, 0, None)
}

/// A sequence of moves folded over a level in order, without stopping
/// early on a terminal outcome.
pub open spec fn spec_apply_move_sequence(lv: LevelModel, ms: Seq<Move>, acc: GameState) -> (
    LevelModel,
    GameState,
)
    decreases ms.len(),
{
    if ms.len() == 0 {
        (lv, acc)
    } else {
        let sub = spec_apply_move(lv, ms[0]);
        spec_apply_move_sequence(
            LevelModel { grid: sub.0, rules: lv.rules },
            ms.drop_first(),
            spec_update_game_state(sub.1, acc),
        )
    }
}

/// Boundary blocking: a mover at the grid edge in the outward direction
/// leaves the live grid and its tracking unchanged, does not move, and
/// yields an ongoing outcome.
pub proof fn lemma_boundary_blocking(live: GridModel, snap: LevelModel, m: Move, pos: int, k: int)
    requires
        spec_neighbor(snap.grid.width, snap.grid.height, pos, m) is None,
    ensures
        spec_move_entity(live, snap, m, pos, k) == (live, None::<EndState>, false),
{
}

proof fn lemma_try_pushes_blocked(
    live: GridModel,
    snap: LevelModel,
    m: Move,
    pos: int,
    k: int,
    dest: int,
    i: int,
)
    requires
        spec_neighbor(snap.grid.width, snap.grid.height, pos, m) == Some(dest),
        !spec_try_pushes(live, snap, m, pos, k, dest, i).2,
    ensures
        spec_try_pushes(live, snap, m, pos, k, dest, i) == (live, None::<EndState>, false),
    decreases spec_travel(snap.grid.width, snap.grid.height, pos, m), 0int, MARKER_COUNT - i,
{
    if i >= MARKER_COUNT {
    } else if snap.grid.cells[dest].contains(i) && rule_at(
        snap.rules,
        collapse_index(i),
        property_index_spec(Property::PUSH),
    ) {
        lemma_neighbor_step(snap.grid.width, snap.grid.height, pos, m, dest);
        let sub = spec_move_entity(live, snap, m, dest, i);
        lemma_blocked_move_changes_nothing(live, snap, m, dest, i);
        lemma_try_pushes_blocked(sub.0, snap, m, pos, k, dest, i + 1);
    } else {
        lemma_try_pushes_blocked(live, snap, m, pos, k, dest, i + 1);
    }
}

/// A blocked move is not an error and not a mutation: whenever a mover
/// could not move — at the grid edge, stopped, or with every push failing —
/// the live grid, its tracking included, is exactly what it was, and the
/// mover's outcome is ongoing.
pub proof fn lemma_blocked_move_changes_nothing(
    live: GridModel,
    snap: LevelModel,
    m: Move,
    pos: int,
    k: int,
)
    requires
        !spec_move_entity(live, snap, m, pos, k).2,
    ensures
        spec_move_entity(live, snap, m, pos, k) == (live, None::<EndState>, false),
    decreases spec_travel(snap.grid.width, snap.grid.height, pos, m), 1int, 0int,
{
    match spec_neighbor(snap.grid.width, snap.grid.height, pos, m) {
        None => {
        },
        Some(dest) => {
            if !spec_square_has_property(
                snap.rules,
                snap.grid.cells[pos],
                property_index_spec(Property::STOP),
            ) {
                lemma_try_pushes_blocked(live, snap, m, pos, k, dest, 0);
            }
        },
    }
}

/// Folding one outcome into a running outcome yields a win exactly when
/// either side is a win: a win strictly dominates, whatever order the
/// outcomes are seen in.
pub proof fn lemma_win_dominance(a: GameState, b: GameState)
    ensures
        spec_update_game_state(a, b) == Some(EndState::Win) <==> (a == Some(EndState::Win) || b
            == Some(EndState::Win)),
{
}

proof fn lemma_try_pushes_win(
    live: GridModel,
    snap: LevelModel,
    m: Move,
    pos: int,
    k: int,
    dest: int,
    i: int,
)
    requires
        spec_neighbor(snap.grid.width, snap.grid.height, pos, m) == Some(dest),
        spec_try_pushes(live, snap, m, pos, k, dest, i).2,
        spec_check_end(snap, dest, collapse_index(k)) == Some(EndState::Win),
    ensures
        spec_try_pushes(live, snap, m, pos, k, dest, i).1 == Some(EndState::Win),
    decreases MARKER_COUNT - i,
{
    if i >= MARKER_COUNT {
    } else if snap.grid.cells[dest].contains(i) && rule_at(
        snap.rules,
        collapse_index(i),
        property_index_spec(Property::PUSH),
    ) {
        let sub = spec_move_entity(live, snap, m, dest, i);
        if !sub.2 {
            lemma_try_pushes_win(sub.0, snap, m, pos, k, dest, i + 1);
        }
    } else {
        lemma_try_pushes_win(live, snap, m, pos, k, dest, i + 1);
    }
}

/// Win detection: a mover of a `YOU`-tagged kind that moves onto a cell
/// whose snapshot contents include any marker whose entity has `WIN`
/// yields a win, whatever came of the pushes that let it in.
pub proof fn lemma_win_detection(
    live: GridModel,
    snap: LevelModel,
    m: Move,
    pos: int,
    k: int,
    dest: int,
)
    requires
        spec_neighbor(snap.grid.width, snap.grid.height, pos, m) == Some(dest),
        spec_move_entity(live, snap, m, pos, k).2,
        rule_at(snap.rules, collapse_index(k), property_index_spec(Property::YOU)),
        spec_square_has_property(
            snap.rules,
            snap.grid.cells[dest],
            property_index_spec(Property::WIN),
        ),
    ensures
        spec_move_entity(live, snap, m, pos, k).1 == Some(EndState::Win),
{
    lemma_try_pushes_win(live, snap, m, pos, k, dest, 0);
}

/// A running win is never lost over the rest of one kind's movers.
pub proof fn lemma_fold_positions_win_absorbs(
    live: GridModel,
    snap: LevelModel,
    m: Move,
    e: int,
    j: int,
)
    ensures
        spec_fold_positions(live, snap, m, e, j, Some(EndState::Win)).1 == Some(EndState::Win),
    decreases snap.grid.tracking[e].len() - j,
{
    if 0 <= j < snap.grid.tracking[e].len() {
        let pos = snap.grid.tracking[e][j];
        let sub = spec_move_entity(live, snap, m, pos, e);
        lemma_fold_positions_win_absorbs(sub.0, snap, m, e, j + 1);
    }
}

/// A running win is never lost over the remaining entity kinds.
pub proof fn lemma_fold_entities_win_absorbs(live: GridModel, snap: LevelModel, m: Move, e: int)
    ensures
        spec_fold_entities(live, snap, m, e, Some(EndState::Win)).1 == Some(EndState::Win),
    decreases ENTITY_COUNT - e,
{
    if 0 <= e < ENTITY_COUNT {
        if rule_at(snap.rules, e, property_index_spec(Property::YOU)) {
            let sub = spec_fold_positions(live, snap, m, e, 0, None);
            lemma_fold_entities_win_absorbs(sub.0, snap, m, e + 1);
        } else {
            lemma_fold_entities_win_absorbs(live, snap, m, e + 1);
        }
    }
}

/// One mover's win makes the whole fold over its kind's movers a win,
/// whatever the other movers yield.
pub proof fn lemma_mover_win_folds_to_win(
    live: GridModel,
    snap: LevelModel,
    m: Move,
    e: int,
    j: int,
    acc: GameState,
)
    requires
        0 <= j < snap.grid.tracking[e].len(),
        spec_move_entity(live, snap, m, snap.grid.tracking[e][j], e).1 == Some(EndState::Win),
    ensures
        spec_fold_positions(live, snap, m, e, j, acc).1 == Some(EndState::Win),
{
    let pos = snap.grid.tracking[e][j];
    let sub = spec_move_entity(live, snap, m, pos, e);
    lemma_fold_positions_win_absorbs(sub.0, snap, m, e, j + 1);
}

/// One kind's winning fold makes the whole move's aggregate a win,
/// whatever the other kinds yield.
pub proof fn lemma_kind_win_folds_to_win(
    live: GridModel,
    snap: LevelModel,
    m: Move,
    e: int,
    acc: GameState,
)
    requires
        0 <= e < ENTITY_COUNT,
        rule_at(snap.rules, e, property_index_spec(Property::YOU)),
        spec_fold_positions(live, snap, m, e, 0, None).1 == Some(EndState::Win),
    ensures
        spec_fold_entities(live, snap, m, e, acc).1 == Some(EndState::Win),
{
    let sub = spec_fold_positions(live, snap, m, e, 0, None);
    lemma_fold_entities_win_absorbs(sub.0, snap, m, e + 1);
}

proof fn lemma_try_pushes_no_defeat(
    live: GridModel,
    snap: LevelModel,
    m: Move,
    pos: int,
    k: int,
    dest: int,
    i: int,
)
    requires
        spec_neighbor(snap.grid.width, snap.grid.height, pos, m) == Some(dest),
    ensures
        spec_try_pushes(live, snap, m, pos, k, dest, i).1 != Some(EndState::Defeat),
    decreases spec_travel(snap.grid.width, snap.grid.height, pos, m), 0int, MARKER_COUNT - i,
{
    if i >= MARKER_COUNT {
    } else if snap.grid.cells[dest].contains(i) && rule_at(
        snap.rules,
        collapse_index(i),
        property_index_spec(Property::PUSH),
    ) {
        lemma_neighbor_step(snap.grid.width, snap.grid.height, pos, m, dest);
        let sub = spec_move_entity(live, snap, m, dest, i);
        lemma_move_entity_no_defeat(live, snap, m, dest, i);
        lemma_try_pushes_no_defeat(sub.0, snap, m, pos, k, dest, i + 1);
    } else {
        lemma_try_pushes_no_defeat(live, snap, m, pos, k, dest, i + 1);
    }
}

proof fn lemma_move_entity_no_defeat(live: GridModel, snap: LevelModel, m: Move, pos: int, k: int)
    ensures
        spec_move_entity(live, snap, m, pos, k).1 != Some(EndState::Defeat),
    decreases spec_travel(snap.grid.width, snap.grid.height, pos, m), 1int, 0int,
{
    match spec_neighbor(snap.grid.width, snap.grid.height, pos, m) {
        None => {
        },
        Some(dest) => {
            if !spec_square_has_property(
                snap.rules,
                snap.grid.cells[pos],
                property_index_spec(Property::STOP),
            ) {
                lemma_try_pushes_no_defeat(live, snap, m, pos, k, dest, 0);
            }
        },
    }
}

proof fn lemma_fold_positions_no_defeat(
    live: GridModel,
    snap: LevelModel,
    m: Move,
    e: int,
    j: int,
    acc: GameState,
)
    requires
        acc != Some(EndState::Defeat),
    ensures
        spec_fold_positions(live, snap, m, e, j, acc).1 != Some(EndState::Defeat),
    decreases snap.grid.tracking[e].len() - j,
{
    if 0 <= j < snap.grid.tracking[e].len() {
        let pos = snap.grid.tracking[e][j];
        let sub = spec_move_entity(live, snap, m, pos, e);
        lemma_move_entity_no_defeat(live, snap, m, pos, e);
        lemma_game_state_cases(sub.1);
        lemma_fold_positions_no_defeat(
            sub.0,
            snap,
            m,
            e,
            j + 1,
            spec_update_game_state(sub.1, acc),
        );
    }
}

proof fn lemma_fold_entities_no_defeat(
    live: GridModel,
    snap: LevelModel,
    m: Move,
    e: int,
    acc: GameState,
)
    requires
        acc != Some(EndState::Defeat),
    ensures
        spec_fold_entities(live, snap, m, e, acc).1 != Some(EndState::Defeat),
    decreases ENTITY_COUNT - e,
{
    if 0 <= e < ENTITY_COUNT {
        if rule_at(snap.rules, e, property_index_spec(Property::YOU)) {
            let sub = spec_fold_positions(live, snap, m, e, 0, None);
            lemma_fold_positions_no_defeat(live, snap, m, e, 0, None);
            lemma_game_state_cases(sub.1);
            lemma_fold_entities_no_defeat(
                sub.0,
                snap,
                m,
                e + 1,
                spec_update_game_state(sub.1, acc),
            );
        } else {
            lemma_fold_entities_no_defeat(live, snap, m, e + 1, acc);
        }
    }
}

/// No move ever yields a defeat: the aggregation machinery knows the
/// defeat outcome, but no step of move resolution currently produces one,
/// so a move's result is always a win or ongoing.
pub proof fn lemma_apply_move_never_defeats(lv: LevelModel, m: Move)
    ensures
        spec_apply_move(lv, m).1 != Some(EndState::Defeat),
{
    lemma_fold_entities_no_defeat(lv.grid, lv, m, 0, None);
}

/// No move sequence ever yields a defeat.
pub proof fn lemma_sequence_never_defeats(lv: LevelModel, ms: Seq<Move>)
    ensures
        spec_apply_move_sequence(lv, ms, None).1 != Some(EndState::Defeat),
{
    lemma_sequence_no_defeat_rec(lv, ms, None);
}

proof fn lemma_sequence_no_defeat_rec(lv: LevelModel, ms: Seq<Move>, acc: GameState)
    requires
        acc != Some(EndState::Defeat),
    ensures
        spec_apply_move_sequence(lv, ms, acc).1 != Some(EndState::Defeat),
    decreases ms.len(),
{
    if ms.len() != 0 {
        let sub = spec_apply_move(lv, ms[0]);
        lemma_apply_move_never_defeats(lv, ms[0]);
        lemma_game_state_cases(sub.1);
        lemma_sequence_no_defeat_rec(
            LevelModel { grid: sub.0, rules: lv.rules },
            ms.drop_first(),
            spec_update_game_state(sub.1, acc),
        );
    }
}

/// Checks whether a winning condition is triggered for entity kind
/// `entity` standing at `pos`, against the snapshot `old_level`.
fn check_end(old_level: &Level, pos: usize, entity: Entity) -> (r: GameState)
    requires
        old_level.wf(),
        pos < old_level@.grid.cells.len(),
    ensures
        r == spec_check_end(old_level@, pos as int, entity_index_spec(entity)),
{
    if old_level.rules.has_rule(entity, Property::YOU) {
        if old_level.rules.square_has_property(old_level.grid.cell(pos), Property::WIN) {
            Some(EndState::Win)
        } else {
            None
        }
    } else {
        None
    }
}

impl Level {
    /// Applies the given move to every entity instance whose kind is
    /// currently tagged `YOU`, folding the movers' outcomes.
    pub fn apply_move(&mut self, m: Move) -> (r: GameState)
        requires
            old(self).wf(),
        ensures
            final(self).wf(),
            final(self)@.rules == old(self)@.rules,
            final(self)@.grid.width == old(self)@.grid.width,
            final(self)@.grid.height == old(self)@.grid.height,
            final(self)@.grid == spec_apply_move(old(self)@, m).0,
            r == spec_apply_move(old(self)@, m).1,
    {
        let snap = self.snapshot();
        self.fold_entities(m, 0, None, &snap)
    }

    /// Applies an ordered list of moves, mutating the level after each one
    /// and folding every move's outcome into a running result.
    pub fn apply_move_sequence(&mut self, ms: Vec<Move>) -> (r: GameState)
        requires
            old(self).wf(),
        ensures
            final(self).wf(),
            final(self)@ == spec_apply_move_sequence(old(self)@, ms@, None).0,
            r == spec_apply_move_sequence(old(self)@, ms@, None).1,
    {
        let mut acc: GameState = None;
        let mut idx: usize = 0;
        proof {
            assert(ms@.skip(0) =~= ms@);
        }
        while idx < ms.len()
            invariant
                self.wf(),
                idx <= ms@.len(),
                spec_apply_move_sequence(self@, ms@.skip(idx as int), acc)
                    == spec_apply_move_sequence(old(self)@, ms@, None),
            decreases ms@.len() - idx,
        {
            let ghost lv0 = self@;
            let ghost rest0 = ms@.skip(idx as int);
            let st = self.apply_move(ms[idx]);
            acc = update_game_state(st, acc);
            proof {
                assert(rest0[0] == ms@[idx as int]);
                assert(rest0.drop_first() =~= ms@.skip(idx + 1 as int));
                assert(LevelModel { grid: spec_apply_move(lv0, ms@[idx as int]).0, rules: lv0.rules }
                    =~= self@);
            }
            idx = idx + 1;
        }
        proof {
            assert(ms@.skip(ms@.len() as int).len() == 0);
        }
        acc
    }

    /// Processes the entity kinds from index `e` on against the snapshot,
    /// moving the instances of each kind the snapshot tags `YOU`.
    fn fold_entities(&mut self, m: Move, e: usize, acc: GameState, snap: &Level) -> (r: GameState)
        requires
            old(self).wf(),
            snap.wf(),
            old(self)@.grid.width == snap@.grid.width,
            old(self)@.grid.height == snap@.grid.height,
            e <= ENTITY_COUNT,
        ensures
            final(self).wf(),
            final(self)@.rules == old(self)@.rules,
            final(self)@.grid.width == snap@.grid.width,
            final(self)@.grid.height == snap@.grid.height,
            final(self)@.grid == spec_fold_entities(old(self)@.grid, snap@, m, e as int, acc).0,
            r == spec_fold_entities(old(self)@.grid, snap@, m, e as int, acc).1,
        decreases ENTITY_COUNT - e,
    {
        if e == ENTITY_COUNT {
            return acc;
        }
        let entity = match Entity::from_index(e) {
            Some(x) => x,
            None => Entity::TEXT,
        };
        proof {
            assert(entity_index_spec(entity) == e as int);
        }
        if snap.rules.has_rule(entity, Property::YOU) {
            let positions = snap.grid.tracked_offsets(LayeredSquare::Entity(entity));
            let you_res = self.fold_positions(m, entity, &positions, 0, None, snap);
            let acc2 = update_game_state(you_res, acc);
            self.fold_entities(m, e + 1, acc2, snap)
        } else {
            self.fold_entities(m, e + 1, acc, snap)
        }
    }

    /// Moves the instances of one `YOU`-tagged entity kind, walking its
    /// snapshot reverse-index list from `j` on.
    fn fold_positions(
        &mut self,
        m: Move,
        entity: Entity,
        positions: &Vec<usize>,
        j: usize,
        acc: GameState,
        snap: &Level,
    ) -> (r: GameState)
        requires
            old(self).wf(),
            snap.wf(),
            old(self)@.grid.width == snap@.grid.width,
            old(self)@.grid.height == snap@.grid.height,
            positions@.map_values(|x: usize| x as int) == snap@.grid.tracking[entity_index_spec(
                entity,
            )],
            j <= positions@.len(),
        ensures
            final(self).wf(),
            final(self)@.rules == old(self)@.rules,
            final(self)@.grid.width == snap@.grid.width,
            final(self)@.grid.height == snap@.grid.height,
            final(self)@.grid == spec_fold_positions(
                old(self)@.grid,
                snap@,
                m,
                entity_index_spec(entity),
                j as int,
                acc,
            ).0,
            r == spec_fold_positions(
                old(self)@.grid,
                snap@,
                m,
                entity_index_spec(entity),
                j as int,
                acc,
            ).1,
        decreases positions@.len() - j,
    {
        let ghost e = entity_index_spec(entity);
        if j == positions.len() {
            return acc;
        }
        let pos = positions[j];
        proof {
            assert(snap@.grid.tracking[e][j as int] == pos as int);
            assert(pos < snap@.grid.cells.len());
        }
        let sub = self.move_entity(m, pos, LayeredSquare::Entity(entity), snap);
        let acc2 = update_game_state(sub.0, acc);
        self.fold_positions(m, entity, positions, j + 1, acc2, snap)
    }

    /// Main physics function applying the movement constraints to one
    /// mover: returns the mover's outcome and whether it could move.
    fn move_entity(&mut self, m: Move, pos: usize, marker: LayeredSquare, snap: &Level) -> (r: (
        GameState,
        bool,
    ))
        requires
            old(self).wf(),
            snap.wf(),
            old(self)@.grid.width == snap@.grid.width,
            old(self)@.grid.height == snap@.grid.height,
            pos < snap@.grid.cells.len(),
        ensures
            final(self).wf(),
            final(self)@.rules == old(self)@.rules,
            final(self)@.grid.width == snap@.grid.width,
            final(self)@.grid.height == snap@.grid.height,
            final(self)@.grid == spec_move_entity(
                old(self)@.grid,
                snap@,
                m,
                pos as int,
                marker_index_spec(marker),
            ).0,
            r.0 == spec_move_entity(
                old(self)@.grid,
                snap@,
                m,
                pos as int,
                marker_index_spec(marker),
            ).1,
            r.1 == spec_move_entity(
                old(self)@.grid,
                snap@,
                m,
                pos as int,
                marker_index_spec(marker),
            ).2,
        decreases spec_travel(snap@.grid.width, snap@.grid.height, pos as int, m), 1int, 0int,
    {
        match snap.grid.apply_move(pos, m) {
            None => (None, false),
            Some(dest) => {
                proof {
                    lemma_neighbor_step(
                        snap@.grid.width,
                        snap@.grid.height,
                        pos as int,
                        m,
                        dest as int,
                    );
                }
                if snap.rules.square_has_property(snap.grid.cell(pos), Property::STOP) {
                    (None, false)
                } else {
                    self.try_pushes(m, pos, marker, dest, 0, snap)
                }
            },
        }
    }

    /// Tries the snapshot's pushable markers at `dest` in ascending index
    /// order from `i`; the first successful push lets the mover in.
    fn try_pushes(
        &mut self,
        m: Move,
        pos: usize,
        marker: LayeredSquare,
        dest: usize,
        i: usize,
        snap: &Level,
    ) -> (r: (GameState, bool))
        requires
            old(self).wf(),
            snap.wf(),
            old(self)@.grid.width == snap@.grid.width,
            old(self)@.grid.height == snap@.grid.height,
            pos < snap@.grid.cells.len(),
            dest < snap@.grid.cells.len(),
            spec_neighbor(snap@.grid.width, snap@.grid.height, pos as int, m) == Some(dest as int),
            i <= MARKER_COUNT,
        ensures
            final(self).wf(),
            final(self)@.rules == old(self)@.rules,
            final(self)@.grid.width == snap@.grid.width,
            final(self)@.grid.height == snap@.grid.height,
            final(self)@.grid == spec_try_pushes(
                old(self)@.grid,
                snap@,
                m,
                pos as int,
                marker_index_spec(marker),
                dest as int,
                i as int,
            ).0,
            r.0 == spec_try_pushes(
                old(self)@.grid,
                snap@,
                m,
                pos as int,
                marker_index_spec(marker),
                dest as int,
                i as int,
            ).1,
            r.1 == spec_try_pushes(
                old(self)@.grid,
                snap@,
                m,
                pos as int,
                marker_index_spec(marker),
                dest as int,
                i as int,
            ).2,
        decreases spec_travel(snap@.grid.width, snap@.grid.height, pos as int, m),
            0int,
            MARKER_COUNT - i,
    {
        if i == MARKER_COUNT {
            let dest_cell = snap.grid.cell(dest);
            if snap.rules.square_has_property(dest_cell, Property::PUSH) {
                return (None, false);
            }
            if snap.rules.square_has_property(dest_cell, Property::STOP) {
                return (None, false);
            }
            self.move_internal(marker, pos, dest);
            proof {
                lemma_collapse_of_marker(marker);
            }
            let st = check_end(snap, dest, marker.entity_of());
            (st, true)
        } else {
            let dest_cell = snap.grid.cell(dest);
            let collapsed: usize = if i < ENTITY_COUNT {
                i
            } else {
                5
            };
            if dest_cell.contains_index(i) && snap.rules.has_rule_index(
                collapsed,
                Property::PUSH.index(),
            ) {
                let pushed = LayeredSquare::of_index(i);
                proof {
                    lemma_index_of_from_index(i as int);
                    lemma_neighbor_step(
                        snap@.grid.width,
                        snap@.grid.height,
                        pos as int,
                        m,
                        dest as int,
                    );
                }
                let sub = self.move_entity(m, dest, pushed, snap);
                if sub.1 {
                    self.move_internal(marker, pos, dest);
                    proof {
                        lemma_collapse_of_marker(marker);
                    }
                    let st = check_end(snap, dest, marker.entity_of());
                    (update_game_state(st, sub.0), true)
                } else {
                    self.try_pushes(m, pos, marker, dest, i + 1, snap)
                }
            } else {
                self.try_pushes(m, pos, marker, dest, i + 1, snap)
            }
        }
    }

    /// Internally applies a relocation, updating the affected cells and
    /// the reverse index together; the bidirectional invariant of the grid
    /// is preserved.
    fn move_internal(&mut self, layer: LayeredSquare, start: usize, dest: usize)
        requires
            old(self).wf(),
            start < old(self)@.grid.cells.len(),
            dest < old(self)@.grid.cells.len(),
        ensures
            final(self).wf(),
            final(self)@.rules == old(self)@.rules,
            final(self)@.grid == spec_relocate(
                old(self)@.grid,
                marker_index_spec(layer),
                start as int,
                dest as int,
            ),
    {
        self.grid.remove_marker(layer, start);
        self.grid.add_marker(layer, dest);
    }
}

} // verus!
