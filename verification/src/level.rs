//! A whole level: one grid plus one rule table, with the authoring
//! operations that populate them before play.

use vstd::prelude::*;

use crate::grid::Grid;
use crate::grid::GridModel;
use crate::grid::Position;
use crate::grid::grid_wf;
use crate::grid::spec_grid_add;
use crate::rules::RULE_TABLE_SIZE;
use crate::rules::RuleManager;
use crate::rules::spec_add_rule;
use crate::square::Entity;
use crate::square::LayeredSquare;
use crate::square::Property;
use crate::square::Text;
use crate::square::entity_index_spec;
use crate::square::marker_index_spec;
use crate::square::property_index_spec;

verus! {

/// Orientation of a line of markers.
#[allow(non_camel_case_types)]
#[derive(Clone, Copy, Debug, PartialEq, Eq, Structural)]
pub enum Direction {
    VERTICAL,
    HORIZONTAL,
}

impl Direction {
    /// The unit 2D offset of this direction.
    pub open spec fn offset_spec(self) -> (int, int) {
        match self {
            Direction::VERTICAL => (0, 1),
            Direction::HORIZONTAL => (1, 0),
        }
    }

    /// The unit 2D offset of this direction.
    pub fn offset(self) -> (r: Position)
        ensures
            (r.0 as int, r.1 as int) == self.offset_spec(),
    {
        match self {
            Direction::VERTICAL => (0, 1),
            Direction::HORIZONTAL => (1, 0),
        }
    }
}

/// A direction's unit offset is one of the two axis steps.
pub proof fn lemma_direction_cases(dir: Direction)
    ensures
        dir.offset_spec() == (1int, 0int) || dir.offset_spec() == (0int, 1int),
{
    match dir {
        Direction::VERTICAL => {
        },
        Direction::HORIZONTAL => {
        },
    }
}

/// An authoring error: the declared rule sentence is not of the shape
/// entity-word, keyword, property-word.
#[derive(Clone, Copy, Debug, PartialEq, Eq, Structural)]
pub enum LevelError {
    InvalidRuleSentence,
}

/// Mathematical model of a level: the grid model plus the rule table.
#[verifier::ext_equal]
pub ghost struct LevelModel {
    pub grid: GridModel,
    pub rules: Seq<bool>,
}

/// A level owns exactly one grid and one rule table, created together and
/// mutated in place by authoring calls and by move resolution.
#[derive(Debug)]
pub struct Level {
    pub grid: Grid,
    pub rules: RuleManager,
}

impl View for Level {
    type V = LevelModel;

    open spec fn view(&self) -> LevelModel {
        LevelModel { grid: self.grid@, rules: self.rules@ }
    }
}

/// Linear offset of the 2D position `(x, y)` on a grid of width `w`.
pub open spec fn spec_offset(w: int, x: int, y: int) -> int {
    x + y * w
}

/// The grid `g` after placing marker `k` at each of `len` cells along a
/// line starting at `(x, y)` and advancing by `(dx, dy)` per step.
pub open spec fn spec_add_line(g: GridModel, k: int, x: int, y: int, dx: int, dy: int, len: nat) -> GridModel
    decreases len,
{
    if len == 0 {
        g
    } else {
        spec_add_line(
            spec_grid_add(g, k, spec_offset(g.width, x, y)),
            k,
            x + dx,
            y + dy,
            dx,
            dy,
            (len - 1) as nat,
        )
    }
}

impl Level {
    /// Well-formedness of a level: its grid is well-formed and its rule
    /// table has the full Entity×Property size.
    pub open spec fn wf(self) -> bool {
        &&& grid_wf(self@.grid)
        &&& self@.rules.len() == RULE_TABLE_SIZE
    }

    /// Creates a level with an empty grid and the base rule table.
    pub fn new(width: usize, height: usize) -> (r: Level)
        requires
            1 <= width,
            1 <= height,
            width * height <= usize::MAX,
        ensures
            r.wf(),
            r@.grid.width == width,
            r@.grid.height == height,
            forall|o: int, k: int|
                0 <= o < r@.grid.cells.len() ==> !(#[trigger] r@.grid.cells[o].contains(k)),
            forall|k: int|
                0 <= k < crate::square::MARKER_COUNT ==> #[trigger] r@.grid.tracking[k].len() == 0,
            forall|e: int, p: int|
                0 <= e < crate::square::ENTITY_COUNT && 0 <= p < crate::square::PROPERTY_COUNT ==> (
                #[trigger] crate::rules::rule_at(r@.rules, e, p) <==> (e == entity_index_spec(
                    Entity::TEXT,
                ) && p == property_index_spec(Property::PUSH))),
    {
        Level { grid: Grid::new(width, height), rules: RuleManager::new() }
    }

    /// An independent copy of this level: the frozen pre-move snapshot
    /// that all blocking and pushing decisions of one move consult.
    pub fn snapshot(&self) -> (r: Level)
        ensures
            r@ == self@,
    {
        let r = Level { grid: self.grid.snapshot(), rules: self.rules.snapshot() };
        proof {
            assert(r@ =~= self@);
        }
        r
    }

    /// Adds a marker at a cell given in 2D coordinates.
    pub fn add_square(&mut self, square: LayeredSquare, pos: Position)
        requires
            old(self).wf(),
            pos.0 < old(self)@.grid.width,
            pos.1 < old(self)@.grid.height,
        ensures
            final(self).wf(),
            final(self)@.rules == old(self)@.rules,
            final(self)@.grid == spec_grid_add(
                old(self)@.grid,
                marker_index_spec(square),
                spec_offset(old(self)@.grid.width, pos.0 as int, pos.1 as int),
            ),
    {
        let o = self.grid.index(pos);
        self.add_square_internal(square, o);
    }

    /// Adds a marker at a cell given by linear offset, updating the cell
    /// contents and the reverse index together.
    pub fn add_square_internal(&mut self, square: LayeredSquare, pos: usize)
        requires
            old(self).wf(),
            pos < old(self)@.grid.cells.len(),
        ensures
            final(self).wf(),
            final(self)@.rules == old(self)@.rules,
            final(self)@.grid == spec_grid_add(
                old(self)@.grid,
                marker_index_spec(square),
                pos as int,
            ),
    {
        self.grid.add_marker(square, pos);
    }

    /// Places `length` copies of a marker along a line, advancing by the
    /// unit offset of `dir` each step.
    pub fn add_square_line(&mut self, square: LayeredSquare, pos: Position, length: usize, dir: Direction)
        requires
            old(self).wf(),
            pos.0 + length * dir.offset_spec().0 <= old(self)@.grid.width,
            pos.1 + length * dir.offset_spec().1 <= old(self)@.grid.height,
            pos.0 < old(self)@.grid.width,
            pos.1 < old(self)@.grid.height,
        ensures
            final(self).wf(),
            final(self)@.rules == old(self)@.rules,
            final(self)@.grid.width == old(self)@.grid.width,
            final(self)@.grid.height == old(self)@.grid.height,
            final(self)@.grid == spec_add_line(
                old(self)@.grid,
                marker_index_spec(square),
                pos.0 as int,
                pos.1 as int,
                dir.offset_spec().0,
                dir.offset_spec().1,
                length as nat,
            ),
    {
        let ghost g0 = self@.grid;
        let ghost k = marker_index_spec(square);
        let ghost dx = dir.offset_spec().0;
        let ghost dy = dir.offset_spec().1;
        let off = dir.offset();
        proof {
            lemma_direction_cases(dir);
        }
        let mut cur = pos;
        let mut i: usize = 0;
        while i < length
            invariant
                self.wf(),
                i <= length,
                self@.rules == old(self)@.rules,
                self@.grid.width == g0.width,
                self@.grid.height == g0.height,
                cur.0 == pos.0 + i * dx,
                cur.1 == pos.1 + i * dy,
                dx == dir.offset_spec().0,
                dy == dir.offset_spec().1,
                (dx == 1 && dy == 0) || (dx == 0 && dy == 1),
                off.0 == dx && off.1 == dy,
                pos.0 + length * dx <= g0.width,
                pos.1 + length * dy <= g0.height,
                pos.0 < g0.width,
                pos.1 < g0.height,
                spec_add_line(
                    self@.grid,
                    k,
                    cur.0 as int,
                    cur.1 as int,
                    dx,
                    dy,
                    (length - i) as nat,
                ) == spec_add_line(g0, k, pos.0 as int, pos.1 as int, dx, dy, length as nat),
                k == marker_index_spec(square),
            decreases length - i,
        {
            proof {
                assert(cur.0 < self@.grid.width && cur.1 < self@.grid.height && cur.0 + dx
                    <= usize::MAX && cur.1 + dy <= usize::MAX) by (nonlinear_arith)
                    requires
                        cur.0 == pos.0 + i * dx,
                        cur.1 == pos.1 + i * dy,
                        i < length,
                        (dx == 1 && dy == 0) || (dx == 0 && dy == 1),
                        pos.0 + length * dx <= self@.grid.width,
                        pos.1 + length * dy <= self@.grid.height,
                        pos.0 < self@.grid.width,
                        pos.1 < self@.grid.height,
                        0 <= pos.0,
                        0 <= pos.1,
                        0 <= i,
                        1 <= self@.grid.width,
                        1 <= self@.grid.height,
                        self@.grid.width * self@.grid.height <= usize::MAX,
                ;
            }
            self.add_square(square, cur);
            cur = offset_pos(cur, off);
            proof {
                assert(cur.0 == pos.0 + (i + 1) * dx && cur.1 == pos.1 + (i + 1) * dy)
                    by (nonlinear_arith)
                    requires
                        cur.0 == pos.0 + i * dx + dx,
                        cur.1 == pos.1 + i * dy + dy,
                ;
            }
            i = i + 1;
        }
    }

    /// Places the three word-blocks of a rule sentence along a line and
    /// declares the rule they spell. Rejects the sentence, changing
    /// nothing, unless its first word denotes an entity and its last word
    /// denotes a property.
    pub fn add_rule(&mut self, rule: [Text; 3], pos: Position, dir: Direction) -> (r: Result<
        (),
        LevelError,
    >)
        requires
            old(self).wf(),
            pos.0 + 3 * dir.offset_spec().0 <= old(self)@.grid.width,
            pos.1 + 3 * dir.offset_spec().1 <= old(self)@.grid.height,
            pos.0 < old(self)@.grid.width,
            pos.1 < old(self)@.grid.height,
        ensures
            final(self).wf(),
            final(self)@.grid.width == old(self)@.grid.width,
            final(self)@.grid.height == old(self)@.grid.height,
            match r {
                Ok(()) => {
                    let w = old(self)@.grid.width;
                    let x = pos.0 as int;
                    let y = pos.1 as int;
                    let dx = dir.offset_spec().0;
                    let dy = dir.offset_spec().1;
                    &&& rule[0] is Entity
                    &&& rule[2] is Property
                    &&& final(self)@.grid == spec_grid_add(
                        spec_grid_add(
                            spec_grid_add(
                                old(self)@.grid,
                                marker_index_spec(LayeredSquare::Text(rule[0])),
                                spec_offset(w, x, y),
                            ),
                            marker_index_spec(LayeredSquare::Text(rule[1])),
                            spec_offset(w, x + dx, y + dy),
                        ),
                        marker_index_spec(LayeredSquare::Text(rule[2])),
                        spec_offset(w, x + 2 * dx, y + 2 * dy),
                    )
                    &&& final(self)@.rules == spec_add_rule(
                        old(self)@.rules,
                        entity_index_spec(rule[0]->Entity_0),
                        property_index_spec(rule[2]->Property_0),
                    )
                },
                Err(e) => {
                    &&& e == LevelError::InvalidRuleSentence
                    &&& final(self)@ == old(self)@
                    &&& !(rule[0] is Entity && rule[2] is Property)
                },
            },
    {
        let word0 = rule[0];
        let word1 = rule[1];
        let word2 = rule[2];
        let entity_opt = match word0 {
            Text::Entity(e) => Some(e),
            _ => None,
        };
        let property_opt = match word2 {
            Text::Property(p) => Some(p),
            _ => None,
        };
        match (entity_opt, property_opt) {
            (Some(entity), Some(property)) => {
                let off = dir.offset();
                proof {
                    lemma_direction_cases(dir);
                    assert(self@.grid.width <= usize::MAX && self@.grid.height <= usize::MAX)
                        by (nonlinear_arith)
                        requires
                            1 <= self@.grid.width,
                            1 <= self@.grid.height,
                            self@.grid.width * self@.grid.height <= usize::MAX,
                    ;
                }
                let mut cur = pos;
                self.add_square(LayeredSquare::Text(word0), cur);
                cur = offset_pos(cur, off);
                self.add_square(LayeredSquare::Text(word1), cur);
                cur = offset_pos(cur, off);
                self.add_square(LayeredSquare::Text(word2), cur);
                self.rules.add_rule(entity, property);
                Ok(())
            },
            _ => Err(LevelError::InvalidRuleSentence),
        }
    }
}

/// Advances a 2D position by a 2D offset.
pub fn offset_pos(pos: Position, offset: Position) -> (r: Position)
    requires
        pos.0 + offset.0 <= usize::MAX,
        pos.1 + offset.1 <= usize::MAX,
    ensures
        r.0 == pos.0 + offset.0,
        r.1 == pos.1 + offset.1,
{
    (pos.0 + offset.0, pos.1 + offset.1)
}

} // verus!
