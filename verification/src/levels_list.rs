//! Ready-made levels built through the authoring operations.

use vstd::prelude::*;

use crate::level::Direction;
use crate::level::Level;
use crate::square::Entity;
use crate::square::LayeredSquare;
use crate::square::Property;
use crate::square::Text;

verus! {

/// The introductory level: two wall rows, a rock column, one controllable
/// mover and one goal, with the four rules that make them so.
pub fn level_1() -> (r: Level)
    ensures
        r.wf(),
        r@.grid.width == 15,
        r@.grid.height == 11,
{
    let mut level = Level::new(15, 11);

    // Walls
    level.add_square_line(
        LayeredSquare::Entity(Entity::WALL),
        (2, 3),
        11,
        Direction::HORIZONTAL,
    );
    level.add_square_line(
        LayeredSquare::Entity(Entity::WALL),
        (2, 7),
        11,
        Direction::HORIZONTAL,
    );
    // Rocks
    level.add_square_line(LayeredSquare::Entity(Entity::ROCK), (7, 4), 3, Direction::VERTICAL);
    // Baba and flag
    level.add_square(LayeredSquare::Entity(Entity::BABA), (3, 5));
    level.add_square(LayeredSquare::Entity(Entity::FLAG), (11, 5));
    // Rules
    let r1 = level.add_rule(
        [Text::Entity(Entity::BABA), Text::Is, Text::Property(Property::YOU)],
        (2, 1),
        Direction::HORIZONTAL,
    );
    let r2 = level.add_rule(
        [Text::Entity(Entity::FLAG), Text::Is, Text::Property(Property::WIN)],
        (10, 1),
        Direction::HORIZONTAL,
    );
    let r3 = level.add_rule(
        [Text::Entity(Entity::WALL), Text::Is, Text::Property(Property::STOP)],
        (2, 9),
        Direction::HORIZONTAL,
    );
    let r4 = level.add_rule(
        [Text::Entity(Entity::ROCK), Text::Is, Text::Property(Property::PUSH)],
        (10, 9),
        Direction::HORIZONTAL,
    );
    proof {
        assert(r1 is Ok && r2 is Ok && r3 is Ok && r4 is Ok);
    }

    level
}

} // verus!
