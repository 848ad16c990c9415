//! End-to-end tests of the puzzle engine through its public API.

use baba_core::grid::Grid;
use baba_core::interpreter::{update_game_state, EndState, Move};
use baba_core::level::{Direction, Level, LevelError};
use baba_core::levels_list::level_1;
use baba_core::rules::RuleManager;
use baba_core::square::{Entity, LayeredSquare, Property, Square, SquareIterator, Text};

/// Checks the reverse-index invariant on a level: an offset is tracked for
/// a marker exactly when the marker lies in that cell.
fn assert_tracking_consistent(level: &Level, width: usize, height: usize) {
    for k in 0..17usize {
        let marker = LayeredSquare::from_index(k).unwrap();
        let offsets = level.grid.tracked_offsets(marker);
        for o in 0..width * height {
            let in_cell = level.grid.cell(o).contains(marker);
            let in_tracking = offsets.contains(&o);
            assert_eq!(
                in_cell, in_tracking,
                "marker {:?} at offset {}: cell={} tracking={}",
                marker, o, in_cell, in_tracking
            );
        }
        // Tracked offsets are duplicate-free.
        for a in 0..offsets.len() {
            for b in a + 1..offsets.len() {
                assert_ne!(offsets[a], offsets[b]);
            }
        }
    }
}

#[test]
fn bijection_round_trip_from_index() {
    for i in 0..17usize {
        let marker = LayeredSquare::from_index(i).unwrap();
        assert_eq!(marker.index(), i);
    }
}

#[test]
fn bijection_round_trip_from_marker() {
    let markers = [
        LayeredSquare::Entity(Entity::BABA),
        LayeredSquare::Entity(Entity::FLAG),
        LayeredSquare::Entity(Entity::WALL),
        LayeredSquare::Entity(Entity::ROCK),
        LayeredSquare::Entity(Entity::EMPTY),
        LayeredSquare::Entity(Entity::TEXT),
        LayeredSquare::Text(Text::Entity(Entity::BABA)),
        LayeredSquare::Text(Text::Entity(Entity::TEXT)),
        LayeredSquare::Text(Text::Property(Property::YOU)),
        LayeredSquare::Text(Text::Property(Property::WIN)),
        LayeredSquare::Text(Text::Property(Property::STOP)),
        LayeredSquare::Text(Text::Property(Property::PUSH)),
        LayeredSquare::Text(Text::Is),
    ];
    for &m in markers.iter() {
        let i = m.index();
        assert!(i < 17);
        assert_eq!(LayeredSquare::from_index(i), Some(m));
    }
}

#[test]
fn bijection_rejects_out_of_range() {
    assert_eq!(LayeredSquare::from_index(17), None);
    assert_eq!(LayeredSquare::from_index(usize::MAX), None);
}

#[test]
fn bijection_is_collision_free() {
    for i in 0..17usize {
        for j in 0..17usize {
            if i != j {
                assert_ne!(
                    LayeredSquare::from_index(i).unwrap(),
                    LayeredSquare::from_index(j).unwrap()
                );
            }
        }
    }
}

#[test]
fn word_blocks_collapse_to_text_entity() {
    assert_eq!(
        LayeredSquare::Text(Text::Entity(Entity::BABA)).entity_of(),
        Entity::TEXT
    );
    assert_eq!(
        LayeredSquare::Text(Text::Property(Property::WIN)).entity_of(),
        Entity::TEXT
    );
    assert_eq!(LayeredSquare::Text(Text::Is).entity_of(), Entity::TEXT);
    assert_eq!(LayeredSquare::Entity(Entity::ROCK).entity_of(), Entity::ROCK);
}

#[test]
fn square_iteration_is_ascending() {
    let mut sq = Square::new();
    let is_word = LayeredSquare::Text(Text::Is);
    let baba = LayeredSquare::Entity(Entity::BABA);
    let rock = LayeredSquare::Entity(Entity::ROCK);
    sq.add_layer(is_word);
    sq.add_layer(rock);
    sq.add_layer(baba);
    let mut iter = SquareIterator::new(sq);
    assert_eq!(iter.next(), Some(baba));
    assert_eq!(iter.next(), Some(rock));
    assert_eq!(iter.next(), Some(is_word));
    assert_eq!(iter.next(), None);
}

#[test]
fn square_add_is_idempotent() {
    let mut a = Square::new();
    let mut b = Square::new();
    let rock = LayeredSquare::Entity(Entity::ROCK);
    a.add_layer(rock);
    b.add_layer(rock);
    b.add_layer(rock);
    assert_eq!(a, b);
}

#[test]
fn rule_declaration_is_idempotent() {
    let mut once = RuleManager::new();
    let mut twice = RuleManager::new();
    once.add_rule(Entity::BABA, Property::YOU);
    twice.add_rule(Entity::BABA, Property::YOU);
    twice.add_rule(Entity::BABA, Property::YOU);
    let entities = [
        Entity::BABA,
        Entity::FLAG,
        Entity::WALL,
        Entity::ROCK,
        Entity::EMPTY,
        Entity::TEXT,
    ];
    let properties = [Property::YOU, Property::WIN, Property::STOP, Property::PUSH];
    for &e in entities.iter() {
        for &p in properties.iter() {
            assert_eq!(once.has_rule(e, p), twice.has_rule(e, p));
        }
    }
}

#[test]
fn base_table_has_only_text_push() {
    let rules = RuleManager::new();
    let entities = [
        Entity::BABA,
        Entity::FLAG,
        Entity::WALL,
        Entity::ROCK,
        Entity::EMPTY,
        Entity::TEXT,
    ];
    let properties = [Property::YOU, Property::WIN, Property::STOP, Property::PUSH];
    for &e in entities.iter() {
        for &p in properties.iter() {
            let expected = e == Entity::TEXT && p == Property::PUSH;
            assert_eq!(rules.has_rule(e, p), expected);
        }
    }
}

#[test]
fn square_has_property_collapses_words() {
    let rules = RuleManager::new();
    let mut sq = Square::new();
    sq.add_layer(LayeredSquare::Text(Text::Is));
    // Word-blocks always have PUSH through the base TEXT rule.
    assert!(rules.square_has_property(sq, Property::PUSH));
    assert!(!rules.square_has_property(sq, Property::STOP));
    assert!(!rules.square_has_property(Square::new(), Property::PUSH));
}

#[test]
fn boundary_blocking_leaves_everything_in_place() {
    let mut level = Level::new(4, 1);
    level.rules.add_rule(Entity::BABA, Property::YOU);
    level.add_square(LayeredSquare::Entity(Entity::BABA), (3, 0));
    let outcome = level.apply_move(Move::Right);
    assert_eq!(outcome, None);
    let baba = LayeredSquare::Entity(Entity::BABA);
    assert!(level.grid.cell(3).contains(baba));
    assert!(!level.grid.cell(2).contains(baba));
    assert_eq!(level.grid.tracked_offsets(baba), vec![3]);
    assert_tracking_consistent(&level, 4, 1);
}

#[test]
fn push_chain_success_moves_block_and_mover() {
    let mut level = Level::new(4, 1);
    level.rules.add_rule(Entity::BABA, Property::YOU);
    level.rules.add_rule(Entity::ROCK, Property::PUSH);
    let baba = LayeredSquare::Entity(Entity::BABA);
    let rock = LayeredSquare::Entity(Entity::ROCK);
    level.add_square(baba, (0, 0));
    level.add_square(rock, (1, 0));

    let outcome = level.apply_move(Move::Right);
    assert_eq!(outcome, None);
    assert!(level.grid.cell(1).contains(baba));
    assert!(level.grid.cell(2).contains(rock));
    assert!(!level.grid.cell(0).contains(baba));
    assert!(!level.grid.cell(1).contains(rock));
    assert_tracking_consistent(&level, 4, 1);

    let outcome = level.apply_move(Move::Right);
    assert_eq!(outcome, None);
    assert!(level.grid.cell(2).contains(baba));
    assert!(level.grid.cell(3).contains(rock));
    assert_tracking_consistent(&level, 4, 1);
}

#[test]
fn push_chain_failure_leaves_row_unchanged() {
    let mut level = Level::new(4, 1);
    level.rules.add_rule(Entity::BABA, Property::YOU);
    level.rules.add_rule(Entity::ROCK, Property::PUSH);
    level.rules.add_rule(Entity::WALL, Property::STOP);
    let baba = LayeredSquare::Entity(Entity::BABA);
    let rock = LayeredSquare::Entity(Entity::ROCK);
    let wall = LayeredSquare::Entity(Entity::WALL);
    level.add_square(baba, (0, 0));
    level.add_square(rock, (1, 0));
    level.add_square(wall, (2, 0));

    let outcome = level.apply_move(Move::Right);
    assert_eq!(outcome, None);
    assert!(level.grid.cell(0).contains(baba));
    assert!(level.grid.cell(1).contains(rock));
    assert!(level.grid.cell(2).contains(wall));
    assert!(!level.grid.cell(1).contains(baba));
    assert!(!level.grid.cell(2).contains(rock));
    assert_tracking_consistent(&level, 4, 1);
}

#[test]
fn win_detection_on_goal_cell() {
    let mut level = Level::new(2, 1);
    level.rules.add_rule(Entity::BABA, Property::YOU);
    level.rules.add_rule(Entity::FLAG, Property::WIN);
    level.add_square(LayeredSquare::Entity(Entity::BABA), (0, 0));
    level.add_square(LayeredSquare::Entity(Entity::FLAG), (1, 0));
    let outcome = level.apply_move(Move::Right);
    assert_eq!(outcome, Some(EndState::Win));
}

#[test]
fn win_dominates_other_movers() {
    // Two movers of the same kind: one reaches the goal, the other is
    // blocked at the edge; the move still folds to a win.
    let mut level = Level::new(4, 1);
    level.rules.add_rule(Entity::BABA, Property::YOU);
    level.rules.add_rule(Entity::FLAG, Property::WIN);
    let baba = LayeredSquare::Entity(Entity::BABA);
    level.add_square(baba, (0, 0));
    level.add_square(LayeredSquare::Entity(Entity::FLAG), (1, 0));
    level.add_square(baba, (3, 0));
    let outcome = level.apply_move(Move::Right);
    assert_eq!(outcome, Some(EndState::Win));
    assert_tracking_consistent(&level, 4, 1);
}

#[test]
fn update_game_state_folds_outcomes() {
    let win = Some(EndState::Win);
    let defeat = Some(EndState::Defeat);
    assert_eq!(update_game_state(None, None), None);
    assert_eq!(update_game_state(win, None), win);
    assert_eq!(update_game_state(None, win), win);
    assert_eq!(update_game_state(win, defeat), win);
    assert_eq!(update_game_state(defeat, win), win);
    assert_eq!(update_game_state(defeat, None), defeat);
    assert_eq!(update_game_state(None, defeat), defeat);
    assert_eq!(update_game_state(defeat, defeat), defeat);
}

#[test]
fn straight_run_to_the_flag_wins() {
    // A 15×11 grid, a YOU-tagged mover at (3,5), a WIN-tagged flag at
    // (11,5) and a clear horizontal path: eight steps right win.
    let mut level = Level::new(15, 11);
    level.rules.add_rule(Entity::BABA, Property::YOU);
    level.rules.add_rule(Entity::FLAG, Property::WIN);
    level.add_square(LayeredSquare::Entity(Entity::BABA), (3, 5));
    level.add_square(LayeredSquare::Entity(Entity::FLAG), (11, 5));
    for step in 0..7 {
        let outcome = level.apply_move(Move::Right);
        assert_eq!(outcome, None, "unexpected end after step {}", step);
    }
    let outcome = level.apply_move(Move::Right);
    assert_eq!(outcome, Some(EndState::Win));
}

#[test]
fn straight_run_as_sequence_wins() {
    let mut level = Level::new(15, 11);
    level.rules.add_rule(Entity::BABA, Property::YOU);
    level.rules.add_rule(Entity::FLAG, Property::WIN);
    level.add_square(LayeredSquare::Entity(Entity::BABA), (3, 5));
    level.add_square(LayeredSquare::Entity(Entity::FLAG), (11, 5));
    let moves = vec![Move::Right; 8];
    let outcome = level.apply_move_sequence(moves);
    assert_eq!(outcome, Some(EndState::Win));
}

#[test]
fn rule_sentence_places_words_and_declares_rule() {
    let mut level = Level::new(5, 5);
    let r = level.add_rule(
        [
            Text::Entity(Entity::BABA),
            Text::Is,
            Text::Property(Property::YOU),
        ],
        (1, 2),
        Direction::HORIZONTAL,
    );
    assert_eq!(r, Ok(()));
    assert!(level.rules.has_rule(Entity::BABA, Property::YOU));
    let o = level.grid.index((1, 2));
    assert!(level
        .grid
        .cell(o)
        .contains(LayeredSquare::Text(Text::Entity(Entity::BABA))));
    let o = level.grid.index((2, 2));
    assert!(level.grid.cell(o).contains(LayeredSquare::Text(Text::Is)));
    let o = level.grid.index((3, 2));
    assert!(level
        .grid
        .cell(o)
        .contains(LayeredSquare::Text(Text::Property(Property::YOU))));
    assert_tracking_consistent(&level, 5, 5);
}

#[test]
fn invalid_rule_sentence_is_rejected_unchanged() {
    let mut level = Level::new(5, 5);
    let r = level.add_rule(
        [
            Text::Is,
            Text::Is,
            Text::Property(Property::YOU),
        ],
        (1, 2),
        Direction::HORIZONTAL,
    );
    assert_eq!(r, Err(LevelError::InvalidRuleSentence));
    assert!(!level.rules.has_rule(Entity::BABA, Property::YOU));
    for o in 0..25 {
        assert!(!level.grid.cell(o).contains(LayeredSquare::Text(Text::Is)));
    }
    // A property word in entity position is rejected too.
    let r = level.add_rule(
        [
            Text::Property(Property::STOP),
            Text::Is,
            Text::Entity(Entity::BABA),
        ],
        (0, 0),
        Direction::VERTICAL,
    );
    assert_eq!(r, Err(LevelError::InvalidRuleSentence));
}

#[test]
fn word_blocks_are_pushable() {
    // A word-block collapses to the TEXT entity, which always has PUSH.
    let mut level = Level::new(4, 1);
    level.rules.add_rule(Entity::BABA, Property::YOU);
    let baba = LayeredSquare::Entity(Entity::BABA);
    let word = LayeredSquare::Text(Text::Is);
    level.add_square(baba, (0, 0));
    level.add_square(word, (1, 0));
    let outcome = level.apply_move(Move::Right);
    assert_eq!(outcome, None);
    assert!(level.grid.cell(1).contains(baba));
    assert!(level.grid.cell(2).contains(word));
    assert_tracking_consistent(&level, 4, 1);
}

#[test]
fn moves_in_all_four_directions() {
    let mut level = Level::new(3, 3);
    level.rules.add_rule(Entity::BABA, Property::YOU);
    let baba = LayeredSquare::Entity(Entity::BABA);
    level.add_square(baba, (1, 1));
    assert_eq!(level.apply_move(Move::Up), None);
    assert!(level.grid.cell(level.grid.index((1, 0))).contains(baba));
    assert_eq!(level.apply_move(Move::Left), None);
    assert!(level.grid.cell(level.grid.index((0, 0))).contains(baba));
    assert_eq!(level.apply_move(Move::Down), None);
    assert!(level.grid.cell(level.grid.index((0, 1))).contains(baba));
    assert_eq!(level.apply_move(Move::Right), None);
    assert!(level.grid.cell(level.grid.index((1, 1))).contains(baba));
    assert_tracking_consistent(&level, 3, 3);
}

#[test]
fn grid_neighbours_respect_edges() {
    let g = Grid::new(3, 2);
    assert_eq!(g.left(0), None);
    assert_eq!(g.left(1), Some(0));
    assert_eq!(g.right(2), None);
    assert_eq!(g.right(1), Some(2));
    assert_eq!(g.up(0), None);
    assert_eq!(g.up(3), Some(0));
    assert_eq!(g.down(3), None);
    assert_eq!(g.down(0), Some(3));
    assert_eq!(g.apply_move(4, Move::Left), Some(3));
    assert_eq!(g.apply_move(4, Move::Up), Some(1));
}

#[test]
fn introductory_level_is_winnable() {
    let mut level = level_1();
    assert_tracking_consistent(&level, 15, 11);
    // Straight to the right: the rock column's middle rock is pushed
    // ahead of the mover until the mover reaches the flag.
    let outcome = level.apply_move_sequence(vec![Move::Right; 8]);
    assert_eq!(outcome, Some(EndState::Win));
    assert_tracking_consistent(&level, 15, 11);
}

#[test]
fn snapshot_is_independent() {
    let mut level = Level::new(3, 1);
    level.rules.add_rule(Entity::BABA, Property::YOU);
    let baba = LayeredSquare::Entity(Entity::BABA);
    level.add_square(baba, (0, 0));
    let snap = level.snapshot();
    let _ = level.apply_move(Move::Right);
    assert!(snap.grid.cell(0).contains(baba));
    assert!(!snap.grid.cell(1).contains(baba));
    assert!(level.grid.cell(1).contains(baba));
}

#[test]
fn linear_index_formula() {
    let g = Grid::new(15, 11);
    assert_eq!(g.index((0, 0)), 0);
    assert_eq!(g.index((3, 5)), 78);
    assert_eq!(g.index((11, 5)), 86);
    assert_eq!(g.index((14, 10)), 164);
}
