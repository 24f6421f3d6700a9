use sea_battle::field::{Field, FieldCoordinate, FieldError};
use sea_battle::playing_state::{
    check_hit, check_hit_indexed, PlayingField, PlayingMessage, VisibilityState,
};
use sea_battle::setup_state::{SetupField, ShipId, ShipIndex, ShipState};

fn at(row: usize, col: usize) -> FieldCoordinate {
    FieldCoordinate::new(row, col)
}

fn ships(size: usize, cells: &[(usize, usize, usize)]) -> SetupField {
    Field::from_indexes(size, |row: usize, col: usize| {
        match cells.iter().find(|(r, c, _)| *r == row && *c == col) {
            Some((_, _, id)) => ShipState::Ship(ShipId::new(*id).unwrap()),
            None => ShipState::NoShip,
        }
    })
}

fn seen(field: &PlayingField, row: usize, col: usize) -> VisibilityState {
    *field.get(at(row, col)).unwrap().value()
}

#[test]
fn water_hit_marks_a_miss() {
    let opponent = ships(3, &[]);
    let mut visibility: PlayingField = Field::default_field(3);
    assert_eq!(check_hit(&mut visibility, &opponent, at(1, 1)), Ok(PlayingMessage::WaterHit));
    assert_eq!(seen(&visibility, 1, 1), VisibilityState::MissShown);
    assert_eq!(seen(&visibility, 0, 0), VisibilityState::Unknown);
}

#[test]
fn single_cell_ship_sinks_at_once() {
    let opponent = ships(5, &[(2, 2, 1)]);
    let mut visibility: PlayingField = Field::default_field(5);
    assert_eq!(check_hit(&mut visibility, &opponent, at(2, 2)), Ok(PlayingMessage::ShipSunk));
    assert_eq!(seen(&visibility, 2, 2), VisibilityState::HitShown);
}

#[test]
fn two_cell_ship_is_hit_then_sunk() {
    let opponent = ships(3, &[(0, 0, 1), (0, 1, 1)]);
    let mut visibility: PlayingField = Field::default_field(3);
    assert_eq!(check_hit(&mut visibility, &opponent, at(0, 0)), Ok(PlayingMessage::ShipHit));
    assert_eq!(seen(&visibility, 0, 0), VisibilityState::HitShown);
    assert_eq!(check_hit(&mut visibility, &opponent, at(0, 1)), Ok(PlayingMessage::ShipSunk));
    assert_eq!(seen(&visibility, 0, 1), VisibilityState::HitShown);
}

#[test]
fn another_ship_does_not_count_towards_sinking() {
    let opponent = ships(4, &[(0, 0, 1), (0, 1, 1), (3, 3, 2)]);
    let mut visibility: PlayingField = Field::default_field(4);
    assert_eq!(check_hit(&mut visibility, &opponent, at(3, 3)), Ok(PlayingMessage::ShipSunk));
    assert_eq!(check_hit(&mut visibility, &opponent, at(0, 1)), Ok(PlayingMessage::ShipHit));
    assert_eq!(check_hit(&mut visibility, &opponent, at(2, 2)), Ok(PlayingMessage::WaterHit));
    assert_eq!(check_hit(&mut visibility, &opponent, at(0, 0)), Ok(PlayingMessage::ShipSunk));
}

#[test]
fn second_shot_at_a_cell_is_ineffective() {
    let opponent = ships(3, &[(0, 0, 1), (0, 1, 1)]);
    for target in [at(0, 0), at(2, 2)] {
        let mut visibility: PlayingField = Field::default_field(3);
        let first = check_hit(&mut visibility, &opponent, target).unwrap();
        assert!(first.turn_ends());
        let after_first = Field::from_indexes(3, |row: usize, col: usize| seen(&visibility, row, col));
        let second = check_hit(&mut visibility, &opponent, target);
        assert_eq!(second, Ok(PlayingMessage::IneffectiveHit));
        assert_eq!(visibility, after_first);
    }
}

#[test]
fn shot_at_an_auto_shown_cell_is_ineffective() {
    let opponent = ships(3, &[(1, 1, 1)]);
    let mut visibility: PlayingField = Field::from_indexes(3, |row: usize, col: usize| {
        if (row, col) == (1, 1) {
            VisibilityState::AutoShown
        } else {
            VisibilityState::Unknown
        }
    });
    assert_eq!(
        check_hit(&mut visibility, &opponent, at(1, 1)),
        Ok(PlayingMessage::IneffectiveHit)
    );
    assert_eq!(seen(&visibility, 1, 1), VisibilityState::AutoShown);
}

#[test]
fn shot_off_the_grid_is_refused_and_changes_nothing() {
    let opponent = ships(3, &[(0, 0, 1)]);
    let mut visibility: PlayingField = Field::default_field(3);
    assert_eq!(
        check_hit(&mut visibility, &opponent, at(3, 0)),
        Err(FieldError::CellOutOfBound { size: 3, row: 3, col: 0 })
    );
    assert_eq!(visibility, Field::default_field(3));
}

#[test]
fn shot_off_a_smaller_opponent_grid_is_refused() {
    let opponent = ships(2, &[]);
    let mut visibility: PlayingField = Field::default_field(3);
    assert_eq!(
        check_hit(&mut visibility, &opponent, at(2, 1)),
        Err(FieldError::CellOutOfBound { size: 2, row: 2, col: 1 })
    );
    assert_eq!(visibility, Field::default_field(3));
}

#[test]
fn only_an_ineffective_hit_keeps_the_turn() {
    assert!(PlayingMessage::WaterHit.turn_ends());
    assert!(PlayingMessage::ShipHit.turn_ends());
    assert!(PlayingMessage::ShipSunk.turn_ends());
    assert!(!PlayingMessage::IneffectiveHit.turn_ends());
}

#[test]
fn visibility_state_default_is_unknown() {
    assert_eq!(VisibilityState::default(), VisibilityState::Unknown);
}

#[test]
fn indexed_shots_match_plain_shots() {
    let opponent = ships(5, &[(0, 0, 1), (0, 1, 1), (0, 2, 1), (2, 2, 2), (4, 0, 3), (4, 1, 3)]);
    let index = ShipIndex::new(&opponent);
    let mut plain: PlayingField = Field::default_field(5);
    let mut indexed: PlayingField = Field::default_field(5);
    let shots = [(0, 1), (2, 2), (0, 0), (3, 3), (0, 2), (0, 2), (4, 1), (4, 0), (5, 0)];
    let expected = [
        Ok(PlayingMessage::ShipHit),
        Ok(PlayingMessage::ShipSunk),
        Ok(PlayingMessage::ShipHit),
        Ok(PlayingMessage::WaterHit),
        Ok(PlayingMessage::ShipSunk),
        Ok(PlayingMessage::IneffectiveHit),
        Ok(PlayingMessage::ShipHit),
        Ok(PlayingMessage::ShipSunk),
        Err(FieldError::CellOutOfBound { size: 5, row: 5, col: 0 }),
    ];
    for ((row, col), want) in shots.iter().zip(expected.iter()) {
        assert_eq!(check_hit(&mut plain, &opponent, at(*row, *col)), *want);
        assert_eq!(check_hit_indexed(&mut indexed, &opponent, &index, at(*row, *col)), *want);
        assert_eq!(plain, indexed);
    }
}

#[test]
fn indexed_single_cell_ship_sinks_at_once() {
    let opponent = ships(5, &[(2, 2, 1)]);
    let index = ShipIndex::new(&opponent);
    let mut visibility: PlayingField = Field::default_field(5);
    assert_eq!(
        check_hit_indexed(&mut visibility, &opponent, &index, at(2, 2)),
        Ok(PlayingMessage::ShipSunk)
    );
    assert_eq!(seen(&visibility, 2, 2), VisibilityState::HitShown);
}
