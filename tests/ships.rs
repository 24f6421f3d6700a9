use sea_battle::field::{Field, FieldCoordinate};
use sea_battle::setup_state::{SetupField, ShipId, ShipIndex, ShipState};

fn ship(id: usize) -> ShipId {
    ShipId::new(id).unwrap()
}

fn field_with(size: usize, cells: &[(usize, usize, usize)]) -> SetupField {
    Field::from_indexes(size, |row: usize, col: usize| {
        match cells.iter().find(|(r, c, _)| *r == row && *c == col) {
            Some((_, _, id)) => ShipState::Ship(ship(*id)),
            None => ShipState::NoShip,
        }
    })
}

#[test]
fn ship_id_zero_names_no_ship() {
    assert_eq!(ShipId::new(0), None);
    assert_eq!(ship(3).get(), 3);
    assert_ne!(ship(3), ship(4));
}

#[test]
fn has_ship_reads_the_cell() {
    let field = field_with(3, &[(0, 1, 5)]);
    assert_eq!(field.get(FieldCoordinate::new(0, 1)).unwrap().has_ship(), Some(ship(5)));
    assert_eq!(field.get(FieldCoordinate::new(1, 1)).unwrap().has_ship(), None);
}

#[test]
fn neighbouring_ships_finds_a_ship_from_every_adjacent_cell() {
    let field = field_with(3, &[(1, 1, 1)]);
    for row in 0..3 {
        for col in 0..3 {
            let found = field.get(FieldCoordinate::new(row, col)).unwrap().neighbouring_ships();
            if (row, col) == (1, 1) {
                assert!(found.is_empty());
            } else {
                assert_eq!(found, vec![ship(1)]);
            }
        }
    }
}

#[test]
fn neighbouring_ships_misses_cells_farther_away() {
    let field = field_with(5, &[(1, 1, 1)]);
    for row in 0..5 {
        for col in 0..5 {
            let found = field.get(FieldCoordinate::new(row, col)).unwrap().neighbouring_ships();
            let adjacent = row <= 2 && col <= 2 && (row, col) != (1, 1);
            assert_eq!(found.len(), if adjacent { 1 } else { 0 });
        }
    }
}

#[test]
fn neighbouring_ships_repeats_a_ship_once_per_cell() {
    let field = field_with(4, &[(0, 0, 2), (0, 1, 2), (2, 2, 7)]);
    let found = field.get(FieldCoordinate::new(1, 1)).unwrap().neighbouring_ships();
    assert_eq!(found, vec![ship(2), ship(2), ship(7)]);
}

#[test]
fn ship_state_default_is_no_ship() {
    assert_eq!(ShipState::default(), ShipState::NoShip);
}

#[test]
fn ship_index_lists_occupied_cells_row_by_row() {
    let field = field_with(4, &[(3, 0, 2), (0, 2, 1), (0, 3, 1), (2, 1, 5)]);
    let index = ShipIndex::new(&field);
    let listed: Vec<(usize, usize, usize)> = (0..index.len())
        .map(|k| {
            let (id, at) = index.entry(k);
            (at.row, at.col, id.get())
        })
        .collect();
    assert_eq!(listed, vec![(0, 2, 1), (0, 3, 1), (2, 1, 5), (3, 0, 2)]);
}

#[test]
fn ship_index_of_an_empty_field_is_empty() {
    let field: SetupField = Field::default_field(3);
    assert_eq!(ShipIndex::new(&field).len(), 0);
}
