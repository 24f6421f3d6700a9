use vstd::prelude::*;

use crate::field::{Field, FieldCell, FieldCoordinate, in_bounds, neighbours_of};

verus! {

/// Names one ship of a player's fleet; never zero.
#[derive(Clone, Copy, Debug, PartialEq, Eq, Structural)]
pub struct ShipId(usize);

impl ShipId {
    #[verifier::type_invariant]
    spec fn inv(&self) -> bool {
        self.0 != 0
    }

    /// The number that names the ship.
    pub closed spec fn spec_id(&self) -> nat {
        self.0 as nat
    }

    /// The id numbered `id`, or `None` for zero, which names no ship.
    pub fn new(id: usize) -> (r: Option<ShipId>)
        ensures
            r is Some <==> id != 0,
            r matches Some(s) ==> s.spec_id() == id,
    {
        if id == 0 {
            None
        } else {
            Some(ShipId(id))
        }
    }

    pub fn get(&self) -> (r: usize)
        ensures
            r == self.spec_id(),
            r != 0,
    {
        proof {
            use_type_invariant(self);
        }
        self.0
    }
}

/// What one cell of a ship placement field holds.
#[derive(Clone, Copy, Debug, PartialEq, Eq, Structural)]
pub enum ShipState {
    NoShip,
    Ship(ShipId),
}

impl ShipState {
    /// The ship on the cell, if there is one.
    pub open spec fn ship(self) -> Option<ShipId> {
        match self {
            ShipState::NoShip => None,
            ShipState::Ship(id) => Some(id),
        }
    }
}

impl Default for ShipState {
    fn default() -> (r: Self)
        ensures
            r == ShipState::NoShip,
    {
        ShipState::NoShip
    }
}

/// The grid a player places ships on.
pub type SetupField = Field<ShipState>;

/// The ids of the ships on the cells at `coords`, in that order, one per occupied cell.
pub open spec fn ship_ids_at(field: SetupField, coords: Seq<(int, int)>) -> Seq<ShipId>
    decreases coords.len(),
{
    if coords.len() == 0 {
        Seq::empty()
    } else {
        let prev = ship_ids_at(field, coords.drop_last());
        let p = coords.last();
        match field.cell(p.0, p.1) {
            ShipState::Ship(id) => prev.push(id),
            ShipState::NoShip => prev,
        }
    }
}

/// The ids of the ships on the neighbouring cells of `(row, col)`, in the enumeration
/// order of the directions.
pub open spec fn neighbouring_ship_ids(field: SetupField, row: int, col: int) -> Seq<ShipId> {
    ship_ids_at(field, neighbours_of(field.spec_size(), row, col))
}

/// The occupied cells of a ship placement field, each with the ship on it, listed row by
/// row; built once after placement so that the cells of one ship are found without
/// walking the whole grid.
pub struct ShipIndex {
    cells: Vec<(ShipId, FieldCoordinate)>,
}

impl View for ShipIndex {
    type V = Seq<(ShipId, FieldCoordinate)>;

    closed spec fn view(&self) -> Seq<(ShipId, FieldCoordinate)> {
        self.cells@
    }
}

impl ShipIndex {
    /// Each listed cell holds the ship it is listed with, and every occupied cell is listed.
    pub open spec fn describes(&self, field: SetupField) -> bool {
        &&& forall|k: int|
            0 <= k < self@.len() ==> in_bounds(
                field.spec_size(),
                (#[trigger] self@[k]).1.row as int,
                self@[k].1.col as int,
            ) && field.cell(self@[k].1.row as int, self@[k].1.col as int) == ShipState::Ship(
                self@[k].0,
            )
        &&& forall|row: int, col: int|
            in_bounds(field.spec_size(), row, col) && (#[trigger] field.cell(row, col)) is Ship
                ==> exists|k: int|
                0 <= k < self@.len() && (#[trigger] self@[k]).1.row == row && self@[k].1.col
                    == col
    }

    /// Lists the occupied cells of `field`.
    pub fn new(field: &SetupField) -> (r: ShipIndex)
        requires
            field.wf(),
        ensures
            r.describes(*field),
    {
        let size = field.size();
        let mut cells: Vec<(ShipId, FieldCoordinate)> = Vec::new();
        let mut row: usize = 0;
        while row < size
            invariant
                row <= size,
                size == field.spec_size(),
                field.wf(),
                forall|k: int|
                    0 <= k < cells@.len() ==> in_bounds(
                        field.spec_size(),
                        (#[trigger] cells@[k]).1.row as int,
                        cells@[k].1.col as int,
                    ) && field.cell(cells@[k].1.row as int, cells@[k].1.col as int)
                        == ShipState::Ship(cells@[k].0),
                forall|r: int, c: int|
                    0 <= r < row && 0 <= c < size && (#[trigger] field.cell(r, c)) is Ship
                        ==> exists|k: int|
                        0 <= k < cells@.len() && (#[trigger] cells@[k]).1.row == r
                            && cells@[k].1.col == c,
            decreases size - row,
        {
            let mut col: usize = 0;
            while col < size
                invariant
                    row < size,
                    col <= size,
                    size == field.spec_size(),
                    field.wf(),
                    forall|k: int|
                        0 <= k < cells@.len() ==> in_bounds(
                            field.spec_size(),
                            (#[trigger] cells@[k]).1.row as int,
                            cells@[k].1.col as int,
                        ) && field.cell(cells@[k].1.row as int, cells@[k].1.col as int)
                            == ShipState::Ship(cells@[k].0),
                    forall|r: int, c: int|
                        (0 <= r < row && 0 <= c < size || r == row && 0 <= c < col) && (
                        #[trigger] field.cell(r, c)) is Ship ==> exists|k: int|
                            0 <= k < cells@.len() && (#[trigger] cells@[k]).1.row == r
                                && cells@[k].1.col == c,
                decreases size - col,
            {
                let coord = FieldCoordinate::new(row, col);
                let ghost before = cells@;
                match field.get(coord) {
                    Ok(cell) => match cell.value() {
                        ShipState::Ship(id) => {
                            cells.push((*id, coord));
                            assert(cells@[before.len() as int] == (*id, coord));
                        },
                        ShipState::NoShip => {},
                    },
                    Err(_) => {},
                }
                assert forall|r: int, c: int|
                    (0 <= r < row && 0 <= c < size || r == row && 0 <= c < col + 1) && (
                    #[trigger] field.cell(r, c)) is Ship implies exists|k: int|
                        0 <= k < cells@.len() && (#[trigger] cells@[k]).1.row == r
                            && cells@[k].1.col == c by {
                    if r == row && c == col {
                        assert(cells@[before.len() as int].1 == coord);
                    } else {
                        let k = choose|k: int|
                            0 <= k < before.len() && (#[trigger] before[k]).1.row == r
                                && before[k].1.col == c;
                        assert(cells@[k] == before[k]);
                    }
                }
                col += 1;
            }
            row += 1;
        }
        ShipIndex { cells }
    }

    /// The number of listed cells.
    pub fn len(&self) -> (r: usize)
        ensures
            r == self@.len(),
    {
        self.cells.len()
    }

    /// The listed cell at place `k`, with the ship on it.
    pub fn entry(&self, k: usize) -> (r: (ShipId, FieldCoordinate))
        requires
            k < self@.len(),
        ensures
            r == self@[k as int],
    {
        self.cells[k]
    }
}

impl<'a> FieldCell<'a, ShipState> {
    /// The ship on the viewed cell, if there is one.
    pub fn has_ship(&self) -> (r: Option<ShipId>)
        ensures
            r == self.spec_value().ship(),
    {
        match self.value() {
            ShipState::NoShip => None,
            ShipState::Ship(id) => Some(*id),
        }
    }

    /// The ids of the ships on the neighbouring cells; a ship that covers several of them
    /// appears once per cell.
    pub fn neighbouring_ships(&self) -> (r: Vec<ShipId>)
        ensures
            r@ == neighbouring_ship_ids(
                self.grid(),
                self.position().row as int,
                self.position().col as int,
            ),
    {
        let cells = self.neighbours();
        let ghost nb = neighbours_of(
            self.grid().spec_size(),
            self.position().row as int,
            self.position().col as int,
        );
        let mut ids: Vec<ShipId> = Vec::new();
        let mut i: usize = 0;
        while i < cells.len()
            invariant
                i <= cells@.len(),
                cells@.len() == nb.len(),
                forall|j: int|
                    0 <= j < cells@.len() ==> (#[trigger] cells@[j]).grid() == self.grid()
                        && cells@[j].position().row == nb[j].0 && cells@[j].position().col
                        == nb[j].1,
                ids@ == ship_ids_at(self.grid(), nb.take(i as int)),
            decreases cells@.len() - i,
        {
            assert(nb.take(i + 1).drop_last() =~= nb.take(i as int));
            let found = cells[i].has_ship();
            match found {
                Some(id) => {
                    ids.push(id);
                },
                None => {},
            }
            i += 1;
        }
        assert(nb.take(i as int) =~= nb);
        ids
    }
}

} // verus!
