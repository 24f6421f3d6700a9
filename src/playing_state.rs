use vstd::prelude::*;

use crate::field::{
    Field, FieldCoordinate, FieldError, in_bounds, flat_index, lemma_flat_index_in_range,
};
use crate::setup_state::{SetupField, ShipId, ShipIndex, ShipState};

verus! {

/// What the firing player knows about one cell of the opponent's board.
#[derive(Clone, Copy, Debug, PartialEq, Eq, Structural)]
pub enum VisibilityState {
    Unknown,
    AutoShown,
    MissShown,
    HitShown,
}

impl Default for VisibilityState {
    fn default() -> (r: Self)
        ensures
            r == VisibilityState::Unknown,
    {
        VisibilityState::Unknown
    }
}

/// The outcome of one shot.
#[derive(Clone, Copy, Debug, PartialEq, Eq, Structural)]
pub enum PlayingMessage {
    WaterHit,
    ShipHit,
    ShipSunk,
    IneffectiveHit,
}

impl PlayingMessage {
    pub open spec fn spec_turn_ends(self) -> bool {
        !(self is IneffectiveHit)
    }

    /// Whether the turn passes to the opponent after this outcome.
    pub fn turn_ends(&self) -> (r: bool)
        ensures
            r == self.spec_turn_ends(),
    {
        match self {
            PlayingMessage::IneffectiveHit => false,
            _ => true,
        }
    }
}

/// The grid of what one player knows about the opponent's board.
pub type PlayingField = Field<VisibilityState>;

/// Whether the cell `(row, col)` of the opponent's board stands in the way of sinking ship
/// `id` with a shot at `attempt`: it holds part of that ship, is not the cell shot at, and
/// is not yet known to be hit.
pub open spec fn keeps_afloat(
    visibility: PlayingField,
    opponent: SetupField,
    attempt: FieldCoordinate,
    id: ShipId,
    row: int,
    col: int,
) -> bool {
    &&& opponent.cell(row, col) == ShipState::Ship(id)
    &&& !(row == attempt.row && col == attempt.col)
    &&& !(in_bounds(visibility.spec_size(), row, col) && visibility.cell(row, col)
        == VisibilityState::HitShown)
}

/// Whether a hit at `attempt` leaves every cell of ship `id` hit.
pub open spec fn sinks(
    visibility: PlayingField,
    opponent: SetupField,
    attempt: FieldCoordinate,
    id: ShipId,
) -> bool {
    forall|row: int, col: int|
        in_bounds(opponent.spec_size(), row, col) ==> !#[trigger] keeps_afloat(
            visibility,
            opponent,
            attempt,
            id,
            row,
            col,
        )
}

/// The outcome of a shot at `attempt`, or the refusal of the coordinate.
pub open spec fn hit_result(
    visibility: PlayingField,
    opponent: SetupField,
    attempt: FieldCoordinate,
) -> Result<PlayingMessage, FieldError> {
    let (row, col) = (attempt.row as int, attempt.col as int);
    if !in_bounds(visibility.spec_size(), row, col) {
        Err(visibility.out_of_bound(attempt))
    } else if visibility.cell(row, col) != VisibilityState::Unknown {
        Ok(PlayingMessage::IneffectiveHit)
    } else if !in_bounds(opponent.spec_size(), row, col) {
        Err(opponent.out_of_bound(attempt))
    } else {
        match opponent.cell(row, col) {
            ShipState::NoShip => Ok(PlayingMessage::WaterHit),
            ShipState::Ship(id) => if sinks(visibility, opponent, attempt, id) {
                Ok(PlayingMessage::ShipSunk)
            } else {
                Ok(PlayingMessage::ShipHit)
            },
        }
    }
}

/// The firing player's cells after a shot at `attempt`: a miss or a hit is marked on the
/// cell shot at; an ineffective or refused shot changes nothing.
pub open spec fn visibility_after(
    visibility: PlayingField,
    opponent: SetupField,
    attempt: FieldCoordinate,
) -> Seq<VisibilityState> {
    let i = flat_index(visibility.spec_size(), attempt.row as int, attempt.col as int);
    match hit_result(visibility, opponent, attempt) {
        Ok(PlayingMessage::WaterHit) => visibility@.update(i, VisibilityState::MissShown),
        Ok(PlayingMessage::ShipHit) => visibility@.update(i, VisibilityState::HitShown),
        Ok(PlayingMessage::ShipSunk) => visibility@.update(i, VisibilityState::HitShown),
        _ => visibility@,
    }
}

/// Firing twice at the same coordinate: once a shot has been resolved, a second shot at the
/// same coordinate is ineffective and leaves the firing player's field as the first left it.
pub proof fn lemma_second_shot_ineffective(
    before: PlayingField,
    after: PlayingField,
    opponent: SetupField,
    attempt: FieldCoordinate,
)
    requires
        before.wf(),
        opponent.wf(),
        after.spec_size() == before.spec_size(),
        after@ == visibility_after(before, opponent, attempt),
        hit_result(before, opponent, attempt) is Ok,
    ensures
        hit_result(after, opponent, attempt) == Ok::<PlayingMessage, FieldError>(
            PlayingMessage::IneffectiveHit,
        ),
        visibility_after(after, opponent, attempt) == after@,
{
    let (row, col) = (attempt.row as int, attempt.col as int);
    lemma_flat_index_in_range(before.spec_size(), row, col);
}

/// Decides whether a hit at `attempt` sinks ship `id`, looking at every cell of the
/// opponent's board.
fn check_sunk(
    visibility: &PlayingField,
    opponent: &SetupField,
    attempt: FieldCoordinate,
    id: ShipId,
) -> (r: bool)
    requires
        visibility.wf(),
        opponent.wf(),
    ensures
        r == sinks(*visibility, *opponent, attempt, id),
{
    let size = opponent.size();
    let mut sunk = true;
    let mut row: usize = 0;
    while row < size
        invariant
            row <= size,
            size == opponent.spec_size(),
            visibility.wf(),
            opponent.wf(),
            sunk <==> forall|r: int, c: int|
                0 <= r < row && 0 <= c < size ==> !#[trigger] keeps_afloat(
                    *visibility,
                    *opponent,
                    attempt,
                    id,
                    r,
                    c,
                ),
        decreases size - row,
    {
        let mut col: usize = 0;
        while col < size
            invariant
                row < size,
                col <= size,
                size == opponent.spec_size(),
                visibility.wf(),
                opponent.wf(),
                sunk <==> forall|r: int, c: int|
                    (0 <= r < row && 0 <= c < size || r == row && 0 <= c < col)
                        ==> !#[trigger] keeps_afloat(*visibility, *opponent, attempt, id, r, c),
            decreases size - col,
        {
            let coord = FieldCoordinate::new(row, col);
            let afloat = match opponent.get(coord) {
                Ok(cell) => match cell.value() {
                    ShipState::Ship(other) => {
                        if *other == id && !(row == attempt.row && col == attempt.col) {
                            match visibility.get(coord) {
                                Ok(seen) => *seen.value() != VisibilityState::HitShown,
                                Err(_) => true,
                            }
                        } else {
                            false
                        }
                    },
                    ShipState::NoShip => false,
                },
                Err(_) => false,
            };
            assert(afloat == keeps_afloat(
                *visibility,
                *opponent,
                attempt,
                id,
                row as int,
                col as int,
            ));
            sunk = sunk && !afloat;
            col += 1;
        }
        row += 1;
    }
    sunk
}

/// Decides whether a hit at `attempt` sinks ship `id`, looking only at the occupied cells
/// that `index` lists.
fn check_sunk_indexed(
    visibility: &PlayingField,
    opponent: &SetupField,
    index: &ShipIndex,
    attempt: FieldCoordinate,
    id: ShipId,
) -> (r: bool)
    requires
        visibility.wf(),
        opponent.wf(),
        index.describes(*opponent),
    ensures
        r == sinks(*visibility, *opponent, attempt, id),
{
    let n = index.len();
    let mut sunk = true;
    let mut k: usize = 0;
    while k < n
        invariant
            k <= n,
            n == index@.len(),
            visibility.wf(),
            opponent.wf(),
            index.describes(*opponent),
            sunk <==> forall|j: int|
                0 <= j < k ==> !keeps_afloat(
                    *visibility,
                    *opponent,
                    attempt,
                    id,
                    (#[trigger] index@[j]).1.row as int,
                    index@[j].1.col as int,
                ),
        decreases n - k,
    {
        let (other, coord) = index.entry(k);
        let afloat = if other == id && !(coord.row == attempt.row && coord.col == attempt.col) {
            match visibility.get(coord) {
                Ok(seen) => *seen.value() != VisibilityState::HitShown,
                Err(_) => true,
            }
        } else {
            false
        };
        assert(afloat == keeps_afloat(
            *visibility,
            *opponent,
            attempt,
            id,
            coord.row as int,
            coord.col as int,
        ));
        sunk = sunk && !afloat;
        k += 1;
    }
    assert(sunk == sinks(*visibility, *opponent, attempt, id)) by {
        if sunk {
            assert forall|row: int, col: int|
                in_bounds(opponent.spec_size(), row, col) implies !#[trigger] keeps_afloat(
                *visibility,
                *opponent,
                attempt,
                id,
                row,
                col,
            ) by {
                if keeps_afloat(*visibility, *opponent, attempt, id, row, col) {
                    assert(opponent.cell(row, col) is Ship);
                    let j = choose|j: int|
                        0 <= j < index@.len() && (#[trigger] index@[j]).1.row == row
                            && index@[j].1.col == col;
                    assert(!keeps_afloat(
                        *visibility,
                        *opponent,
                        attempt,
                        id,
                        index@[j].1.row as int,
                        index@[j].1.col as int,
                    ));
                }
            }
        } else {
            let j = choose|j: int|
                0 <= j < n && keeps_afloat(
                    *visibility,
                    *opponent,
                    attempt,
                    id,
                    (#[trigger] index@[j]).1.row as int,
                    index@[j].1.col as int,
                );
            assert(in_bounds(
                opponent.spec_size(),
                index@[j].1.row as int,
                index@[j].1.col as int,
            ));
        }
    }
    sunk
}

/// Resolves a shot, deciding a sinking through `index` where one is given and by walking the
/// opponent's grid otherwise.
fn resolve_shot(
    visibility_field: &mut PlayingField,
    opponent_field: &SetupField,
    index: Option<&ShipIndex>,
    attempt: FieldCoordinate,
) -> (r: Result<PlayingMessage, FieldError>)
    requires
        old(visibility_field).wf(),
        opponent_field.wf(),
        index matches Some(i) ==> i.describes(*opponent_field),
    ensures
        r == hit_result(*old(visibility_field), *opponent_field, attempt),
        final(visibility_field).wf(),
        final(visibility_field).spec_size() == old(visibility_field).spec_size(),
        final(visibility_field)@ == visibility_after(
            *old(visibility_field),
            *opponent_field,
            attempt,
        ),
{
    let known = match visibility_field.get(attempt) {
        Ok(cell) => *cell.value(),
        Err(e) => {
            return Err(e);
        },
    };
    if known != VisibilityState::Unknown {
        return Ok(PlayingMessage::IneffectiveHit);
    }
    let target = match opponent_field.get(attempt) {
        Ok(cell) => *cell.value(),
        Err(e) => {
            return Err(e);
        },
    };
    match target {
        ShipState::NoShip => {
            if let Ok(mut cell) = visibility_field.get_mut(attempt) {
                cell.set(VisibilityState::MissShown);
            }
            Ok(PlayingMessage::WaterHit)
        },
        ShipState::Ship(id) => {
            let sunk = match index {
                Some(index) => check_sunk_indexed(
                    visibility_field,
                    opponent_field,
                    index,
                    attempt,
                    id,
                ),
                None => check_sunk(visibility_field, opponent_field, attempt, id),
            };
            if let Ok(mut cell) = visibility_field.get_mut(attempt) {
                cell.set(VisibilityState::HitShown);
            }
            if sunk {
                Ok(PlayingMessage::ShipSunk)
            } else {
                Ok(PlayingMessage::ShipHit)
            }
        },
    }
}

/// Resolves a shot at `attempt` against the opponent's ships, marking the outcome on the
/// firing player's field.
pub fn check_hit(
    visibility_field: &mut PlayingField,
    opponent_field: &SetupField,
    attempt: FieldCoordinate,
) -> (r: Result<PlayingMessage, FieldError>)
    requires
        old(visibility_field).wf(),
        opponent_field.wf(),
    ensures
        r == hit_result(*old(visibility_field), *opponent_field, attempt),
        final(visibility_field).wf(),
        final(visibility_field).spec_size() == old(visibility_field).spec_size(),
        final(visibility_field)@ == visibility_after(
            *old(visibility_field),
            *opponent_field,
            attempt,
        ),
{
    resolve_shot(visibility_field, opponent_field, None, attempt)
}

/// Resolves a shot as `check_hit` does, finding the cells of the ship hit through `index`,
/// the list of occupied cells built for the opponent's field after placement.
pub fn check_hit_indexed(
    visibility_field: &mut PlayingField,
    opponent_field: &SetupField,
    index: &ShipIndex,
    attempt: FieldCoordinate,
) -> (r: Result<PlayingMessage, FieldError>)
    requires
        old(visibility_field).wf(),
        opponent_field.wf(),
        index.describes(*opponent_field),
    ensures
        r == hit_result(*old(visibility_field), *opponent_field, attempt),
        final(visibility_field).wf(),
        final(visibility_field).spec_size() == old(visibility_field).spec_size(),
        final(visibility_field)@ == visibility_after(
            *old(visibility_field),
            *opponent_field,
            attempt,
        ),
{
    resolve_shot(visibility_field, opponent_field, Some(index), attempt)
}

} // verus!
