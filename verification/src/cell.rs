//! One grid position: its material, its temperature and what follows from them.

use vstd::prelude::*;
use crate::materials::{MatIndex, NONE};

verus! {

/// Temperature of a fresh cell, in degrees Celsius.
pub const AMBIENT: i16 = 20;

/// Aggregate state of the material in a cell.
#[derive(Clone, Copy, Debug, PartialEq, Eq, Structural)]
pub enum AggregateState {
    Solid,
    Liquid,
    Gas,
}

/// The state of one grid position.
#[derive(Clone, Copy, Debug, PartialEq, Eq, Structural)]
pub struct Cell {
    pub material: MatIndex,
    /// Degrees Celsius.
    pub temperature: i16,
    pub state: AggregateState,
    /// Set while a tick runs, on a cell that gravity has already exchanged.
    pub moved: bool,
}

/// The aggregate state at `temperature` of a material with the given
/// melting and boiling points. Both comparisons are strict: a material at
/// its melting point is solid, and one at its boiling point is liquid.
pub open spec fn state_at(temperature: int, melt_point: int, boil_point: int) -> AggregateState {
    if temperature > boil_point {
        AggregateState::Gas
    } else if temperature > melt_point {
        AggregateState::Liquid
    } else {
        AggregateState::Solid
    }
}

/// Computes `state_at`.
pub fn aggregate_state(temperature: i16, melt_point: i16, boil_point: i16) -> (state:
    AggregateState)
    ensures
        state == state_at(temperature as int, melt_point as int, boil_point as int),
{
    if temperature > boil_point {
        AggregateState::Gas
    } else if temperature > melt_point {
        AggregateState::Liquid
    } else {
        AggregateState::Solid
    }
}

impl Cell {
    /// What every position of a fresh grid holds.
    pub open spec fn spec_blank() -> Cell {
        Cell { material: NONE, temperature: AMBIENT, state: AggregateState::Solid, moved: false }
    }

    /// An empty cell at ambient temperature.
    #[verifier::when_used_as_spec(spec_blank)]
    pub fn blank() -> (cell: Cell)
        ensures
            cell == Cell::spec_blank(),
    {
        Cell { material: NONE, temperature: AMBIENT, state: AggregateState::Solid, moved: false }
    }
}

/// What the aggregate state says of the temperature: a gas is above its
/// boiling point; a liquid is above its melting point and not above its
/// boiling point; a solid is not above its melting point.
pub proof fn lemma_state_bounds(temperature: int, melt_point: int, boil_point: int)
    ensures
        state_at(temperature, melt_point, boil_point) == AggregateState::Gas ==> temperature
            > boil_point,
        state_at(temperature, melt_point, boil_point) == AggregateState::Liquid ==> melt_point
            < temperature <= boil_point,
        state_at(temperature, melt_point, boil_point) == AggregateState::Solid ==> temperature
            <= melt_point,
{
}

} // verus!
