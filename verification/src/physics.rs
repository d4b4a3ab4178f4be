//! What one tick does, stated on sequences: a grid is a sequence of columns,
//! a column a sequence of cells from the top row down.

use vstd::prelude::*;
use crate::cell::{state_at, Cell};
use vstd::multiset::Multiset;
use crate::materials::{MatIndex, Material};

verus! {

/// Every column of `grid` has `height` cells, and there are `width` of them.
pub open spec fn rectangular(grid: Seq<Seq<Cell>>, width: int, height: int) -> bool {
    &&& grid.len() == width
    &&& forall|x: int| 0 <= x < width ==> (#[trigger] grid[x]).len() == height
}

/// Every cell of `col` holds a material of the catalog `defs`.
pub open spec fn column_within(defs: Seq<Material>, col: Seq<Cell>) -> bool {
    forall|y: int| 0 <= y < col.len() ==> (#[trigger] col[y]).material < defs.len()
}

/// Every cell of `grid` holds a material of the catalog `defs`.
pub open spec fn within(defs: Seq<Material>, grid: Seq<Seq<Cell>>) -> bool {
    forall|x: int| 0 <= x < grid.len() ==> column_within(defs, #[trigger] grid[x])
}

/// No cell of `col` is marked as moved.
pub open spec fn column_at_rest(col: Seq<Cell>) -> bool {
    forall|y: int| 0 <= y < col.len() ==> !(#[trigger] col[y]).moved
}

/// No cell of `grid` is marked as moved: the state between two ticks.
pub open spec fn at_rest(grid: Seq<Seq<Cell>>) -> bool {
    forall|x: int| 0 <= x < grid.len() ==> column_at_rest(#[trigger] grid[x])
}

/// The weight of the material in `cell`.
pub open spec fn weight_of(defs: Seq<Material>, cell: Cell) -> int {
    defs[cell.material as int].weight as int
}

/// `cell` with the aggregate state that its temperature and material give.
pub open spec fn classified(defs: Seq<Material>, cell: Cell) -> Cell {
    Cell {
        state: state_at(
            cell.temperature as int,
            defs[cell.material as int].melt_point as int,
            defs[cell.material as int].boil_point as int,
        ),
        ..cell
    }
}

/// The column with every cell classified.
pub open spec fn classify_column(defs: Seq<Material>, col: Seq<Cell>) -> Seq<Cell> {
    Seq::new(col.len(), |y: int| classified(defs, col[y]))
}

/// The grid after the first pass of a tick: every cell classified.
pub open spec fn classify(defs: Seq<Material>, grid: Seq<Seq<Cell>>) -> Seq<Seq<Cell>> {
    Seq::new(grid.len(), |x: int| classify_column(defs, grid[x]))
}

/// Whether gravity exchanges the cells at rows `y` and `y + 1` of `col`.
///
/// A column is walked once from the top. A cell sinks below its lower
/// neighbour when neither is marked as moved and it is strictly heavier;
/// both are then marked, so the pair that the walk looks at next is left alone.
pub open spec fn swaps_at(defs: Seq<Material>, col: Seq<Cell>, y: int) -> bool
    decreases y,
{
    if 0 <= y && y + 1 < col.len() {
        &&& !col[y].moved
        &&& !col[y + 1].moved
        &&& weight_of(defs, col[y]) > weight_of(defs, col[y + 1])
        &&& !(y >= 1 && swaps_at(defs, col, y - 1))
    } else {
        false
    }
}

/// The cell at row `y` of `col` after gravity. An exchange moves the material
/// only; temperature and aggregate state stay with the position.
pub open spec fn fallen(defs: Seq<Material>, col: Seq<Cell>, y: int) -> Cell {
    if swaps_at(defs, col, y) {
        Cell { material: col[y + 1].material, moved: true, ..col[y] }
    } else if swaps_at(defs, col, y - 1) {
        Cell { material: col[y - 1].material, moved: true, ..col[y] }
    } else {
        col[y]
    }
}

/// The column after gravity.
pub open spec fn gravity_column(defs: Seq<Material>, col: Seq<Cell>) -> Seq<Cell> {
    Seq::new(col.len(), |y: int| fallen(defs, col, y))
}

/// The grid after the second pass of a tick; columns do not interact.
pub open spec fn gravity(defs: Seq<Material>, grid: Seq<Seq<Cell>>) -> Seq<Seq<Cell>> {
    Seq::new(grid.len(), |x: int| gravity_column(defs, grid[x]))
}

/// `cell` without its mark.
pub open spec fn rested(cell: Cell) -> Cell {
    Cell { moved: false, ..cell }
}

/// The column with every mark cleared.
pub open spec fn reset_column(col: Seq<Cell>) -> Seq<Cell> {
    Seq::new(col.len(), |y: int| rested(col[y]))
}

/// The grid after the third pass of a tick: every mark cleared.
pub open spec fn reset(grid: Seq<Seq<Cell>>) -> Seq<Seq<Cell>> {
    Seq::new(grid.len(), |x: int| reset_column(grid[x]))
}

/// The grid after one tick: classification, then gravity, then the reset.
pub open spec fn tick(defs: Seq<Material>, grid: Seq<Seq<Cell>>) -> Seq<Seq<Cell>> {
    reset(gravity(defs, classify(defs, grid)))
}

/// The materials of a column, from the top row down.
pub open spec fn column_materials(col: Seq<Cell>) -> Seq<MatIndex> {
    Seq::new(col.len(), |y: int| col[y].material)
}

/// The materials of all cells of a grid, each as often as it occurs.
pub open spec fn materials(grid: Seq<Seq<Cell>>) -> Multiset<MatIndex>
    decreases grid.len(),
{
    if grid.len() == 0 {
        Multiset::empty()
    } else {
        materials(grid.drop_last()).add(column_materials(grid.last()).to_multiset())
    }
}

/// What one tick makes of a column.
pub open spec fn tick_column(defs: Seq<Material>, col: Seq<Cell>) -> Seq<Cell> {
    reset_column(gravity_column(defs, classify_column(defs, col)))
}

/// What `n` ticks make of a column.
pub open spec fn ticks_column(defs: Seq<Material>, col: Seq<Cell>, n: nat) -> Seq<Cell>
    decreases n,
{
    if n == 0 {
        col
    } else {
        tick_column(defs, ticks_column(defs, col, (n - 1) as nat))
    }
}

/// The grid after `n` ticks.
pub open spec fn ticks(defs: Seq<Material>, grid: Seq<Seq<Cell>>, n: nat) -> Seq<Seq<Cell>>
    decreases n,
{
    if n == 0 {
        grid
    } else {
        tick(defs, ticks(defs, grid, (n - 1) as nat))
    }
}

} // verus!
