//! What holds of every tick.

use vstd::prelude::*;
use vstd::seq_lib::to_multiset_build;
use crate::cell::{AggregateState, Cell};
use crate::materials::{MatIndex, Material};
use crate::sandbox::paint::{clamped_region, spawned, heated};
use crate::physics::{
    classify, classify_column, column_at_rest, column_materials, gravity, gravity_column,
    materials, reset, swaps_at, tick, tick_column, ticks, ticks_column,
};

verus! {

/// Gravity never exchanges a cell twice: of two adjacent pairs of rows at
/// most one changes places.
pub proof fn lemma_no_double_swap(defs: Seq<Material>, col: Seq<Cell>, y: int)
    ensures
        swaps_at(defs, col, y) ==> !swaps_at(defs, col, y + 1) && !swaps_at(defs, col, y - 1),
{
}

/// The first `n` rows hold the same materials before and after gravity,
/// when no exchange reaches across row `n`.
proof fn lemma_prefix_conserved(defs: Seq<Material>, col: Seq<Cell>, n: int)
    requires
        0 <= n <= col.len(),
        !swaps_at(defs, col, n - 1),
    ensures
        column_materials(gravity_column(defs, col)).take(n).to_multiset() == column_materials(
            col,
        ).take(n).to_multiset(),
    decreases n,
{
    broadcast use to_multiset_build;

    let after = column_materials(gravity_column(defs, col));
    let before = column_materials(col);
    if n == 0 {
        assert(after.take(0) =~= before.take(0));
    } else if swaps_at(defs, col, n - 2) {
        lemma_prefix_conserved(defs, col, n - 2);
        assert(after.take(n) =~= after.take(n - 2).push(before[n - 1]).push(before[n - 2]));
        assert(before.take(n) =~= before.take(n - 2).push(before[n - 2]).push(before[n - 1]));
        assert(after.take(n).to_multiset() =~= before.take(n).to_multiset());
    } else {
        lemma_prefix_conserved(defs, col, n - 1);
        assert(after.take(n) =~= after.take(n - 1).push(before[n - 1]));
        assert(before.take(n) =~= before.take(n - 1).push(before[n - 1]));
    }
}

/// Gravity keeps the materials of a column: it exchanges them and neither
/// makes nor loses one.
pub proof fn lemma_gravity_column_conserves(defs: Seq<Material>, col: Seq<Cell>)
    ensures
        column_materials(gravity_column(defs, col)).to_multiset() == column_materials(
            col,
        ).to_multiset(),
{
    let n = col.len() as int;
    lemma_prefix_conserved(defs, col, n);
    assert(column_materials(gravity_column(defs, col)).take(n) =~= column_materials(
        gravity_column(defs, col),
    ));
    assert(column_materials(col).take(n) =~= column_materials(col));
}

/// Two grids whose columns hold the same materials hold the same materials.
proof fn lemma_materials_by_column(a: Seq<Seq<Cell>>, b: Seq<Seq<Cell>>)
    requires
        a.len() == b.len(),
        forall|x: int|
            0 <= x < a.len() ==> column_materials(#[trigger] a[x]).to_multiset()
                == column_materials(b[x]).to_multiset(),
    ensures
        materials(a) == materials(b),
    decreases a.len(),
{
    if a.len() > 0 {
        let x = a.len() - 1;
        assert(column_materials(a[x]).to_multiset() == column_materials(b[x]).to_multiset());
        lemma_materials_by_column(a.drop_last(), b.drop_last());
    }
}

/// Gravity keeps the materials of the whole grid.
pub proof fn lemma_gravity_conserves(defs: Seq<Material>, grid: Seq<Seq<Cell>>)
    ensures
        materials(gravity(defs, grid)) == materials(grid),
{
    assert forall|x: int| 0 <= x < grid.len() implies column_materials(
        #[trigger] gravity(defs, grid)[x],
    ).to_multiset() == column_materials(grid[x]).to_multiset() by {
        lemma_gravity_column_conserves(defs, grid[x]);
    }
    lemma_materials_by_column(gravity(defs, grid), grid);
}

/// A tick keeps the materials of the whole grid, each as often as it
/// occurred before.
pub proof fn lemma_tick_conserves(defs: Seq<Material>, grid: Seq<Seq<Cell>>)
    ensures
        materials(tick(defs, grid)) == materials(grid),
{
    let classified = classify(defs, grid);
    let settled = gravity(defs, classified);
    assert forall|x: int| 0 <= x < grid.len() implies column_materials(
        #[trigger] classified[x],
    ).to_multiset() == column_materials(grid[x]).to_multiset() by {
        assert(column_materials(classified[x]) =~= column_materials(grid[x]));
    }
    lemma_materials_by_column(classified, grid);
    lemma_gravity_conserves(defs, classified);
    assert forall|x: int| 0 <= x < settled.len() implies column_materials(
        #[trigger] reset(settled)[x],
    ).to_multiset() == column_materials(settled[x]).to_multiset() by {
        assert(column_materials(reset(settled)[x]) =~= column_materials(settled[x]));
    }
    lemma_materials_by_column(reset(settled), settled);
}

/// A tick treats every column on its own.
pub proof fn lemma_tick_by_column(defs: Seq<Material>, grid: Seq<Seq<Cell>>, x: int)
    requires
        0 <= x < grid.len(),
    ensures
        tick(defs, grid).len() == grid.len(),
        tick(defs, grid)[x] == tick_column(defs, grid[x]),
{
}

/// Any number of ticks treat every column on its own.
pub proof fn lemma_ticks_by_column(defs: Seq<Material>, grid: Seq<Seq<Cell>>, n: nat, x: int)
    requires
        0 <= x < grid.len(),
    ensures
        ticks(defs, grid, n).len() == grid.len(),
        ticks(defs, grid, n)[x] == ticks_column(defs, grid[x], n),
    decreases n,
{
    if n > 0 {
        lemma_ticks_by_column(defs, grid, (n - 1) as nat, x);
        lemma_tick_by_column(defs, ticks(defs, grid, (n - 1) as nat), x);
    }
}

/// `col` holds `dense` in row `k` and `light` in every other row.
pub open spec fn lone(col: Seq<Cell>, dense: MatIndex, light: MatIndex, k: int) -> bool {
    &&& 0 <= k < col.len()
    &&& forall|y: int|
        0 <= y < col.len() ==> (#[trigger] col[y]).material == (if y == k {
            dense
        } else {
            light
        })
}

/// The row that a cell reaches when it starts in row `k` of a column of
/// `height` rows and sinks by one row per tick for `n` ticks, as far as the
/// bottom row.
pub open spec fn sunk(k: int, n: int, height: int) -> int {
    if k + n < height {
        k + n
    } else {
        height - 1
    }
}

/// A single heavy cell in a column of lighter material sinks by exactly one
/// row in a tick, and stays where it is once it has reached the bottom row.
pub proof fn lemma_lone_cell_sinks(
    defs: Seq<Material>,
    col: Seq<Cell>,
    dense: MatIndex,
    light: MatIndex,
    k: int,
)
    requires
        lone(col, dense, light, k),
        column_at_rest(col),
        dense < defs.len(),
        light < defs.len(),
        defs[dense as int].weight > defs[light as int].weight,
    ensures
        lone(tick_column(defs, col), dense, light, sunk(k, 1, col.len() as int)),
        column_at_rest(tick_column(defs, col)),
{
    let c = classify_column(defs, col);
    assert forall|y: int| 0 <= y < k implies !swaps_at(defs, c, y) by {
        assert(c[y].material == col[y].material);
        assert(c[y + 1].material == col[y + 1].material);
    }
    assert(!swaps_at(defs, c, k - 1));
    if k + 1 < col.len() {
        assert(c[k].material == col[k].material);
        assert(c[k + 1].material == col[k + 1].material);
        assert(swaps_at(defs, c, k));
    }
    assert forall|y: int| k < y implies !swaps_at(defs, c, y) by {
        if y + 1 < col.len() {
            assert(c[y].material == col[y].material);
            assert(c[y + 1].material == col[y + 1].material);
        }
    }
}

/// A single heavy cell in a column of lighter material is `n` rows further
/// down after `n` ticks, or in the bottom row if that is nearer: it reaches
/// the bottom of `m` lighter cells below it after exactly `m` ticks.
pub proof fn lemma_lone_cell_after(
    defs: Seq<Material>,
    col: Seq<Cell>,
    dense: MatIndex,
    light: MatIndex,
    k: int,
    n: nat,
)
    requires
        lone(col, dense, light, k),
        column_at_rest(col),
        dense < defs.len(),
        light < defs.len(),
        defs[dense as int].weight > defs[light as int].weight,
    ensures
        ticks_column(defs, col, n).len() == col.len(),
        lone(ticks_column(defs, col, n), dense, light, sunk(k, n as int, col.len() as int)),
        column_at_rest(ticks_column(defs, col, n)),
    decreases n,
{
    if n > 0 {
        let before = ticks_column(defs, col, (n - 1) as nat);
        lemma_lone_cell_after(defs, col, dense, light, k, (n - 1) as nat);
        lemma_lone_cell_sinks(
            defs,
            before,
            dense,
            light,
            sunk(k, n as int - 1, col.len() as int),
        );
    }
}

/// In a grid, a single heavy cell in a column of lighter material is `n`
/// rows further down after `n` ticks, or in the bottom row if that is nearer,
/// whatever the other columns hold.
pub proof fn lemma_lone_cell_in_grid(
    defs: Seq<Material>,
    grid: Seq<Seq<Cell>>,
    x: int,
    dense: MatIndex,
    light: MatIndex,
    k: int,
    n: nat,
)
    requires
        0 <= x < grid.len(),
        lone(grid[x], dense, light, k),
        column_at_rest(grid[x]),
        dense < defs.len(),
        light < defs.len(),
        defs[dense as int].weight > defs[light as int].weight,
    ensures
        lone(ticks(defs, grid, n)[x], dense, light, sunk(k, n as int, grid[x].len() as int)),
{
    lemma_ticks_by_column(defs, grid, n, x);
    lemma_lone_cell_after(defs, grid[x], dense, light, k, n);
}

/// Gravity leaves a grid of at most one row as it is.
pub proof fn lemma_single_row_gravity(defs: Seq<Material>, grid: Seq<Seq<Cell>>)
    requires
        forall|x: int| 0 <= x < grid.len() ==> (#[trigger] grid[x]).len() <= 1,
    ensures
        gravity(defs, grid) == grid,
{
    assert forall|x: int| 0 <= x < grid.len() implies #[trigger] gravity(defs, grid)[x]
        == grid[x] by {
        assert(gravity_column(defs, grid[x]) =~= grid[x]);
    }
    assert(gravity(defs, grid) =~= grid);
}

/// However many ticks pass, every cell of a grid of at most one row keeps
/// its material.
pub proof fn lemma_single_row_ticks(defs: Seq<Material>, grid: Seq<Seq<Cell>>, n: nat, x: int)
    requires
        forall|i: int| 0 <= i < grid.len() ==> (#[trigger] grid[i]).len() <= 1,
        0 <= x < grid.len(),
    ensures
        ticks(defs, grid, n).len() == grid.len(),
        column_materials(ticks(defs, grid, n)[x]) == column_materials(grid[x]),
    decreases n,
{
    lemma_ticks_by_column(defs, grid, n, x);
    if n > 0 {
        let before = ticks(defs, grid, (n - 1) as nat);
        lemma_single_row_ticks(defs, grid, (n - 1) as nat, x);
        lemma_ticks_by_column(defs, grid, (n - 1) as nat, x);
        assert(column_materials(before[x]).len() == column_materials(grid[x]).len());
        assert(before[x].len() <= 1);
        assert(column_materials(tick_column(defs, before[x])) =~= column_materials(before[x]));
    }
}

/// After classification every cell's aggregate state agrees with its
/// temperature and its material: a gas is above the boiling point; a liquid
/// is above the melting point and not above the boiling point; a solid is
/// not above the melting point.
pub proof fn lemma_classified_bounds(defs: Seq<Material>, grid: Seq<Seq<Cell>>, x: int, y: int)
    requires
        0 <= x < grid.len(),
        0 <= y < grid[x].len(),
    ensures
        ({
            let cell = classify(defs, grid)[x][y];
            let def = defs[cell.material as int];
            &&& cell.material == grid[x][y].material
            &&& cell.temperature == grid[x][y].temperature
            &&& cell.state == AggregateState::Gas ==> cell.temperature > def.boil_point
            &&& cell.state == AggregateState::Liquid ==> def.melt_point < cell.temperature
                <= def.boil_point
            &&& cell.state == AggregateState::Solid ==> cell.temperature <= def.melt_point
        }),
{
}

/// An edit never reaches a position outside the grid, wherever its centre
/// lies and whatever its size, and every other cell is left as it was.
pub proof fn lemma_edit_stays_inside(
    grid: Seq<Seq<Cell>>,
    cx: usize,
    cy: usize,
    size: usize,
    width: usize,
    height: usize,
    x: int,
    y: int,
)
    requires
        0 <= x < grid.len(),
        0 <= y < grid[x].len(),
    ensures
        ({
            let region = clamped_region(
                cx as int,
                cy as int,
                size as int,
                width as int,
                height as int,
            );
            &&& region.x0 <= region.x1 <= width
            &&& region.y0 <= region.y1 <= height
            &&& region.contains(x, y) ==> x < width && y < height && cx - size / 2 <= x < cx
                - size / 2 + size && cy - size / 2 <= y < cy - size / 2 + size
            &&& !region.contains(x, y) ==> forall|material: MatIndex|
                (#[trigger] spawned(grid, region, material))[x][y] == grid[x][y]
            &&& !region.contains(x, y) ==> forall|celsius: i16|
                (#[trigger] heated(grid, region, celsius))[x][y] == grid[x][y]
        }),
{
}

} // verus!
