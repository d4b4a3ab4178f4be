//! One tick of the simulation, pass by pass.

use vstd::prelude::*;
use crate::cell::{aggregate_state, Cell};
use crate::materials::Catalog;
use crate::physics::{
    at_rest, classified, classify, classify_column, column_within, fallen, gravity,
    gravity_column, materials, rested, reset, reset_column, swaps_at, tick, within,
};
use crate::sandbox::Sandbox;
use crate::theorems::{lemma_gravity_conserves, lemma_tick_conserves};

verus! {

/// Classifies every cell of one column.
fn update_column(col: &mut Vec<Cell>, catalog: &Catalog)
    requires
        column_within(catalog@, old(col)@),
    ensures
        final(col)@ == classify_column(catalog@, old(col)@),
{
    let height = col.len();
    for y in 0..height
        invariant
            col@.len() == height,
            height == old(col)@.len(),
            column_within(catalog@, old(col)@),
            forall|j: int| 0 <= j < y ==> #[trigger] col@[j] == classified(catalog@, old(col)@[j]),
            forall|j: int| y <= j < height ==> #[trigger] col@[j] == old(col)@[j],
    {
        let cell = col[y];
        let def = catalog.lookup(cell.material);
        col[y].state = aggregate_state(cell.temperature, def.melt_point, def.boil_point);
    }
    assert(col@ =~= classify_column(catalog@, old(col)@));
}

/// What row `y` of a column holds once the walk has passed the rows above it
/// and not yet looked at row `y` itself.
spec fn pending(catalog: &Catalog, col: Seq<Cell>, y: int) -> Cell {
    if y >= 1 && swaps_at(catalog@, col, y - 1) {
        Cell { material: col[y - 1].material, moved: true, ..col[y] }
    } else {
        col[y]
    }
}

/// Lets the heavier cells of one column sink by one row.
fn settle_column(col: &mut Vec<Cell>, catalog: &Catalog)
    requires
        column_within(catalog@, old(col)@),
    ensures
        final(col)@ == gravity_column(catalog@, old(col)@),
{
    let height = col.len();
    if height == 0 {
        assert(col@ =~= gravity_column(catalog@, old(col)@));
        return ;
    }
    for y in 0..height - 1
        invariant
            col@.len() == height,
            height == old(col)@.len(),
            height >= 1,
            column_within(catalog@, old(col)@),
            forall|j: int| 0 <= j < y ==> #[trigger] col@[j] == fallen(catalog@, old(col)@, j),
            col@[y as int] == pending(catalog, old(col)@, y as int),
            forall|j: int| y < j < height ==> #[trigger] col@[j] == old(col)@[j],
    {
        let upper = col[y];
        let lower = col[y + 1];
        if !upper.moved && !lower.moved {
            if catalog.lookup(upper.material).weight > catalog.lookup(lower.material).weight {
                col[y].material = lower.material;
                col[y].moved = true;
                col[y + 1].material = upper.material;
                col[y + 1].moved = true;
            }
        }
    }
    assert(col@ =~= gravity_column(catalog@, old(col)@));
}

/// Clears the marks of one column.
fn rest_column(col: &mut Vec<Cell>)
    ensures
        final(col)@ == reset_column(old(col)@),
{
    let height = col.len();
    for y in 0..height
        invariant
            col@.len() == height,
            height == old(col)@.len(),
            forall|j: int| 0 <= j < y ==> #[trigger] col@[j] == rested(old(col)@[j]),
            forall|j: int| y <= j < height ==> #[trigger] col@[j] == old(col)@[j],
    {
        col[y].moved = false;
    }
    assert(col@ =~= reset_column(old(col)@));
}

impl Sandbox {
    /// First pass of a tick: gives every cell the aggregate state that its
    /// temperature and its material's melting and boiling points determine.
    pub fn update_states(&mut self, catalog: &Catalog)
        requires
            old(self).wf(),
            within(catalog@, old(self)@),
        ensures
            final(self).wf(),
            final(self).spec_w() == old(self).spec_w(),
            final(self).spec_h() == old(self).spec_h(),
            final(self)@ == classify(catalog@, old(self)@),
            within(catalog@, final(self)@),
    {
        let width = self.width;
        for x in 0..width
            invariant
                self.width == old(self).width,
                self.height == old(self).height,
                self.cells@.len() == width,
                width == old(self).width,
                old(self).wf(),
                within(catalog@, old(self)@),
                forall|i: int|
                    0 <= i < x ==> (#[trigger] self.cells@[i])@ == classify(
                        catalog@,
                        old(self)@,
                    )[i],
                forall|i: int| x <= i < width ==> #[trigger] self.cells@[i] == old(self).cells@[i],
        {
            assert(old(self)@[x as int] == old(self).cells@[x as int]@);
            update_column(&mut self.cells[x], catalog);
        }
        assert(self@ =~= classify(catalog@, old(self)@));
    }

    /// Second pass of a tick: in every column, walked from the top, a cell
    /// that is strictly heavier than the one below it changes places with
    /// it, unless one of the two has already moved. Only the materials
    /// change places, and both cells are marked as moved.
    pub fn apply_gravity(&mut self, catalog: &Catalog)
        requires
            old(self).wf(),
            within(catalog@, old(self)@),
        ensures
            final(self).wf(),
            final(self).spec_w() == old(self).spec_w(),
            final(self).spec_h() == old(self).spec_h(),
            final(self)@ == gravity(catalog@, old(self)@),
            within(catalog@, final(self)@),
            materials(final(self)@) == materials(old(self)@),
    {
        let width = self.width;
        for x in 0..width
            invariant
                self.width == old(self).width,
                self.height == old(self).height,
                self.cells@.len() == width,
                width == old(self).width,
                old(self).wf(),
                within(catalog@, old(self)@),
                forall|i: int|
                    0 <= i < x ==> (#[trigger] self.cells@[i])@ == gravity(
                        catalog@,
                        old(self)@,
                    )[i],
                forall|i: int| x <= i < width ==> #[trigger] self.cells@[i] == old(self).cells@[i],
        {
            assert(old(self)@[x as int] == old(self).cells@[x as int]@);
            settle_column(&mut self.cells[x], catalog);
        }
        assert(self@ =~= gravity(catalog@, old(self)@));
        proof {
            lemma_gravity_conserves(catalog@, old(self)@);
        }
    }

    /// Third pass of a tick: clears every mark.
    pub fn reset_moved(&mut self)
        requires
            old(self).wf(),
        ensures
            final(self).wf(),
            final(self).spec_w() == old(self).spec_w(),
            final(self).spec_h() == old(self).spec_h(),
            final(self)@ == reset(old(self)@),
            at_rest(final(self)@),
    {
        let width = self.width;
        for x in 0..width
            invariant
                self.width == old(self).width,
                self.height == old(self).height,
                self.cells@.len() == width,
                width == old(self).width,
                old(self).wf(),
                forall|i: int|
                    0 <= i < x ==> (#[trigger] self.cells@[i])@ == reset(old(self)@)[i],
                forall|i: int| x <= i < width ==> #[trigger] self.cells@[i] == old(self).cells@[i],
        {
            rest_column(&mut self.cells[x]);
        }
        assert(self@ =~= reset(old(self)@));
    }

    /// Advances the grid by one tick: classification, gravity and reset, in
    /// that order.
    pub fn step(&mut self, catalog: &Catalog)
        requires
            old(self).wf(),
            within(catalog@, old(self)@),
        ensures
            final(self).wf(),
            final(self).spec_w() == old(self).spec_w(),
            final(self).spec_h() == old(self).spec_h(),
            final(self)@ == tick(catalog@, old(self)@),
            at_rest(final(self)@),
            within(catalog@, final(self)@),
            materials(final(self)@) == materials(old(self)@),
    {
        self.update_states(catalog);
        self.apply_gravity(catalog);
        self.reset_moved();
        proof {
            lemma_tick_conserves(catalog@, old(self)@);
        }
    }
}

} // verus!
