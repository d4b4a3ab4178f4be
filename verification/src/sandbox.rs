//! The grid of cells.

use vstd::prelude::*;
use crate::cell::{AggregateState, Cell};
use crate::materials::{Catalog, MatIndex, Rgb};
use crate::physics::{at_rest, column_within, rectangular, within};

pub mod paint;
pub mod sim;

verus! {

/// Why an edit of the grid was refused.
#[derive(Clone, Copy, Debug, PartialEq, Eq, Structural)]
pub enum GridError {
    /// The position lies outside the grid.
    OutOfRange,
    /// The catalog has no material of that index.
    UnknownMaterial,
}

/// A grid of `w()` columns with `h()` cells each. Position `(x, y)` is row
/// `y` of column `x`; row 0 is the top.
pub struct Sandbox {
    width: usize,
    height: usize,
    cells: Vec<Vec<Cell>>,
}

impl View for Sandbox {
    type V = Seq<Seq<Cell>>;

    /// The columns, each from the top row down.
    closed spec fn view(&self) -> Seq<Seq<Cell>> {
        self.cells@.map_values(|col: Vec<Cell>| col@)
    }
}

fn blank_column(height: usize) -> (col: Vec<Cell>)
    ensures
        col@ == Seq::new(height as nat, |y: int| Cell::blank()),
{
    let mut col: Vec<Cell> = Vec::new();
    for y in 0..height
        invariant
            col@ == Seq::new(y as nat, |i: int| Cell::blank()),
    {
        col.push(Cell::blank());
        assert(col@ =~= Seq::new((y + 1) as nat, |i: int| Cell::blank()));
    }
    col
}

impl Sandbox {
    pub closed spec fn spec_w(&self) -> usize {
        self.width
    }

    pub closed spec fn spec_h(&self) -> usize {
        self.height
    }

    /// The cells are a grid of `w()` by `h()`. Holds of every sandbox that
    /// `new` made, whatever was done to it since.
    pub open spec fn wf(&self) -> bool {
        rectangular(self@, self.spec_w() as int, self.spec_h() as int)
    }

    /// A grid of `width` by `height` empty cells at ambient temperature.
    pub fn new(width: usize, height: usize) -> (sandbox: Sandbox)
        ensures
            sandbox.wf(),
            sandbox.spec_w() == width,
            sandbox.spec_h() == height,
            sandbox@ == Seq::new(
                width as nat,
                |x: int| Seq::new(height as nat, |y: int| Cell::blank()),
            ),
            at_rest(sandbox@),
    {
        let mut cells: Vec<Vec<Cell>> = Vec::new();
        for x in 0..width
            invariant
                cells@.len() == x,
                forall|i: int|
                    0 <= i < x ==> (#[trigger] cells@[i])@ == Seq::new(
                        height as nat,
                        |y: int| Cell::blank(),
                    ),
        {
            cells.push(blank_column(height));
        }
        let sandbox = Sandbox { width, height, cells };
        assert(sandbox@ =~= Seq::new(
            width as nat,
            |x: int| Seq::new(height as nat, |y: int| Cell::blank()),
        ));
        sandbox
    }

    /// The number of columns.
    #[verifier::when_used_as_spec(spec_w)]
    pub fn w(&self) -> (width: usize)
        ensures
            width == self.spec_w(),
    {
        self.width
    }

    /// The number of rows.
    #[verifier::when_used_as_spec(spec_h)]
    pub fn h(&self) -> (height: usize)
        ensures
            height == self.spec_h(),
    {
        self.height
    }

    /// Whether `(x, y)` is a position of the grid.
    pub open spec fn holds(&self, x: int, y: int) -> bool {
        0 <= x < self.spec_w() && 0 <= y < self.spec_h()
    }

    /// The cell at `(x, y)`.
    pub fn cell(&self, x: usize, y: usize) -> (cell: Result<Cell, GridError>)
        requires
            self.wf(),
        ensures
            self.holds(x as int, y as int) ==> cell == Ok::<Cell, GridError>(
                self@[x as int][y as int],
            ),
            !self.holds(x as int, y as int) ==> cell == Err::<Cell, GridError>(
                GridError::OutOfRange,
            ),
    {
        if x < self.width && y < self.height {
            assert(self@[x as int] == self.cells@[x as int]@);
            Ok(self.cells[x][y])
        } else {
            Err(GridError::OutOfRange)
        }
    }

    /// The material at `(x, y)`.
    pub fn material(&self, x: usize, y: usize) -> (material: Result<MatIndex, GridError>)
        requires
            self.wf(),
        ensures
            self.holds(x as int, y as int) ==> material == Ok::<MatIndex, GridError>(
                self@[x as int][y as int].material,
            ),
            !self.holds(x as int, y as int) ==> material == Err::<MatIndex, GridError>(
                GridError::OutOfRange,
            ),
    {
        match self.cell(x, y) {
            Ok(cell) => Ok(cell.material),
            Err(e) => Err(e),
        }
    }

    /// The temperature at `(x, y)`, in degrees Celsius.
    pub fn temperature(&self, x: usize, y: usize) -> (celsius: Result<i16, GridError>)
        requires
            self.wf(),
        ensures
            self.holds(x as int, y as int) ==> celsius == Ok::<i16, GridError>(
                self@[x as int][y as int].temperature,
            ),
            !self.holds(x as int, y as int) ==> celsius == Err::<i16, GridError>(
                GridError::OutOfRange,
            ),
    {
        match self.cell(x, y) {
            Ok(cell) => Ok(cell.temperature),
            Err(e) => Err(e),
        }
    }

    /// The aggregate state at `(x, y)`, as the last classification left it.
    pub fn state(&self, x: usize, y: usize) -> (state: Result<AggregateState, GridError>)
        requires
            self.wf(),
        ensures
            self.holds(x as int, y as int) ==> state == Ok::<AggregateState, GridError>(
                self@[x as int][y as int].state,
            ),
            !self.holds(x as int, y as int) ==> state == Err::<AggregateState, GridError>(
                GridError::OutOfRange,
            ),
    {
        match self.cell(x, y) {
            Ok(cell) => Ok(cell.state),
            Err(e) => Err(e),
        }
    }

    /// Whether the cell at `(x, y)` is marked as moved.
    pub fn moved(&self, x: usize, y: usize) -> (moved: Result<bool, GridError>)
        requires
            self.wf(),
        ensures
            self.holds(x as int, y as int) ==> moved == Ok::<bool, GridError>(
                self@[x as int][y as int].moved,
            ),
            !self.holds(x as int, y as int) ==> moved == Err::<bool, GridError>(
                GridError::OutOfRange,
            ),
    {
        match self.cell(x, y) {
            Ok(cell) => Ok(cell.moved),
            Err(e) => Err(e),
        }
    }

    /// Puts `material` into the cell at `(x, y)`. Whether the catalog in use
    /// has such a material is not looked at here: `spawn` does that.
    pub fn set_material(&mut self, x: usize, y: usize, material: MatIndex) -> (done: Result<
        (),
        GridError,
    >)
        requires
            old(self).wf(),
        ensures
            final(self).wf(),
            final(self).spec_w() == old(self).spec_w(),
            final(self).spec_h() == old(self).spec_h(),
            old(self).holds(x as int, y as int) ==> done.is_ok() && final(self)@ == old(
                self,
            )@.update(
                x as int,
                old(self)@[x as int].update(
                    y as int,
                    Cell { material, ..old(self)@[x as int][y as int] },
                ),
            ),
            !old(self).holds(x as int, y as int) ==> done == Err::<(), GridError>(
                GridError::OutOfRange,
            ) && final(self)@ == old(self)@,
    {
        if x < self.width && y < self.height {
            assert(self@[x as int] == self.cells@[x as int]@);
            self.cells[x][y].material = material;
            assert(self@ =~= old(self)@.update(
                x as int,
                old(self)@[x as int].update(
                    y as int,
                    Cell { material, ..old(self)@[x as int][y as int] },
                ),
            ));
            Ok(())
        } else {
            Err(GridError::OutOfRange)
        }
    }

    /// Sets the temperature of the cell at `(x, y)`, in degrees Celsius.
    pub fn set_temperature(&mut self, x: usize, y: usize, celsius: i16) -> (done: Result<
        (),
        GridError,
    >)
        requires
            old(self).wf(),
        ensures
            final(self).wf(),
            final(self).spec_w() == old(self).spec_w(),
            final(self).spec_h() == old(self).spec_h(),
            old(self).holds(x as int, y as int) ==> done.is_ok() && final(self)@ == old(
                self,
            )@.update(
                x as int,
                old(self)@[x as int].update(
                    y as int,
                    Cell { temperature: celsius, ..old(self)@[x as int][y as int] },
                ),
            ),
            !old(self).holds(x as int, y as int) ==> done == Err::<(), GridError>(
                GridError::OutOfRange,
            ) && final(self)@ == old(self)@,
    {
        if x < self.width && y < self.height {
            assert(self@[x as int] == self.cells@[x as int]@);
            self.cells[x][y].temperature = celsius;
            assert(self@ =~= old(self)@.update(
                x as int,
                old(self)@[x as int].update(
                    y as int,
                    Cell { temperature: celsius, ..old(self)@[x as int][y as int] },
                ),
            ));
            Ok(())
        } else {
            Err(GridError::OutOfRange)
        }
    }

    /// Whether every cell holds a material of `catalog`.
    pub fn fits(&self, catalog: &Catalog) -> (ok: bool)
        requires
            self.wf(),
        ensures
            ok == within(catalog@, self@),
    {
        let count = catalog.len();
        for x in 0..self.width
            invariant
                self.wf(),
                count == catalog@.len(),
                forall|i: int| 0 <= i < x ==> column_within(catalog@, #[trigger] self@[i]),
        {
            assert(self@[x as int] == self.cells@[x as int]@);
            for y in 0..self.height
                invariant
                    self.wf(),
                    x < self.width,
                    count == catalog@.len(),
                    self@[x as int] == self.cells@[x as int]@,
                    forall|j: int|
                        0 <= j < y ==> (#[trigger] self@[x as int][j]).material < count,
            {
                if self.cells[x][y].material >= count {
                    assert(!column_within(catalog@, self@[x as int]));
                    return false;
                }
            }
        }
        true
    }

    /// The colour of every cell, column by column: what a renderer draws.
    pub fn colors(&self, catalog: &Catalog) -> (frame: Vec<Vec<Rgb>>)
        requires
            self.wf(),
            within(catalog@, self@),
        ensures
            frame@.len() == self.spec_w(),
            forall|x: int|
                0 <= x < self.spec_w() ==> (#[trigger] frame@[x])@.len() == self.spec_h(),
            forall|x: int, y: int|
                self.holds(x, y) ==> (#[trigger] frame@[x]@[y])
                    == catalog@[self@[x][y].material as int].color,
    {
        let mut frame: Vec<Vec<Rgb>> = Vec::new();
        for x in 0..self.width
            invariant
                self.wf(),
                within(catalog@, self@),
                frame@.len() == x,
                forall|i: int| 0 <= i < x ==> (#[trigger] frame@[i])@.len() == self.spec_h(),
                forall|i: int, j: int|
                    0 <= i < x && 0 <= j < self.spec_h() ==> (#[trigger] frame@[i]@[j])
                        == catalog@[self@[i][j].material as int].color,
        {
            assert(self@[x as int] == self.cells@[x as int]@);
            let mut column: Vec<Rgb> = Vec::new();
            for y in 0..self.height
                invariant
                    self.wf(),
                    within(catalog@, self@),
                    x < self.width,
                    self@[x as int] == self.cells@[x as int]@,
                    column@.len() == y,
                    forall|j: int|
                        0 <= j < y ==> (#[trigger] column@[j])
                            == catalog@[self@[x as int][j].material as int].color,
            {
                assert(column_within(catalog@, self@[x as int]));
                let def = catalog.lookup(self.cells[x][y].material);
                column.push(def.color);
            }
            frame.push(column);
        }
        frame
    }
}

} // verus!
