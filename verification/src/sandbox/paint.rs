//! Edits of a square region of the grid.

use vstd::prelude::*;
use crate::cell::Cell;
use crate::materials::{Catalog, MatIndex};
use crate::physics::within;
use crate::sandbox::{GridError, Sandbox};

verus! {

/// A rectangle of grid positions: the columns from `x0` up to and without
/// `x1`, and of each the rows from `y0` up to and without `y1`.
#[derive(Clone, Copy, Debug, PartialEq, Eq, Structural)]
pub struct Region {
    pub x0: usize,
    pub x1: usize,
    pub y0: usize,
    pub y1: usize,
}

impl Region {
    /// Whether the position `(x, y)` lies in the region.
    pub open spec fn contains(self, x: int, y: int) -> bool {
        self.x0 <= x < self.x1 && self.y0 <= y < self.y1
    }
}

/// `value`, or the nearer end of `0..=limit` if it lies outside.
pub open spec fn clamped(value: int, limit: int) -> int {
    if value < 0 {
        0
    } else if value > limit {
        limit
    } else {
        value
    }
}

/// Where a stretch of `size` positions around `center` begins, cut to the
/// `limit` positions that there are.
pub open spec fn span_start(center: int, size: int, limit: int) -> int {
    clamped(center - size / 2, limit)
}

/// Where a stretch of `size` positions around `center` ends, cut to the
/// `limit` positions that there are.
pub open spec fn span_end(center: int, size: int, limit: int) -> int {
    clamped(center - size / 2 + size, limit)
}

/// The square of side `size` around `(cx, cy)`, cut to a grid of `width` by
/// `height`.
pub open spec fn clamped_region(cx: int, cy: int, size: int, width: int, height: int) -> Region {
    Region {
        x0: span_start(cx, size, width) as usize,
        x1: span_end(cx, size, width) as usize,
        y0: span_start(cy, size, height) as usize,
        y1: span_end(cy, size, height) as usize,
    }
}

/// `grid` with `material` in every cell of `region`.
pub open spec fn spawned(grid: Seq<Seq<Cell>>, region: Region, material: MatIndex) -> Seq<
    Seq<Cell>,
> {
    Seq::new(
        grid.len(),
        |x: int|
            Seq::new(
                grid[x].len(),
                |y: int|
                    if region.contains(x, y) {
                        Cell { material, ..grid[x][y] }
                    } else {
                        grid[x][y]
                    },
            ),
    )
}

/// `grid` with the temperature `celsius` in every cell of `region`.
pub open spec fn heated(grid: Seq<Seq<Cell>>, region: Region, celsius: i16) -> Seq<Seq<Cell>> {
    Seq::new(
        grid.len(),
        |x: int|
            Seq::new(
                grid[x].len(),
                |y: int|
                    if region.contains(x, y) {
                        Cell { temperature: celsius, ..grid[x][y] }
                    } else {
                        grid[x][y]
                    },
            ),
    )
}

/// The stretch of `size` positions around `center`, cut to `0..limit`.
fn clamp_span(center: usize, size: usize, limit: usize) -> (span: (usize, usize))
    ensures
        span.0 == span_start(center as int, size as int, limit as int),
        span.1 == span_end(center as int, size as int, limit as int),
        span.0 <= span.1 <= limit,
{
    let half = size / 2;
    let rest = size - half;
    let start = if center < half {
        0
    } else if center - half > limit {
        limit
    } else {
        center - half
    };
    let end = if center > usize::MAX - rest {
        limit
    } else if center + rest > limit {
        limit
    } else {
        center + rest
    };
    (start, end)
}

/// The square of side `size` around `(cx, cy)`, cut to a grid of `width` by
/// `height`: no position of the result lies outside the grid.
pub fn clamp_region(cx: usize, cy: usize, size: usize, width: usize, height: usize) -> (region:
    Region)
    ensures
        region == clamped_region(cx as int, cy as int, size as int, width as int, height as int),
        region.x0 <= region.x1 <= width,
        region.y0 <= region.y1 <= height,
{
    let (x0, x1) = clamp_span(cx, size, width);
    let (y0, y1) = clamp_span(cy, size, height);
    Region { x0, x1, y0, y1 }
}

/// Puts `material` into the rows from `y0` up to and without `y1` of a column.
fn spawn_rows(col: &mut Vec<Cell>, y0: usize, y1: usize, material: MatIndex)
    requires
        y0 <= y1 <= old(col)@.len(),
    ensures
        final(col)@ == Seq::new(
            old(col)@.len(),
            |y: int|
                if y0 <= y < y1 {
                    Cell { material, ..old(col)@[y] }
                } else {
                    old(col)@[y]
                },
        ),
{
    for y in y0..y1
        invariant
            y0 <= y1 <= col@.len(),
            col@.len() == old(col)@.len(),
            forall|j: int|
                0 <= j < col@.len() ==> #[trigger] col@[j] == (if y0 <= j < y {
                    Cell { material, ..old(col)@[j] }
                } else {
                    old(col)@[j]
                }),
    {
        col[y].material = material;
    }
    assert(col@ =~= Seq::new(
        old(col)@.len(),
        |y: int|
            if y0 <= y < y1 {
                Cell { material, ..old(col)@[y] }
            } else {
                old(col)@[y]
            },
    ));
}

/// Sets the temperature of the rows from `y0` up to and without `y1` of a
/// column.
fn heat_rows(col: &mut Vec<Cell>, y0: usize, y1: usize, celsius: i16)
    requires
        y0 <= y1 <= old(col)@.len(),
    ensures
        final(col)@ == Seq::new(
            old(col)@.len(),
            |y: int|
                if y0 <= y < y1 {
                    Cell { temperature: celsius, ..old(col)@[y] }
                } else {
                    old(col)@[y]
                },
        ),
{
    for y in y0..y1
        invariant
            y0 <= y1 <= col@.len(),
            col@.len() == old(col)@.len(),
            forall|j: int|
                0 <= j < col@.len() ==> #[trigger] col@[j] == (if y0 <= j < y {
                    Cell { temperature: celsius, ..old(col)@[j] }
                } else {
                    old(col)@[j]
                }),
    {
        col[y].temperature = celsius;
    }
    assert(col@ =~= Seq::new(
        old(col)@.len(),
        |y: int|
            if y0 <= y < y1 {
                Cell { temperature: celsius, ..old(col)@[y] }
            } else {
                old(col)@[y]
            },
    ));
}

impl Sandbox {
    /// The part of the grid that an edit of `size` around `(cx, cy)` reaches.
    pub open spec fn reach(&self, cx: usize, cy: usize, size: usize) -> Region {
        clamped_region(
            cx as int,
            cy as int,
            size as int,
            self.spec_w() as int,
            self.spec_h() as int,
        )
    }

    /// Puts `material` into the square of side `size` around `(cx, cy)`, as
    /// far as it lies in the grid. Refused, with the grid left as it is, when
    /// `catalog` has no such material.
    pub fn spawn(
        &mut self,
        catalog: &Catalog,
        material: MatIndex,
        cx: usize,
        cy: usize,
        size: usize,
    ) -> (done: Result<(), GridError>)
        requires
            old(self).wf(),
        ensures
            final(self).wf(),
            final(self).spec_w() == old(self).spec_w(),
            final(self).spec_h() == old(self).spec_h(),
            material < catalog@.len() ==> done.is_ok() && final(self)@ == spawned(
                old(self)@,
                old(self).reach(cx, cy, size),
                material,
            ),
            material >= catalog@.len() ==> done == Err::<(), GridError>(
                GridError::UnknownMaterial,
            ) && final(self)@ == old(self)@,
            within(catalog@, old(self)@) ==> within(catalog@, final(self)@),
    {
        if material >= catalog.len() {
            return Err(GridError::UnknownMaterial);
        }
        let region = clamp_region(cx, cy, size, self.width, self.height);
        for x in region.x0..region.x1
            invariant
                self.width == old(self).width,
                self.height == old(self).height,
                old(self).wf(),
                self.cells@.len() == self.width,
                region == old(self).reach(cx, cy, size),
                region.x0 <= region.x1 <= self.width,
                region.y0 <= region.y1 <= self.height,
                forall|i: int|
                    0 <= i < self.width && !(region.x0 <= i < x) ==> #[trigger] self.cells@[i]
                        == old(self).cells@[i],
                forall|i: int|
                    region.x0 <= i < x ==> (#[trigger] self.cells@[i])@ == spawned(
                        old(self)@,
                        region,
                        material,
                    )[i],
        {
            assert(old(self)@[x as int] == old(self).cells@[x as int]@);
            spawn_rows(&mut self.cells[x], region.y0, region.y1, material);
            assert(self.cells@[x as int]@ =~= spawned(old(self)@, region, material)[x as int]);
        }
        assert(self@ =~= spawned(old(self)@, region, material)) by {
            assert forall|i: int| 0 <= i < self.width implies #[trigger] self@[i] == spawned(
                old(self)@,
                region,
                material,
            )[i] by {
                assert(old(self)@[i] == old(self).cells@[i]@);
                if !(region.x0 <= i < region.x1) {
                    assert(self.cells@[i]@ =~= spawned(old(self)@, region, material)[i]);
                }
            }
        }
        Ok(())
    }

    /// Sets the temperature, in degrees Celsius, of the square of side `size`
    /// around `(cx, cy)`, as far as it lies in the grid.
    pub fn heat(&mut self, celsius: i16, cx: usize, cy: usize, size: usize)
        requires
            old(self).wf(),
        ensures
            final(self).wf(),
            final(self).spec_w() == old(self).spec_w(),
            final(self).spec_h() == old(self).spec_h(),
            final(self)@ == heated(old(self)@, old(self).reach(cx, cy, size), celsius),
    {
        let region = clamp_region(cx, cy, size, self.width, self.height);
        for x in region.x0..region.x1
            invariant
                self.width == old(self).width,
                self.height == old(self).height,
                old(self).wf(),
                self.cells@.len() == self.width,
                region == old(self).reach(cx, cy, size),
                region.x0 <= region.x1 <= self.width,
                region.y0 <= region.y1 <= self.height,
                forall|i: int|
                    0 <= i < self.width && !(region.x0 <= i < x) ==> #[trigger] self.cells@[i]
                        == old(self).cells@[i],
                forall|i: int|
                    region.x0 <= i < x ==> (#[trigger] self.cells@[i])@ == heated(
                        old(self)@,
                        region,
                        celsius,
                    )[i],
        {
            assert(old(self)@[x as int] == old(self).cells@[x as int]@);
            heat_rows(&mut self.cells[x], region.y0, region.y1, celsius);
            assert(self.cells@[x as int]@ =~= heated(old(self)@, region, celsius)[x as int]);
        }
        assert(self@ =~= heated(old(self)@, region, celsius)) by {
            assert forall|i: int| 0 <= i < self.width implies #[trigger] self@[i] == heated(
                old(self)@,
                region,
                celsius,
            )[i] by {
                assert(old(self)@[i] == old(self).cells@[i]@);
                if !(region.x0 <= i < region.x1) {
                    assert(self.cells@[i]@ =~= heated(old(self)@, region, celsius)[i]);
                }
            }
        }
    }
}

} // verus!
