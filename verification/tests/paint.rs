use chemarium::{clamp_region, Catalog, Cell, GridError, Region, Sandbox};

#[test]
fn region_around_the_origin_is_cut_at_the_edges() {
    assert_eq!(clamp_region(0, 0, 10, 200, 200), Region { x0: 0, x1: 5, y0: 0, y1: 5 });
}

#[test]
fn region_inside_the_grid() {
    assert_eq!(clamp_region(100, 50, 10, 200, 200), Region { x0: 95, x1: 105, y0: 45, y1: 55 });
    assert_eq!(clamp_region(100, 50, 7, 200, 200), Region { x0: 97, x1: 104, y0: 47, y1: 54 });
}

#[test]
fn region_of_size_one_is_the_centre() {
    assert_eq!(clamp_region(3, 4, 1, 10, 10), Region { x0: 3, x1: 4, y0: 4, y1: 5 });
}

#[test]
fn region_of_size_zero_is_empty() {
    let region = clamp_region(3, 4, 0, 10, 10);
    assert_eq!(region, Region { x0: 3, x1: 3, y0: 4, y1: 4 });
}

#[test]
fn region_at_the_far_corner() {
    assert_eq!(clamp_region(199, 199, 10, 200, 200), Region { x0: 194, x1: 200, y0: 194, y1: 200 });
}

#[test]
fn region_beyond_the_grid_is_empty() {
    assert_eq!(clamp_region(500, 1, 4, 200, 100), Region { x0: 200, x1: 200, y0: 0, y1: 3 });
    assert_eq!(
        clamp_region(usize::MAX, usize::MAX, usize::MAX, 20, 10),
        Region { x0: 20, x1: 20, y0: 10, y1: 10 }
    );
}

#[test]
fn region_larger_than_the_grid_is_the_grid() {
    assert_eq!(clamp_region(2, 2, usize::MAX, 20, 10), Region { x0: 0, x1: 20, y0: 0, y1: 10 });
    assert_eq!(clamp_region(0, 0, 50, 20, 10), Region { x0: 0, x1: 20, y0: 0, y1: 10 });
}

#[test]
fn spawn_around_the_origin_writes_inside_the_grid_only() {
    let catalog = Catalog::standard();
    let mut sandbox = Sandbox::new(200, 200);
    assert_eq!(sandbox.spawn(&catalog, 9, 0, 0, 10), Ok(()));
    for x in 0..200 {
        for y in 0..200 {
            let expected = if x < 5 && y < 5 { 9 } else { 0 };
            assert_eq!(sandbox.material(x, y), Ok(expected));
        }
    }
    assert!(sandbox.fits(&catalog));
}

#[test]
fn spawn_writes_the_material_only() {
    let catalog = Catalog::standard();
    let mut sandbox = Sandbox::new(6, 6);
    assert_eq!(sandbox.set_temperature(3, 3, 77), Ok(()));
    assert_eq!(sandbox.spawn(&catalog, 6, 3, 3, 2), Ok(()));
    for x in 0..6 {
        for y in 0..6 {
            let inside = (2..4).contains(&x) && (2..4).contains(&y);
            let mut expected = Cell::blank();
            if inside {
                expected.material = 6;
            }
            if (x, y) == (3, 3) {
                expected.temperature = 77;
            }
            assert_eq!(sandbox.cell(x, y), Ok(expected));
        }
    }
}

#[test]
fn spawn_of_one_cell() {
    let catalog = Catalog::standard();
    let mut sandbox = Sandbox::new(4, 4);
    assert_eq!(sandbox.spawn(&catalog, 13, 2, 1, 1), Ok(()));
    for x in 0..4 {
        for y in 0..4 {
            let expected = if (x, y) == (2, 1) { 13 } else { 0 };
            assert_eq!(sandbox.material(x, y), Ok(expected));
        }
    }
}

#[test]
fn spawn_of_an_unknown_material_is_refused() {
    let catalog = Catalog::standard();
    let mut sandbox = Sandbox::new(4, 4);
    assert_eq!(sandbox.spawn(&catalog, 14, 1, 1, 3), Err(GridError::UnknownMaterial));
    assert_eq!(sandbox.spawn(&catalog, usize::MAX, 1, 1, 3), Err(GridError::UnknownMaterial));
    for x in 0..4 {
        for y in 0..4 {
            assert_eq!(sandbox.cell(x, y), Ok(Cell::blank()));
        }
    }
}

#[test]
fn spawn_beyond_the_grid_writes_nothing() {
    let catalog = Catalog::standard();
    let mut sandbox = Sandbox::new(4, 4);
    assert_eq!(sandbox.spawn(&catalog, 5, 40, 40, 3), Ok(()));
    assert_eq!(sandbox.spawn(&catalog, 5, usize::MAX, 0, usize::MAX), Ok(()));
    for x in 0..4 {
        for y in 0..4 {
            assert_eq!(sandbox.cell(x, y), Ok(Cell::blank()));
        }
    }
}

#[test]
fn spawn_at_the_far_edge_is_cut() {
    let catalog = Catalog::standard();
    let mut sandbox = Sandbox::new(5, 3);
    assert_eq!(sandbox.spawn(&catalog, 1, 4, 2, 4), Ok(()));
    for x in 0..5 {
        for y in 0..3 {
            let expected = if x >= 2 && y >= 0 { 1 } else { 0 };
            assert_eq!(sandbox.material(x, y), Ok(expected));
        }
    }
}

#[test]
fn heat_sets_the_temperature_of_the_region() {
    let mut sandbox = Sandbox::new(5, 5);
    assert_eq!(sandbox.set_material(0, 0, 3), Ok(()));
    sandbox.heat(-200, 0, 0, 4);
    for x in 0..5 {
        for y in 0..5 {
            let expected = if x < 2 && y < 2 { -200 } else { 20 };
            assert_eq!(sandbox.temperature(x, y), Ok(expected));
        }
    }
    assert_eq!(sandbox.material(0, 0), Ok(3));
    assert_eq!(sandbox.material(1, 1), Ok(0));
}

#[test]
fn heat_beyond_the_grid_changes_nothing() {
    let mut sandbox = Sandbox::new(3, 3);
    sandbox.heat(900, 10, 10, 2);
    for x in 0..3 {
        for y in 0..3 {
            assert_eq!(sandbox.cell(x, y), Ok(Cell::blank()));
        }
    }
}
