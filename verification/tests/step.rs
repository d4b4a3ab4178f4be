use chemarium::{AggregateState, Catalog, Cell, Material, Rgb, Sandbox};

fn material(name: &'static str, weight: u32, melt_point: i16, boil_point: i16) -> Material {
    Material { name, color: Rgb { r: 0, g: 0, b: 0 }, weight, melt_point, boil_point }
}

/// 0: empty, weight 0; 1: weight 10; 2: weight 50; 3: weight 10 again.
fn weights() -> Catalog {
    Catalog::new(vec![
        material("Empty", 0, 0, 100),
        material("Light", 10, 0, 100),
        material("Dense", 50, 0, 100),
        material("LightToo", 10, 0, 100),
    ])
    .unwrap()
}

fn column(sandbox: &Sandbox, x: usize) -> Vec<usize> {
    (0..sandbox.h()).map(|y| sandbox.material(x, y).unwrap()).collect()
}

fn fill_column(sandbox: &mut Sandbox, x: usize, materials: &[usize]) {
    for (y, m) in materials.iter().enumerate() {
        assert_eq!(sandbox.set_material(x, y, *m), Ok(()));
    }
}

fn census(sandbox: &Sandbox) -> Vec<usize> {
    let mut all = Vec::new();
    for x in 0..sandbox.w() {
        all.extend(column(sandbox, x));
    }
    all.sort();
    all
}

fn assert_at_rest(sandbox: &Sandbox) {
    for x in 0..sandbox.w() {
        for y in 0..sandbox.h() {
            assert_eq!(sandbox.moved(x, y), Ok(false));
        }
    }
}

#[test]
fn state_follows_the_temperature() {
    let catalog = Catalog::new(vec![material("Water", 18, 0, 100)]).unwrap();
    let mut sandbox = Sandbox::new(7, 1);
    let temperatures = [-1, 0, 1, 99, 100, 101, i16::MAX];
    for (x, t) in temperatures.iter().enumerate() {
        assert_eq!(sandbox.set_temperature(x, 0, *t), Ok(()));
    }
    sandbox.update_states(&catalog);
    let expected = [
        AggregateState::Solid,
        AggregateState::Solid,
        AggregateState::Liquid,
        AggregateState::Liquid,
        AggregateState::Liquid,
        AggregateState::Gas,
        AggregateState::Gas,
    ];
    for (x, state) in expected.iter().enumerate() {
        assert_eq!(sandbox.state(x, 0), Ok(*state));
        assert_eq!(sandbox.temperature(x, 0), Ok(temperatures[x]));
        assert_eq!(sandbox.material(x, 0), Ok(0));
    }
}

#[test]
fn state_at_the_melting_point_is_solid_and_at_the_boiling_point_liquid() {
    let catalog = Catalog::new(vec![material("Iron", 56, 1538, 2861)]).unwrap();
    let mut sandbox = Sandbox::new(2, 1);
    assert_eq!(sandbox.set_temperature(0, 0, 1538), Ok(()));
    assert_eq!(sandbox.set_temperature(1, 0, 2861), Ok(()));
    sandbox.step(&catalog);
    assert_eq!(sandbox.state(0, 0), Ok(AggregateState::Solid));
    assert_eq!(sandbox.state(1, 0), Ok(AggregateState::Liquid));
}

#[test]
fn state_is_classified_anew_in_every_tick() {
    let catalog = Catalog::new(vec![material("Water", 18, 0, 100)]).unwrap();
    let mut sandbox = Sandbox::new(1, 1);
    assert_eq!(sandbox.set_temperature(0, 0, 150), Ok(()));
    sandbox.step(&catalog);
    assert_eq!(sandbox.state(0, 0), Ok(AggregateState::Gas));
    assert_eq!(sandbox.set_temperature(0, 0, -3), Ok(()));
    sandbox.step(&catalog);
    assert_eq!(sandbox.state(0, 0), Ok(AggregateState::Solid));
    assert_eq!(sandbox.set_temperature(0, 0, 50), Ok(()));
    sandbox.step(&catalog);
    assert_eq!(sandbox.state(0, 0), Ok(AggregateState::Liquid));
}

#[test]
fn state_with_the_melting_point_above_the_boiling_point() {
    // Carbon dioxide melts at -57 and boils at -78.
    let catalog = Catalog::standard();
    let mut sandbox = Sandbox::new(4, 1);
    let temperatures = [-100, -78, -60, -57];
    for (x, t) in temperatures.iter().enumerate() {
        assert_eq!(sandbox.set_material(x, 0, 2), Ok(()));
        assert_eq!(sandbox.set_temperature(x, 0, *t), Ok(()));
    }
    sandbox.update_states(&catalog);
    assert_eq!(sandbox.state(0, 0), Ok(AggregateState::Solid));
    assert_eq!(sandbox.state(1, 0), Ok(AggregateState::Solid));
    assert_eq!(sandbox.state(2, 0), Ok(AggregateState::Gas));
    assert_eq!(sandbox.state(3, 0), Ok(AggregateState::Gas));
}

#[test]
fn state_of_the_built_in_materials_at_ambient_temperature() {
    let catalog = Catalog::standard();
    let mut sandbox = Sandbox::new(14, 1);
    for x in 0..14 {
        assert_eq!(sandbox.set_material(x, 0, x), Ok(()));
    }
    sandbox.step(&catalog);
    let gas = AggregateState::Gas;
    let solid = AggregateState::Solid;
    let expected =
        [gas, gas, gas, gas, gas, solid, solid, solid, solid, solid, solid, solid, solid, solid];
    for x in 0..14 {
        assert_eq!(sandbox.state(x, 0), Ok(expected[x]));
    }
}

#[test]
fn single_dense_cell_falls_one_row_per_tick() {
    let catalog = weights();
    let n = 6;
    let mut sandbox = Sandbox::new(1, n + 1);
    assert_eq!(sandbox.set_material(0, 0, 2), Ok(()));
    for tick in 1..=n {
        sandbox.step(&catalog);
        let mut expected = vec![0; n + 1];
        expected[tick] = 2;
        assert_eq!(column(&sandbox, 0), expected);
        assert_at_rest(&sandbox);
    }
    // It has reached the bottom after exactly n ticks and stays there.
    sandbox.step(&catalog);
    let mut expected = vec![0; n + 1];
    expected[n] = 2;
    assert_eq!(column(&sandbox, 0), expected);
}

#[test]
fn stacked_dense_cells_fall_one_row_per_tick() {
    let catalog = weights();
    let mut sandbox = Sandbox::new(1, 5);
    fill_column(&mut sandbox, 0, &[2, 2, 0, 0, 0]);
    sandbox.step(&catalog);
    assert_eq!(column(&sandbox, 0), vec![2, 0, 2, 0, 0]);
    sandbox.step(&catalog);
    assert_eq!(column(&sandbox, 0), vec![0, 2, 0, 2, 0]);
    sandbox.step(&catalog);
    assert_eq!(column(&sandbox, 0), vec![0, 0, 2, 0, 2]);
    sandbox.step(&catalog);
    assert_eq!(column(&sandbox, 0), vec![0, 0, 0, 2, 2]);
    sandbox.step(&catalog);
    assert_eq!(column(&sandbox, 0), vec![0, 0, 0, 2, 2]);
}

#[test]
fn alternating_column_swaps_each_cell_once() {
    let catalog = weights();
    let mut sandbox = Sandbox::new(1, 4);
    fill_column(&mut sandbox, 0, &[2, 1, 2, 1]);
    let before = census(&sandbox);
    sandbox.step(&catalog);
    assert_eq!(column(&sandbox, 0), vec![1, 2, 1, 2]);
    assert_at_rest(&sandbox);
    assert_eq!(census(&sandbox), before);
    sandbox.step(&catalog);
    assert_eq!(column(&sandbox, 0), vec![1, 1, 2, 2]);
    assert_at_rest(&sandbox);
    assert_eq!(census(&sandbox), before);
}

#[test]
fn gravity_marks_the_cells_that_changed_places() {
    let catalog = weights();
    let mut sandbox = Sandbox::new(2, 5);
    fill_column(&mut sandbox, 0, &[2, 1, 0, 0, 2]);
    fill_column(&mut sandbox, 1, &[0, 0, 1, 0, 0]);
    sandbox.apply_gravity(&catalog);
    assert_eq!(column(&sandbox, 0), vec![1, 2, 0, 0, 2]);
    assert_eq!(column(&sandbox, 1), vec![0, 0, 0, 1, 0]);
    let marks: Vec<bool> = (0..5).map(|y| sandbox.moved(0, y).unwrap()).collect();
    assert_eq!(marks, vec![true, true, false, false, false]);
    let marks: Vec<bool> = (0..5).map(|y| sandbox.moved(1, y).unwrap()).collect();
    assert_eq!(marks, vec![false, false, true, true, false]);
    // Marked cells are left alone by another pass; the others go on.
    sandbox.apply_gravity(&catalog);
    assert_eq!(column(&sandbox, 0), vec![1, 2, 0, 0, 2]);
    assert_eq!(column(&sandbox, 1), vec![0, 0, 0, 1, 0]);
    sandbox.reset_moved();
    assert_at_rest(&sandbox);
    assert_eq!(column(&sandbox, 0), vec![1, 2, 0, 0, 2]);
    sandbox.apply_gravity(&catalog);
    assert_eq!(column(&sandbox, 0), vec![1, 0, 2, 0, 2]);
    assert_eq!(column(&sandbox, 1), vec![0, 0, 0, 0, 1]);
}

#[test]
fn gravity_moves_the_material_only() {
    let catalog = weights();
    let mut sandbox = Sandbox::new(1, 2);
    fill_column(&mut sandbox, 0, &[2, 0]);
    assert_eq!(sandbox.set_temperature(0, 0, 500), Ok(()));
    assert_eq!(sandbox.set_temperature(0, 1, -10), Ok(()));
    sandbox.step(&catalog);
    assert_eq!(
        sandbox.cell(0, 0),
        Ok(Cell { material: 0, temperature: 500, state: AggregateState::Gas, moved: false })
    );
    assert_eq!(
        sandbox.cell(0, 1),
        Ok(Cell { material: 2, temperature: -10, state: AggregateState::Solid, moved: false })
    );
}

#[test]
fn equal_weights_do_not_swap() {
    let catalog = weights();
    let mut sandbox = Sandbox::new(1, 4);
    fill_column(&mut sandbox, 0, &[1, 3, 1, 3]);
    sandbox.step(&catalog);
    assert_eq!(column(&sandbox, 0), vec![1, 3, 1, 3]);
}

#[test]
fn lighter_above_heavier_stays() {
    let catalog = weights();
    let mut sandbox = Sandbox::new(1, 3);
    fill_column(&mut sandbox, 0, &[0, 1, 2]);
    sandbox.step(&catalog);
    assert_eq!(column(&sandbox, 0), vec![0, 1, 2]);
}

#[test]
fn single_row_grid_is_unaffected_by_gravity() {
    let catalog = weights();
    let mut sandbox = Sandbox::new(4, 1);
    let row = [2, 0, 1, 2];
    for (x, m) in row.iter().enumerate() {
        assert_eq!(sandbox.set_material(x, 0, *m), Ok(()));
    }
    for _ in 0..5 {
        sandbox.apply_gravity(&catalog);
        for (x, m) in row.iter().enumerate() {
            assert_eq!(sandbox.material(x, 0), Ok(*m));
            assert_eq!(sandbox.moved(x, 0), Ok(false));
        }
    }
    for _ in 0..5 {
        sandbox.step(&catalog);
        for (x, m) in row.iter().enumerate() {
            assert_eq!(sandbox.material(x, 0), Ok(*m));
        }
    }
}

#[test]
fn settled_columns_stay_as_they_are() {
    // Two columns of three rows; material 1 weighs 10, material 0 nothing.
    let catalog = weights();
    let mut sandbox = Sandbox::new(2, 3);
    fill_column(&mut sandbox, 0, &[0, 0, 1]);
    fill_column(&mut sandbox, 1, &[0, 0, 0]);
    sandbox.step(&catalog);
    assert_eq!(column(&sandbox, 0), vec![0, 0, 1]);
    assert_eq!(column(&sandbox, 1), vec![0, 0, 0]);
    assert_at_rest(&sandbox);
}

#[test]
fn columns_do_not_interact() {
    let catalog = weights();
    let mut sandbox = Sandbox::new(3, 3);
    fill_column(&mut sandbox, 0, &[2, 0, 0]);
    fill_column(&mut sandbox, 1, &[0, 0, 0]);
    fill_column(&mut sandbox, 2, &[1, 2, 0]);
    sandbox.step(&catalog);
    assert_eq!(column(&sandbox, 0), vec![0, 2, 0]);
    assert_eq!(column(&sandbox, 1), vec![0, 0, 0]);
    assert_eq!(column(&sandbox, 2), vec![1, 0, 2]);
}

#[test]
fn step_keeps_the_dimensions() {
    let catalog = weights();
    let mut sandbox = Sandbox::new(5, 4);
    sandbox.step(&catalog);
    assert_eq!(sandbox.w(), 5);
    assert_eq!(sandbox.h(), 4);
    assert!(sandbox.fits(&catalog));
}

/// The walk of one column written out plainly, for comparison.
fn plain_gravity(column: &mut Vec<usize>, weight: &[u32]) {
    let mut moved = vec![false; column.len()];
    if column.is_empty() {
        return;
    }
    for y in 0..column.len() - 1 {
        if !moved[y] && !moved[y + 1] && weight[column[y]] > weight[column[y + 1]] {
            column.swap(y, y + 1);
            moved[y] = true;
            moved[y + 1] = true;
        }
    }
}

#[test]
fn step_agrees_with_a_plain_walk_and_keeps_the_materials() {
    let catalog = Catalog::standard();
    let weight: Vec<u32> = (0..catalog.len()).map(|id| catalog.lookup(id).weight).collect();
    let (w, h) = (9, 17);
    let mut sandbox = Sandbox::new(w, h);
    let mut seed: u64 = 0x2545_F491_4F6C_DD1D;
    for x in 0..w {
        for y in 0..h {
            seed = seed.wrapping_mul(6364136223846793005).wrapping_add(1442695040888963407);
            let m = ((seed >> 33) % 14) as usize;
            assert_eq!(sandbox.set_material(x, y, m), Ok(()));
        }
    }
    let before = census(&sandbox);
    let mut expected: Vec<Vec<usize>> = (0..w).map(|x| column(&sandbox, x)).collect();
    for _ in 0..40 {
        sandbox.step(&catalog);
        for x in 0..w {
            plain_gravity(&mut expected[x], &weight);
            assert_eq!(column(&sandbox, x), expected[x]);
        }
        assert_eq!(census(&sandbox), before);
        assert_at_rest(&sandbox);
    }
    // By now every column is sorted by weight, lightest on top.
    for x in 0..w {
        let col = column(&sandbox, x);
        for y in 0..h - 1 {
            assert!(weight[col[y]] <= weight[col[y + 1]]);
        }
    }
}
