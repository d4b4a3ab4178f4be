use chemarium::{react, Catalog, Cell, Command, Reaction, Received, Sandbox};

fn loaded() -> Sandbox {
    let mut sandbox = Sandbox::new(2, 3);
    assert_eq!(sandbox.set_material(0, 0, 9), Ok(()));
    assert_eq!(sandbox.set_temperature(1, 1, 3000), Ok(()));
    sandbox
}

fn cells(sandbox: &Sandbox) -> Vec<Cell> {
    let mut all = Vec::new();
    for x in 0..sandbox.w() {
        for y in 0..sandbox.h() {
            all.push(sandbox.cell(x, y).unwrap());
        }
    }
    all
}

#[test]
fn a_request_advances_the_grid_by_one_tick() {
    let catalog = Catalog::standard();
    let mut sandbox = loaded();
    let mut expected = loaded();
    expected.step(&catalog);
    let next = react(&mut sandbox, &catalog, Received::Request(Command::Pass(1)), false);
    assert_eq!(next, Reaction::Redraw);
    assert_eq!(cells(&sandbox), cells(&expected));
    assert_eq!(sandbox.material(0, 0), Ok(0));
    assert_eq!(sandbox.material(0, 1), Ok(9));
}

#[test]
fn the_time_of_a_request_does_not_count() {
    let catalog = Catalog::standard();
    let mut expected = loaded();
    expected.step(&catalog);
    for time in [0, 1, 2, 1000, u32::MAX] {
        let mut sandbox = loaded();
        let next = react(&mut sandbox, &catalog, Received::Request(Command::Pass(time)), false);
        assert_eq!(next, Reaction::Redraw);
        assert_eq!(cells(&sandbox), cells(&expected));
    }
}

#[test]
fn a_closed_window_ends_the_loop_before_the_tick() {
    let catalog = Catalog::standard();
    let mut sandbox = loaded();
    let next = react(&mut sandbox, &catalog, Received::Request(Command::Pass(1)), true);
    assert_eq!(next, Reaction::Stop);
    assert_eq!(cells(&sandbox), cells(&loaded()));
}

#[test]
fn a_lost_sender_ends_the_loop() {
    let catalog = Catalog::standard();
    let mut sandbox = loaded();
    assert_eq!(react(&mut sandbox, &catalog, Received::Disconnected, false), Reaction::Stop);
    assert_eq!(react(&mut sandbox, &catalog, Received::Disconnected, true), Reaction::Stop);
    assert_eq!(cells(&sandbox), cells(&loaded()));
}
