use wasm_game_of_life::{Driver, FrameAction, Universe};

fn blinker() -> Universe {
    let mut universe = Universe::new(5, 5).unwrap();
    universe.set_cells(&[(1, 2), (2, 2), (3, 2)]);
    universe
}

#[test]
fn driver_starts_with_the_grid_it_was_given() {
    let driver = Driver::new(blinker(), 10);
    assert_eq!(driver.ticks(), 0);
    assert_eq!(driver.universe().render(), blinker().render());
}

#[test]
fn each_frame_is_one_generation() {
    let mut driver = Driver::new(blinker(), 10);
    let mut expected = blinker();
    for frame in 1..=10 {
        assert_eq!(driver.on_frame(), FrameAction::Redraw);
        expected.tick();
        assert_eq!(driver.ticks(), frame);
        assert_eq!(driver.universe().render(), expected.render());
    }
}

#[test]
fn driver_stops_at_its_bound() {
    let mut driver = Driver::new(blinker(), 3);
    assert_eq!(driver.on_frame(), FrameAction::Redraw);
    assert_eq!(driver.on_frame(), FrameAction::Redraw);
    assert_eq!(driver.on_frame(), FrameAction::Redraw);
    let last = driver.universe().render();
    assert_eq!(driver.on_frame(), FrameAction::Stop);
    assert_eq!(driver.on_frame(), FrameAction::Stop);
    assert_eq!(driver.ticks(), 3);
    assert_eq!(driver.universe().render(), last);
}

#[test]
fn driver_with_no_ticks_stops_at_once() {
    let mut driver = Driver::new(blinker(), 0);
    assert_eq!(driver.on_frame(), FrameAction::Stop);
    assert_eq!(driver.ticks(), 0);
    assert_eq!(driver.universe().render(), blinker().render());
}

#[test]
fn cancelled_driver_stops() {
    let mut driver = Driver::new(blinker(), u64::MAX);
    assert_eq!(driver.on_frame(), FrameAction::Redraw);
    let shown = driver.universe().render();
    driver.cancel();
    assert_eq!(driver.on_frame(), FrameAction::Stop);
    assert_eq!(driver.on_frame(), FrameAction::Stop);
    assert_eq!(driver.ticks(), 1);
    assert_eq!(driver.universe().render(), shown);
}
