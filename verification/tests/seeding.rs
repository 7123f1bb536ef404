use wasm_game_of_life::grid::SAMPLE_HALF;
use wasm_game_of_life::layout::{
    cell_start, extent_of, line_start, BORDER_SIZE, CELL_SIZE, FALLBACK_EXTENT,
};
use wasm_game_of_life::{GridError, Universe, WindowInfo};

fn samples(count: usize, seed: u64) -> Vec<u64> {
    let mut state = seed;
    let mut drawn = Vec::new();
    for _ in 0..count {
        state = state
            .wrapping_mul(6364136223846793005)
            .wrapping_add(1442695040888963407);
        drawn.push(state ^ (state >> 29));
    }
    drawn
}

fn sample_of(fraction: f64) -> u64 {
    (fraction * 18446744073709551616.0) as u64
}

#[test]
fn new_random() {
    let universe = Universe::new_random(12, 12, &samples(144, 7)).unwrap();
    assert_eq!(universe.width(), 12);
    assert_eq!(universe.height(), 12);
}

#[test]
fn tick() {
    let mut universe = Universe::new_random(12, 12, &samples(144, 7)).unwrap();
    let before = universe.render();
    universe.tick();
    let next = universe.render();
    assert_ne!(before, next);
}

#[test]
fn half_is_the_threshold() {
    assert_eq!(SAMPLE_HALF, 1u64 << 63);
    let drawn = [0, 1, SAMPLE_HALF - 1, SAMPLE_HALF, SAMPLE_HALF + 1, u64::MAX];
    let universe = Universe::new_random(3, 2, &drawn).unwrap();
    assert_eq!(universe.render(), "◻◻◻\n◻◼◼\n");
    assert!(!universe.cell_at(1, 0));
    assert!(universe.cell_at(1, 1));
    assert!(universe.cell_at(1, 2));
}

#[test]
fn samples_are_fractions_of_one() {
    assert_eq!(sample_of(0.5), SAMPLE_HALF);
    let drawn = [
        sample_of(0.0),
        sample_of(0.25),
        sample_of(0.5),
        sample_of(0.5000000000000001),
        sample_of(0.75),
        sample_of(0.9999999999999999),
    ];
    let universe = Universe::new_random(2, 3, &drawn).unwrap();
    assert_eq!(universe.render(), "◻◻\n◻◼\n◼◼\n");
}

#[test]
fn samples_fill_the_grid_row_by_row() {
    let mut drawn = vec![0u64; 12];
    drawn[5] = u64::MAX;
    drawn[11] = u64::MAX;
    let universe = Universe::new_random(4, 3, &drawn).unwrap();
    assert_eq!(universe.width(), 4);
    assert_eq!(universe.height(), 3);
    assert_eq!(universe.render(), "◻◻◻◻\n◻◼◻◻\n◻◻◻◼\n");
    let universe = Universe::new_random(3, 4, &drawn).unwrap();
    assert_eq!(universe.width(), 3);
    assert_eq!(universe.height(), 4);
    assert_eq!(universe.render(), "◻◻◻\n◻◻◼\n◻◻◻\n◻◻◼\n");
}

#[test]
fn constant_samples_give_a_constant_grid() {
    let dead = Universe::new_random(5, 5, &[SAMPLE_HALF; 25]).unwrap();
    assert_eq!(dead.cells().count_ones(..), 0);
    let alive = Universe::new_random(5, 5, &[u64::MAX; 25]).unwrap();
    assert_eq!(alive.cells().count_ones(..), 25);
    assert_eq!(alive.cells().len(), 25);
}

#[test]
fn wrong_number_of_samples_is_rejected() {
    assert_eq!(
        Universe::new_random(3, 3, &samples(8, 1)).err(),
        Some(GridError::SampleCount)
    );
    assert_eq!(
        Universe::new_random(3, 3, &samples(10, 1)).err(),
        Some(GridError::SampleCount)
    );
    assert_eq!(
        Universe::new_random(3, 3, &[]).err(),
        Some(GridError::SampleCount)
    );
    assert!(Universe::new_random(3, 3, &samples(9, 1)).is_ok());
}

#[test]
fn dimensions_are_checked_before_samples() {
    assert_eq!(
        Universe::new_random(0, 3, &[]).err(),
        Some(GridError::ZeroDimension)
    );
    assert_eq!(
        Universe::new_random(3, 0, &samples(3, 1)).err(),
        Some(GridError::ZeroDimension)
    );
    assert_eq!(
        Universe::new_random(usize::MAX, 3, &samples(3, 1)).err(),
        Some(GridError::TooLarge)
    );
}

#[test]
fn window_constants() {
    assert_eq!(CELL_SIZE, 3);
    assert_eq!(BORDER_SIZE, 1);
    assert_eq!(FALLBACK_EXTENT, 400);
}

#[test]
fn window_info_takes_what_was_measured() {
    let info = WindowInfo::new(Some(1280), Some(720));
    assert_eq!(info.inner_width, 1280);
    assert_eq!(info.inner_height, 720);
}

#[test]
fn window_info_falls_back_to_four_hundred() {
    let info = WindowInfo::new(None, None);
    assert_eq!(info.inner_width, 400);
    assert_eq!(info.inner_height, 400);
    let info = WindowInfo::new(Some(17), None);
    assert_eq!(info.inner_width, 17);
    assert_eq!(info.inner_height, 400);
    let info = WindowInfo::new(None, Some(0));
    assert_eq!(info.inner_width, 400);
    assert_eq!(info.inner_height, 0);
}

#[test]
fn grid_size_of_a_window() {
    let info = WindowInfo::new(None, None);
    assert_eq!(info.grid_width(), 99);
    assert_eq!(info.grid_height(), 99);
    let info = WindowInfo::new(Some(401), Some(405));
    assert_eq!(info.grid_width(), 100);
    assert_eq!(info.grid_height(), 101);
    let info = WindowInfo::new(Some(1280), Some(720));
    assert_eq!(info.grid_width(), 319);
    assert_eq!(info.grid_height(), 179);
}

#[test]
fn grid_size_of_a_small_window() {
    for (extent, cells) in [(0, 0), (1, 0), (4, 0), (5, 1), (8, 1), (9, 2)] {
        let info = WindowInfo::new(Some(extent), Some(extent));
        assert_eq!(info.grid_width(), cells);
        assert_eq!(info.grid_height(), cells);
    }
    let info = WindowInfo::new(Some(usize::MAX), Some(usize::MAX));
    assert_eq!(info.grid_width(), (usize::MAX - 1) / 4);
}

#[test]
fn grid_fills_the_window() {
    let info = WindowInfo::new(Some(21), Some(13));
    let universe = Universe::new_by_window_info(&info, &samples(15, 3)).unwrap();
    assert_eq!(universe.width(), 5);
    assert_eq!(universe.height(), 3);
    assert_eq!(universe.cells().len(), 15);
    let same = Universe::new_random(5, 3, &samples(15, 3)).unwrap();
    assert_eq!(universe.render(), same.render());
}

#[test]
fn grid_of_the_fallback_window() {
    let info = WindowInfo::new(None, None);
    let universe = Universe::new_by_window_info(&info, &samples(99 * 99, 11)).unwrap();
    assert_eq!(universe.width(), 99);
    assert_eq!(universe.height(), 99);
    let alive = universe.cells().count_ones(..);
    assert!(alive > 0 && alive < 99 * 99);
}

#[test]
fn window_too_small_for_a_cell_has_no_grid() {
    let info = WindowInfo::new(Some(4), Some(400));
    assert_eq!(
        Universe::new_by_window_info(&info, &[]).err(),
        Some(GridError::ZeroDimension)
    );
    let info = WindowInfo::new(Some(400), Some(0));
    assert_eq!(
        Universe::new_by_window_info(&info, &[]).err(),
        Some(GridError::ZeroDimension)
    );
    let info = WindowInfo::new(Some(9), Some(9));
    assert_eq!(
        Universe::new_by_window_info(&info, &samples(3, 1)).err(),
        Some(GridError::SampleCount)
    );
}

#[test]
fn positions_on_the_canvas() {
    assert_eq!(line_start(0), Some(0));
    assert_eq!(line_start(1), Some(4));
    assert_eq!(line_start(99), Some(396));
    assert_eq!(cell_start(0), Some(1));
    assert_eq!(cell_start(1), Some(5));
    assert_eq!(cell_start(98), Some(393));
    assert_eq!(extent_of(0), Some(1));
    assert_eq!(extent_of(1), Some(5));
    assert_eq!(extent_of(99), Some(397));
    assert_eq!(extent_of(100), Some(401));
}

#[test]
fn positions_beyond_the_canvas() {
    let most = usize::MAX / 4;
    assert_eq!(line_start(most), Some(usize::MAX - 3));
    assert_eq!(cell_start(most), Some(usize::MAX - 2));
    assert_eq!(extent_of(most), Some(usize::MAX - 2));
    assert_eq!(line_start(most + 1), None);
    assert_eq!(cell_start(most + 1), None);
    assert_eq!(extent_of(most + 1), None);
    assert_eq!(line_start(usize::MAX), None);
    assert_eq!(cell_start(usize::MAX), None);
    assert_eq!(extent_of(usize::MAX), None);
}

#[test]
fn grid_of_a_window_fits_it() {
    for extent in [1, 2, 5, 8, 9, 400, 401, 1279, 1280, 4096] {
        let info = WindowInfo::new(Some(extent), Some(extent));
        let cells = info.grid_width();
        assert!(extent_of(cells).unwrap() <= extent);
        assert!(extent_of(cells + 1).unwrap() > extent);
    }
}
