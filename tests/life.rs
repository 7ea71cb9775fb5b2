use subpixel_life::GameOfLife;

fn snapshot(game: &GameOfLife) -> Vec<bool> {
    let mut cells = Vec::new();
    for y in 0..game.height() {
        for x in 0..game.width() {
            cells.push(game.cell(x, y));
        }
    }
    cells
}

fn live_cells(game: &GameOfLife) -> Vec<(u32, u32)> {
    let mut live = Vec::new();
    for y in 0..game.height() {
        for x in 0..game.width() {
            if game.cell(x, y) {
                live.push((x, y));
            }
        }
    }
    live
}

#[test]
fn new_grid_is_all_dead() {
    let game = GameOfLife::new(6, 4);
    assert_eq!(game.width(), 6);
    assert_eq!(game.height(), 4);
    assert!(live_cells(&game).is_empty());
}

#[test]
fn index_is_row_major() {
    let game = GameOfLife::new(9, 4);
    assert_eq!(game.index(0, 0), 0);
    assert_eq!(game.index(8, 0), 8);
    assert_eq!(game.index(0, 1), 9);
    assert_eq!(game.index(4, 3), 31);
}

#[test]
fn set_cell_writes_one_cell() {
    let mut game = GameOfLife::new(6, 3);
    game.set_cell(4, 2, true);
    assert_eq!(live_cells(&game), vec![(4, 2)]);
    game.set_cell(4, 2, false);
    assert!(live_cells(&game).is_empty());
}

#[test]
fn single_cell_neighbor_counts() {
    // A 6 by 5 grid: the width must be a multiple of three.
    let mut game = GameOfLife::new(6, 5);
    game.set_cell(2, 2, true);
    for y in 0..5u32 {
        for x in 0..6u32 {
            let count = game.count_alive_neighbors(x, y);
            let touching = (x, y) != (2, 2) && (1..=3).contains(&x) && (1..=3).contains(&y);
            if touching {
                assert_eq!(count, 1, "cell ({}, {})", x, y);
            } else {
                assert_eq!(count, 0, "cell ({}, {})", x, y);
            }
        }
    }
    assert_eq!(game.count_alive_neighbors(0, 0), 0);
    assert_eq!(game.count_alive_neighbors(4, 4), 0);
    assert_eq!(game.count_alive_neighbors(2, 0), 0);
}

#[test]
fn corner_cell_is_clipped_at_the_edges() {
    for n in [3u32, 6, 9] {
        let mut game = GameOfLife::new(n, n);
        game.set_cell(0, 0, true);
        let mut counted = Vec::new();
        for y in 0..n {
            for x in 0..n {
                let count = game.count_alive_neighbors(x, y);
                assert!(count <= 1);
                if count == 1 {
                    counted.push((x, y));
                }
            }
        }
        assert_eq!(counted, vec![(1, 0), (0, 1), (1, 1)]);
        assert_eq!(game.count_alive_neighbors(n - 1, n - 1), 0);
    }
}

#[test]
fn full_neighborhood_counts_eight() {
    let mut game = GameOfLife::new(3, 3);
    for y in 0..3 {
        for x in 0..3 {
            game.set_cell(x, y, true);
        }
    }
    assert_eq!(game.count_alive_neighbors(1, 1), 8);
    assert_eq!(game.count_alive_neighbors(0, 0), 3);
    assert_eq!(game.count_alive_neighbors(1, 0), 5);
}

#[test]
fn block_is_a_still_life() {
    let mut game = GameOfLife::new(6, 6);
    for (x, y) in [(2, 2), (3, 2), (2, 3), (3, 3)] {
        game.set_cell(x, y, true);
    }
    let before = snapshot(&game);
    for _ in 0..10 {
        game.tick();
        assert_eq!(snapshot(&game), before);
    }
}

#[test]
fn block_in_a_corner_is_a_still_life() {
    let mut game = GameOfLife::new(3, 2);
    for (x, y) in [(0, 0), (1, 0), (0, 1), (1, 1)] {
        game.set_cell(x, y, true);
    }
    game.tick();
    game.tick();
    assert_eq!(live_cells(&game), vec![(0, 0), (1, 0), (0, 1), (1, 1)]);
}

#[test]
fn blinker_has_period_two() {
    let mut game = GameOfLife::new(3, 3);
    game.set_cell(1, 0, true);
    game.set_cell(1, 1, true);
    game.set_cell(1, 2, true);
    let vertical = vec![(1, 0), (1, 1), (1, 2)];
    let horizontal = vec![(0, 1), (1, 1), (2, 1)];
    assert_eq!(live_cells(&game), vertical);
    for _ in 0..4 {
        game.tick();
        assert_eq!(live_cells(&game), horizontal);
        game.tick();
        assert_eq!(live_cells(&game), vertical);
    }
}

fn seeded_glider() -> GameOfLife {
    let mut game = GameOfLife::new(30, 20);
    game.set_cell(10, 10, true);
    game.set_cell(11, 11, true);
    game.set_cell(12, 11, true);
    game.set_cell(12, 10, true);
    game.set_cell(12, 9, true);
    game
}

#[test]
fn identical_runs_agree() {
    let mut a = seeded_glider();
    let mut b = seeded_glider();
    for _ in 0..25 {
        a.tick();
        b.tick();
        assert_eq!(snapshot(&a), snapshot(&b));
    }
    assert!(!live_cells(&a).is_empty());
}

#[test]
fn glider_moves_one_cell_diagonally_every_four_steps() {
    let mut game = seeded_glider();
    let start = live_cells(&game);
    for _ in 0..4 {
        game.tick();
    }
    let moved: Vec<(u32, u32)> = start.iter().map(|&(x, y)| (x + 1, y + 1)).collect();
    let mut moved_sorted = moved.clone();
    moved_sorted.sort_by_key(|&(x, y)| (y, x));
    assert_eq!(live_cells(&game), moved_sorted);
}

#[test]
fn step_reads_only_the_previous_generation() {
    // Updating in place, row by row, would see (1, 0) already dead when
    // (0, 1) is computed and lose the new horizontal phase.
    let mut game = GameOfLife::new(3, 3);
    game.set_cell(1, 0, true);
    game.set_cell(1, 1, true);
    game.set_cell(1, 2, true);
    game.tick();
    assert_eq!(snapshot(&game), vec![false, false, false, true, true, true, false, false, false]);
}

#[test]
fn lonely_and_crowded_cells_die() {
    let mut game = GameOfLife::new(6, 3);
    game.set_cell(0, 0, true);
    game.set_cell(5, 2, true);
    game.tick();
    assert!(live_cells(&game).is_empty());

    let mut crowded = GameOfLife::new(3, 3);
    for (x, y) in [(1, 1), (0, 0), (2, 0), (0, 2), (2, 2)] {
        crowded.set_cell(x, y, true);
    }
    crowded.tick();
    // The centre had four neighbours; each corner had one.
    assert_eq!(live_cells(&crowded), vec![(1, 0), (0, 1), (2, 1), (1, 2)]);
}

#[test]
fn subpixel_channels_follow_three_cells() {
    let mut game = GameOfLife::new(6, 2);
    game.set_cell(0, 0, true);
    game.set_cell(1, 0, false);
    game.set_cell(2, 0, true);
    let mut pixels = vec![0u32; 4];
    game.draw(&mut pixels);
    assert_eq!(pixels[0], 0xFFFF_00FF);

    game.set_cell(1, 0, true);
    game.draw(&mut pixels);
    assert_eq!(pixels[0], 0xFFFF_FFFF);
    assert_eq!(pixels[1], 0xFF00_0000);
}

#[test]
fn draw_maps_every_pixel_to_its_cells() {
    let mut game = GameOfLife::new(6, 2);
    game.set_cell(4, 0, true);
    game.set_cell(3, 1, true);
    game.set_cell(5, 1, true);
    let mut pixels = vec![7u32; 4];
    game.draw(&mut pixels);
    assert_eq!(pixels, vec![0xFF00_0000, 0xFF00_FF00, 0xFF00_0000, 0xFFFF_00FF]);
}

#[test]
fn draw_fills_a_prefix_of_the_screen() {
    let mut game = GameOfLife::new(6, 2);
    game.set_cell(2, 0, true);
    let mut pixels = vec![0u32; 1];
    game.draw(&mut pixels);
    assert_eq!(pixels, vec![0xFF00_00FF]);
}

#[test]
fn draw_shows_the_generation_after_a_tick() {
    let mut game = GameOfLife::new(3, 3);
    game.set_cell(1, 0, true);
    game.set_cell(1, 1, true);
    game.set_cell(1, 2, true);
    let mut pixels = vec![0u32; 3];
    game.draw(&mut pixels);
    assert_eq!(pixels, vec![0xFF00_FF00, 0xFF00_FF00, 0xFF00_FF00]);
    game.tick();
    game.draw(&mut pixels);
    assert_eq!(pixels, vec![0xFF00_0000, 0xFFFF_FFFF, 0xFF00_0000]);
}
