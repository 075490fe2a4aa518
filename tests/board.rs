use r2048::board::{Board, Direction};

fn board_from(rows: [[u32; 4]; 4]) -> Board {
    let mut b = Board::new();
    for r in 0..4 {
        for c in 0..4 {
            b.set(r, c, rows[r][c]);
        }
    }
    b
}

fn row_board(row: [u32; 4]) -> Board {
    board_from([row, [0; 4], [0; 4], [0; 4]])
}

fn is_tile(v: u32) -> bool {
    v == 0 || (v >= 2 && v.is_power_of_two())
}

const NO_PAIRS: [[u32; 4]; 4] = [
    [2, 4, 2, 4],
    [4, 2, 4, 2],
    [2, 4, 2, 4],
    [4, 2, 4, 2],
];

#[test]
fn new_board_is_empty() {
    let b = Board::new();
    assert_eq!(b.snapshot(), [[0; 4]; 4]);
    assert_eq!(b.score(), 0);
    assert_eq!(b.empty_cells(), (0..16).collect::<Vec<usize>>());
}

#[test]
fn set_and_cell_read_back() {
    let mut b = Board::new();
    b.set(2, 3, 8);
    assert_eq!(b.cell(2, 3), 8);
    assert_eq!(b.snapshot()[2][3], 8);
    b.clear();
    assert_eq!(b.snapshot(), [[0; 4]; 4]);
}

#[test]
fn slide_left_merges_pair() {
    let mut b = row_board([2, 2, 0, 0]);
    assert!(b.slide(Direction::Left));
    assert_eq!(b.snapshot()[0], [4, 0, 0, 0]);
}

#[test]
fn slide_left_four_equal_makes_two_merges() {
    let mut b = row_board([2, 2, 2, 2]);
    assert!(b.slide(Direction::Left));
    assert_eq!(b.snapshot()[0], [4, 4, 0, 0]);
}

#[test]
fn slide_right_merged_tile_stays() {
    let mut b = row_board([2, 0, 2, 4]);
    assert!(b.slide(Direction::Right));
    assert_eq!(b.snapshot()[0], [0, 0, 4, 4]);
}

#[test]
fn merged_tile_does_not_merge_again() {
    let mut b = row_board([4, 4, 8, 0]);
    assert!(b.slide(Direction::Left));
    assert_eq!(b.snapshot()[0], [8, 8, 0, 0]);
    let mut b = row_board([2, 2, 4, 8]);
    assert!(b.slide(Direction::Left));
    assert_eq!(b.snapshot()[0], [4, 4, 8, 0]);
}

#[test]
fn slide_up_and_down_work_on_columns() {
    let mut b = board_from([[2, 0, 0, 0], [2, 0, 0, 8], [0, 0, 0, 0], [4, 0, 0, 8]]);
    assert!(b.slide(Direction::Up));
    assert_eq!(
        b.snapshot(),
        [[4, 0, 0, 16], [4, 0, 0, 0], [0, 0, 0, 0], [0, 0, 0, 0]]
    );
    let mut b = board_from([[2, 0, 0, 0], [2, 0, 0, 8], [0, 0, 0, 0], [4, 0, 0, 8]]);
    assert!(b.slide(Direction::Down));
    assert_eq!(
        b.snapshot(),
        [[0, 0, 0, 0], [0, 0, 0, 0], [4, 0, 0, 0], [4, 0, 0, 16]]
    );
}

#[test]
fn slide_without_change_reports_false() {
    let mut b = row_board([2, 4, 0, 0]);
    assert!(!b.slide(Direction::Left));
    assert_eq!(b.snapshot()[0], [2, 4, 0, 0]);
    let mut full = board_from(NO_PAIRS);
    for d in [Direction::Up, Direction::Down, Direction::Left, Direction::Right] {
        assert!(!full.slide(d));
        assert_eq!(full.snapshot(), NO_PAIRS);
    }
}

#[test]
fn second_unchanged_slide_keeps_grid() {
    let mut b = board_from([[2, 2, 4, 0], [0, 8, 0, 8], [16, 16, 16, 0], [2, 0, 0, 2]]);
    assert!(b.slide(Direction::Left));
    let after_first = b.snapshot();
    assert_eq!(
        after_first,
        [[4, 4, 0, 0], [16, 0, 0, 0], [32, 16, 0, 0], [4, 0, 0, 0]]
    );
    if !b.slide(Direction::Left) {
        assert_eq!(b.snapshot(), after_first);
    }
    let mut c = row_board([4, 2, 0, 0]);
    assert!(!c.slide(Direction::Left));
    let once = c.snapshot();
    assert!(!c.slide(Direction::Left));
    assert_eq!(c.snapshot(), once);
}

#[test]
fn slide_keeps_sum_and_tile_values() {
    let mut b = board_from([[2, 2, 4, 8], [8, 8, 8, 8], [0, 4, 4, 0], [1024, 1024, 2, 2]]);
    let before = b.score();
    b.slide(Direction::Left);
    assert_eq!(b.score(), before);
    assert!(b.snapshot().iter().flatten().all(|v| is_tile(*v)));
    assert_eq!(b.snapshot()[3], [2048, 4, 0, 0]);
}

#[test]
fn won_iff_2048_present() {
    let mut b = Board::new();
    assert!(!b.won());
    b.set(3, 1, 2048);
    assert!(b.won());
    let mut full = board_from(NO_PAIRS);
    assert!(!full.won());
    full.set(0, 0, 2048);
    assert!(full.won());
    let mut near = Board::new();
    near.set(1, 1, 1024);
    near.set(1, 2, 4096);
    assert!(!near.won());
}

#[test]
fn lost_on_full_grid_without_pairs() {
    let b = board_from(NO_PAIRS);
    assert!(b.lost());
}

#[test]
fn not_lost_with_empty_cell_or_pair() {
    let mut b = board_from(NO_PAIRS);
    b.set(2, 2, 0);
    assert!(!b.lost());
    let mut h = board_from(NO_PAIRS);
    h.set(3, 3, 4);
    assert!(!h.lost());
    let mut v = board_from(NO_PAIRS);
    v.set(1, 0, 2);
    assert!(!v.lost());
    assert!(!Board::new().lost());
}

#[test]
fn score_is_sum_of_cells() {
    let b = board_from([[2, 4, 0, 0], [0, 0, 8, 0], [0, 0, 0, 0], [0, 0, 0, 2048]]);
    assert_eq!(b.score(), 2062);
}

#[test]
fn spawn_on_full_grid_does_nothing() {
    let mut b = board_from(NO_PAIRS);
    assert!(!b.spawn());
    assert_eq!(b.snapshot(), NO_PAIRS);
}

#[test]
fn spawn_fills_the_only_empty_cell() {
    for _ in 0..50 {
        let mut b = board_from(NO_PAIRS);
        b.set(1, 2, 0);
        assert!(b.spawn());
        let v = b.cell(1, 2);
        assert!(v == 2 || v == 4);
        assert_eq!(b.empty_cells(), Vec::<usize>::new());
    }
}

#[test]
fn spawn_writes_one_new_tile() {
    let mut b = row_board([2, 4, 0, 0]);
    assert!(b.spawn());
    let cells: Vec<u32> = b.snapshot().iter().flatten().copied().collect();
    assert_eq!(cells.iter().filter(|v| **v != 0).count(), 3);
    assert_eq!(&cells[0..2], &[2, 4]);
    assert!(cells.iter().all(|v| *v == 0 || *v == 2 || *v == 4));
}

#[test]
fn spawn_reaches_more_than_one_cell() {
    let mut seen = std::collections::HashSet::new();
    for _ in 0..200 {
        let mut b = Board::new();
        b.spawn();
        seen.insert(b.empty_cells().len());
        let pos = (0..16).find(|i| b.cell(i / 4, i % 4) != 0).unwrap();
        seen.insert(100 + pos);
    }
    assert!(seen.iter().filter(|k| **k >= 100).count() > 1);
}

#[test]
fn spawn_at_writes_into_kth_empty_cell() {
    let mut b = row_board([2, 0, 4, 0]);
    assert_eq!(b.empty_cells()[..3], [1, 3, 4]);
    b.spawn_at(1, true);
    assert_eq!(b.snapshot()[0], [2, 0, 4, 4]);
    b.spawn_at(0, false);
    assert_eq!(b.snapshot()[0], [2, 2, 4, 4]);
}

#[test]
fn reset_places_two_twos() {
    for _ in 0..50 {
        let mut b = board_from(NO_PAIRS);
        b.reset();
        let cells: Vec<u32> = b.snapshot().iter().flatten().copied().collect();
        assert_eq!(cells.iter().filter(|v| **v == 2).count(), 2);
        assert_eq!(cells.iter().filter(|v| **v == 0).count(), 14);
        assert_eq!(b.score(), 4);
    }
}

#[test]
fn reset_at_places_given_cells() {
    let mut b = row_board([8, 8, 8, 8]);
    b.reset_at(0, 15);
    assert_eq!(
        b.snapshot(),
        [[2, 0, 0, 0], [0, 0, 0, 0], [0, 0, 0, 0], [0, 0, 0, 2]]
    );
}

#[test]
fn largest_tile_does_not_merge() {
    let top = 0x8000_0000u32;
    let mut b = row_board([top, top, 0, 0]);
    assert!(!b.slide(Direction::Left));
    assert_eq!(b.snapshot()[0], [top, top, 0, 0]);
    let half = 0x4000_0000u32;
    let mut c = row_board([half, half, 0, 0]);
    assert!(c.slide(Direction::Left));
    assert_eq!(c.snapshot()[0], [top, 0, 0, 0]);
}

#[test]
fn cells_lists_every_position() {
    let mut b = Board::new();
    b.set(1, 2, 32);
    let all = b.cells();
    assert_eq!(all.len(), 16);
    assert_eq!(all[0], (0, 0, 0));
    assert_eq!(all[6], (1, 2, 32));
    assert_eq!(all[15], (3, 3, 0));
}
