use mino_core::grid::{Grid, GridFormatOptions, GridFormatter, OverlayResult};

type MyCell = u8;

type MyGrid = Grid<MyCell>;

#[test]
fn lib_basic_test() {
    let mut grid = MyGrid::new(4, 8, vec![]);
    assert_eq!(4, grid.num_cols());
    assert_eq!(8, grid.num_rows());
    grid.set_cell(1, 2, 1);
    assert_eq!(0, grid.cell(0, 0));
    assert_eq!(1, grid.cell(1, 2));
    grid.reverse_rows();
    assert_eq!(0, grid.cell(1, 2));
    assert_eq!(1, grid.cell(1, 5));
}

#[test]
fn lib_overlay_test() {
    let mut grid = MyGrid::new(
        4,
        4,
        vec![
            0, 0, 0, 1, //
            0, 0, 0, 0, //
            0, 1, 0, 0, //
            0, 0, 0, 0, //
        ],
    );
    grid.reverse_rows();
    let mut sub = MyGrid::new(
        2,
        2,
        vec![
            0, 1, //
            1, 0, //
        ],
    );
    sub.reverse_rows();

    let r = grid.check_overlay(0, 0, &sub);
    assert_eq!(OverlayResult { overflow: false, overlap: true }, r);

    let r = grid.check_overlay(0, 1, &sub);
    assert!(r.is_empty());

    let r = grid.check_overlay(2, 3, &sub);
    assert_eq!(OverlayResult { overflow: true, overlap: false }, r);

    let r = grid.check_overlay(3, 3, &sub);
    assert!(r.contains(OverlayResult { overflow: true, overlap: false }));
    assert!(r.contains(OverlayResult { overflow: false, overlap: true }));

    assert_eq!(
        (0, OverlayResult { overflow: false, overlap: true }),
        grid.check_overlay_toward(0, 0, &sub, 1, 0)
    );
    assert_eq!(
        (2, OverlayResult { overflow: true, overlap: false }),
        grid.check_overlay_toward(1, 0, &sub, 1, 0)
    );
    assert_eq!(
        (1, OverlayResult { overflow: false, overlap: true }),
        grid.check_overlay_toward(1, 0, &sub, -1, 0)
    );

    let r = grid.overlay(0, 1, &sub);
    assert!(r.is_empty());
    assert_eq!(1, grid.cell(0, 1));
    assert_eq!(1, grid.cell(1, 2));
}

#[test]
fn padding_test() {
    let mut grid = MyGrid::new(
        2,
        5,
        vec![
            0, 0, //
            1, 0, //
            0, 1, //
            0, 0, //
            0, 0, //
        ],
    );
    grid.reverse_rows();
    assert_eq!(1, grid.top_padding());
    assert_eq!(2, grid.bottom_padding());

    let grid = MyGrid::new(1, 2, vec![]);
    assert_eq!(2, grid.top_padding());
    assert_eq!(2, grid.bottom_padding());
}

#[test]
fn eq_test() {
    let grid = MyGrid::new(1, 2, vec![1, 2]);
    assert_eq!(grid, grid.clone());
}

#[test]
fn rotate_test() {
    let mut grid = MyGrid::new(
        3,
        2,
        vec![
            1, 2, 3, //
            4, 5, 6, //
        ],
    );
    grid.reverse_rows();

    let mut expected1 = MyGrid::new(
        2,
        3,
        vec![
            4, 1, //
            5, 2, //
            6, 3, //
        ],
    );
    expected1.reverse_rows();

    let mut expected2 = MyGrid::new(
        3,
        2,
        vec![
            6, 5, 4, //
            3, 2, 1, //
        ],
    );
    expected2.reverse_rows();

    let mut expected3 = MyGrid::new(
        2,
        3,
        vec![
            3, 6, //
            2, 5, //
            1, 4, //
        ],
    );
    expected3.reverse_rows();

    assert_eq!(expected1, grid.rotate1());
    assert_eq!(expected2, grid.rotate2());
    assert_eq!(expected3, grid.rotate3());
}

#[test]
fn formatter_test() {
    let mut grid = MyGrid::new(2, 3, vec![1, 2, 3, 4, 5, 6]);
    grid.reverse_rows();
    assert_eq!(
        "12\n34\n56\n",
        GridFormatter::<MyCell> {
            grid: grid.clone(),
            opts: Default::default(),
        }
        .to_string(),
    );
    assert_eq!(
        "B3E\n",
        GridFormatter::<MyCell> {
            grid: grid,
            opts: GridFormatOptions {
                str_begin_of_line: "B",
                str_end_of_line: "E",
                range_x: Some((0, 1)),
                range_y: Some((1, 2)),
            },
        }
        .to_string(),
    );
}

#[test]
fn grid_basic_test() {
    let mut grid = MyGrid::new(4, 8, vec![]);
    assert_eq!(4, grid.num_cols());
    assert_eq!(8, grid.num_rows());
    grid.set_cell(1, 2, 1);
    assert_eq!(0, grid.cell(0, 0));
    assert_eq!(1, grid.cell(1, 2));
    grid.reverse_rows();
    assert_eq!(0, grid.cell(1, 2));
    assert_eq!(1, grid.cell(1, 5));
}

#[test]
fn grid_overlay_test() {
    let mut grid = MyGrid::new(
        4,
        4,
        vec![
            0, 0, 0, 1, //
            0, 0, 0, 0, //
            0, 1, 0, 0, //
            0, 0, 0, 0, //
        ],
    );
    grid.reverse_rows();
    let mut sub = MyGrid::new(
        2,
        2,
        vec![
            0, 1, //
            1, 0, //
        ],
    );
    sub.reverse_rows();

    let r = grid.check_overlay(0, 0, &sub);
    assert_eq!(OverlayResult { overflow: false, overlap: true }, r);

    let r = grid.check_overlay(0, 1, &sub);
    assert!(r.is_empty());

    let r = grid.check_overlay(2, 3, &sub);
    assert_eq!(OverlayResult { overflow: true, overlap: false }, r);

    let r = grid.check_overlay(3, 3, &sub);
    assert!(r.contains(OverlayResult { overflow: true, overlap: false }));
    assert!(r.contains(OverlayResult { overflow: false, overlap: true }));

    let r = grid.overlay(0, 1, &sub);
    assert!(r.is_empty());
    assert_eq!(1, grid.cell(0, 1));
    assert_eq!(1, grid.cell(1, 2));
}

#[test]
fn overlay_round_trip_test() {
    // a clean overlay leaves the piece present: re-checking the same
    // region now reports an overlap and still no overflow
    let grid0 = MyGrid::new(4, 4, vec![]);
    let sub = MyGrid::new(2, 2, vec![1, 0, 0, 1]);
    let mut grid = grid0.clone();
    assert!(grid.check_overlay(1, 1, &sub).is_empty());
    let r = grid.overlay(1, 1, &sub);
    assert!(r.is_empty());
    let r = grid.check_overlay(1, 1, &sub);
    assert_eq!(OverlayResult { overflow: false, overlap: true }, r);
}

#[test]
fn pluck_conservation_test() {
    // rows 0 and 2 filled, row 1 partially: plucking removes exactly
    // 2 * num_cols non-empty cells and leaves the rest at the bottom
    let mut grid = MyGrid::new(
        3,
        4,
        vec![
            1, 1, 1, //
            0, 7, 0, //
            2, 2, 2, //
            0, 0, 8, //
        ],
    );
    let count_nonempty = |g: &MyGrid| {
        let mut n = 0;
        for y in 0..g.num_rows() {
            for x in 0..g.num_cols() {
                if g.cell(x, y) != 0 {
                    n += 1;
                }
            }
        }
        n
    };
    let before = count_nonempty(&grid);
    assert_eq!(before, 8);
    let n = grid.pluck_filled_rows(Some(0));
    assert_eq!(n, 2);
    assert_eq!(count_nonempty(&grid), before - n * grid.num_cols());
    // the unfilled rows moved down, keeping their order
    assert_eq!(grid.cell(1, 0), 7);
    assert_eq!(grid.cell(2, 1), 8);
    assert_eq!(grid.cell(0, 2), 0);
    assert_eq!(grid.num_filled_rows(), 0);
}

#[test]
fn move_row_test() {
    let mut grid = MyGrid::new(2, 3, vec![1, 2, 3, 4, 5, 6]);
    grid.move_row(2, 0, Some(9));
    assert_eq!(grid.cell(0, 0), 5);
    assert_eq!(grid.cell(1, 0), 6);
    assert_eq!(grid.cell(0, 2), 9);
    assert_eq!(grid.cell(1, 2), 9);
    assert_eq!(grid.cell(0, 1), 3);
}

#[test]
fn map_test() {
    let mut grid = MyGrid::new(2, 2, vec![1, 2, 3, 4]);
    grid.map(|c: u8| c.wrapping_mul(2));
    assert_eq!(grid.cell(0, 0), 2);
    assert_eq!(grid.cell(1, 0), 4);
    assert_eq!(grid.cell(0, 1), 6);
    assert_eq!(grid.cell(1, 1), 8);
}
