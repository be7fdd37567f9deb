use meenle_noonle::{draw_line, fill_buffer, generate_background, get_buffer, plot_pixel, Canvas, Pixel, HEIGHT, WIDTH};

fn ready_canvas() -> Canvas {
    let mut canvas = Canvas::new();
    generate_background(&mut canvas);
    fill_buffer(&mut canvas);
    canvas
}

/// The white cells of the live buffer as (column, row), in row-major order.
fn white_cells(canvas: &Canvas) -> Vec<(usize, usize)> {
    let fb = get_buffer(canvas);
    let mut cells = Vec::new();
    for row in 0..HEIGHT {
        for col in 0..WIDTH {
            if fb.get(row, col) == Some(Pixel::white()) {
                cells.push((col, row));
            }
        }
    }
    cells
}

/// The stepping loop written out plainly, collecting (column, row) of each
/// plot after the out-of-grid rule.
fn reference_line(x0: i32, y0: i32, x1: i32, y1: i32) -> Vec<(usize, usize)> {
    let half = (WIDTH / 2) as i64;
    let (mut x0, mut y0, mut x1, mut y1) =
        (x0 as i64 + half, y0 as i64 + half, x1 as i64 + half, y1 as i64 + half);
    let steep = (y1 - y0).abs() > (x1 - x0).abs();
    if steep {
        std::mem::swap(&mut x0, &mut y0);
        std::mem::swap(&mut x1, &mut y1);
    }
    if x0 > x1 {
        std::mem::swap(&mut x0, &mut x1);
        std::mem::swap(&mut y0, &mut y1);
    }
    let dx = x1 - x0;
    let dy = (y1 - y0).abs();
    let mut error = dx / 2;
    let ystep = if y0 < y1 { 1 } else { -1 };
    let mut y = y0;
    let mut cells = Vec::new();
    for x in x0..=x1 {
        let (col, row) = if steep { (y, x) } else { (x, y) };
        if 0 <= col && col < WIDTH as i64 && 0 <= row && row < HEIGHT as i64 {
            cells.push((col as usize, row as usize));
        } else {
            cells.push((0, 0));
        }
        error -= dy;
        if error < 0 {
            y += ystep;
            error += dx;
        }
    }
    cells.sort_by_key(|&(col, row)| (row, col));
    cells.dedup();
    cells
}

#[test]
fn background_has_no_white_cell() {
    let canvas = ready_canvas();
    assert_eq!(white_cells(&canvas), vec![]);
}

#[test]
fn horizontal_segment_plots_five_cells() {
    let mut canvas = ready_canvas();
    draw_line(&mut canvas, -2, 0, 2, 0);
    assert_eq!(
        white_cells(&canvas),
        vec![(248, 250), (249, 250), (250, 250), (251, 250), (252, 250)]
    );
}

#[test]
fn degenerate_segment_plots_one_cell() {
    let mut canvas = ready_canvas();
    draw_line(&mut canvas, 0, 0, 0, 0);
    assert_eq!(white_cells(&canvas), vec![(250, 250)]);
}

#[test]
fn vertical_segment_runs_down_the_rows() {
    let mut canvas = ready_canvas();
    draw_line(&mut canvas, 3, -1, 3, 2);
    assert_eq!(white_cells(&canvas), vec![(253, 249), (253, 250), (253, 251), (253, 252)]);
}

#[test]
fn larger_y_is_a_lower_row() {
    let mut canvas = ready_canvas();
    draw_line(&mut canvas, 0, 10, 0, 10);
    assert_eq!(white_cells(&canvas), vec![(250, 260)]);
}

#[test]
fn shallow_segment_steps_at_the_half() {
    // dx = 4, dy = 2: the error starts at 2 and the row changes before the
    // third and before the fifth plot.
    let mut canvas = ready_canvas();
    draw_line(&mut canvas, 0, 0, 4, 2);
    assert_eq!(
        white_cells(&canvas),
        vec![(250, 250), (251, 250), (252, 251), (253, 251), (254, 252)]
    );
}

#[test]
fn shallow_segment_with_odd_run() {
    // dx = 5, dy = 2: the error starts at 2.
    let mut canvas = ready_canvas();
    draw_line(&mut canvas, 0, 0, 5, 2);
    assert_eq!(
        white_cells(&canvas),
        vec![(250, 250), (251, 250), (252, 251), (253, 251), (254, 252), (255, 252)]
    );
}

#[test]
fn rising_segment_steps_up_the_rows() {
    let mut canvas = ready_canvas();
    draw_line(&mut canvas, 0, 0, 4, -2);
    assert_eq!(
        white_cells(&canvas),
        vec![(254, 248), (252, 249), (253, 249), (250, 250), (251, 250)]
    );
}

#[test]
fn steep_segment_steps_along_the_rows() {
    let mut canvas = ready_canvas();
    draw_line(&mut canvas, 0, 0, 2, 4);
    assert_eq!(
        white_cells(&canvas),
        vec![(250, 250), (250, 251), (251, 252), (251, 253), (252, 254)]
    );
}

#[test]
fn diagonal_is_not_steep() {
    let mut canvas = ready_canvas();
    draw_line(&mut canvas, -1, -1, 1, 1);
    assert_eq!(white_cells(&canvas), vec![(249, 249), (250, 250), (251, 251)]);
}

#[test]
fn direction_does_not_matter() {
    for &(x0, y0, x1, y1) in &[(0, 0, 4, 2), (-7, 3, 12, -40), (5, 5, 5, -5), (-3, 9, 30, 10)] {
        let mut forth = ready_canvas();
        draw_line(&mut forth, x0, y0, x1, y1);
        let mut back = ready_canvas();
        draw_line(&mut back, x1, y1, x0, y0);
        assert_eq!(white_cells(&forth), white_cells(&back));
    }
}

#[test]
fn both_ends_are_plotted() {
    let mut canvas = ready_canvas();
    draw_line(&mut canvas, -17, 40, 123, -9);
    let fb = get_buffer(&canvas);
    assert_eq!(fb.get(290, 233), Some(Pixel::white()));
    assert_eq!(fb.get(241, 373), Some(Pixel::white()));
    assert_eq!(white_cells(&canvas).len(), 141);
}

#[test]
fn plot_count_is_the_longer_extent_plus_one() {
    let mut canvas = ready_canvas();
    draw_line(&mut canvas, -10, -100, 20, 100);
    assert_eq!(white_cells(&canvas).len(), 201);
}

#[test]
fn column_outside_the_grid_goes_to_the_top_left_cell() {
    let mut canvas = ready_canvas();
    draw_line(&mut canvas, 300, 0, 300, 0);
    assert_eq!(white_cells(&canvas), vec![(0, 0)]);
}

#[test]
fn row_outside_the_grid_goes_to_the_top_left_cell() {
    let mut canvas = ready_canvas();
    draw_line(&mut canvas, 0, 300, 0, 300);
    assert_eq!(white_cells(&canvas), vec![(0, 0)]);
    let mut canvas = ready_canvas();
    draw_line(&mut canvas, 0, -251, 0, -251);
    assert_eq!(white_cells(&canvas), vec![(0, 0)]);
}

#[test]
fn segment_leaving_the_grid_keeps_its_inner_cells() {
    let mut canvas = ready_canvas();
    draw_line(&mut canvas, 247, 0, 252, 0);
    assert_eq!(white_cells(&canvas), vec![(0, 0), (497, 250), (498, 250), (499, 250)]);
}

#[test]
fn grid_edges_are_inside() {
    let mut canvas = ready_canvas();
    draw_line(&mut canvas, -250, -250, -250, -250);
    draw_line(&mut canvas, 249, 249, 249, 249);
    assert_eq!(white_cells(&canvas), vec![(0, 0), (499, 499)]);
}

#[test]
fn extreme_coordinates_do_not_overflow() {
    let mut canvas = ready_canvas();
    draw_line(&mut canvas, i32::MAX, i32::MAX, i32::MAX - 3, i32::MIN + 7 - 1 + i32::MAX);
    assert_eq!(white_cells(&canvas), vec![(0, 0)]);
    let mut canvas = ready_canvas();
    draw_line(&mut canvas, i32::MIN, i32::MIN, i32::MIN + 5, i32::MIN);
    assert_eq!(white_cells(&canvas), vec![(0, 0)]);
}

#[test]
fn drawing_leaves_other_cells_as_they_were() {
    let clean = ready_canvas();
    let mut canvas = ready_canvas();
    draw_line(&mut canvas, -30, 12, 44, -19);
    let white = white_cells(&canvas);
    let (a, b) = (get_buffer(&clean), get_buffer(&canvas));
    for row in 0..HEIGHT {
        for col in 0..WIDTH {
            if !white.contains(&(col, row)) {
                assert_eq!(a.get(row, col), b.get(row, col));
            }
        }
    }
}

#[test]
fn draw_line_agrees_with_the_stepping_loop() {
    let ends = [-260, -250, -249, -101, -3, -1, 0, 1, 2, 57, 248, 249, 250, 261];
    let mut n = 0;
    for (i, &x0) in ends.iter().enumerate() {
        for (j, &y0) in ends.iter().enumerate() {
            // A spread of second end points for each first one.
            let x1 = ends[(i * 5 + j * 3 + 1) % ends.len()];
            let y1 = ends[(i * 7 + j * 11 + 4) % ends.len()];
            let mut canvas = ready_canvas();
            draw_line(&mut canvas, x0, y0, x1, y1);
            assert_eq!(white_cells(&canvas), reference_line(x0, y0, x1, y1));
            n += 1;
        }
    }
    assert_eq!(n, 196);
}

#[test]
fn plot_pixel_sets_the_cell_or_the_top_left_one() {
    let mut canvas = ready_canvas();
    let red = Pixel { r: 255, g: 0, b: 0, a: 255 };
    plot_pixel(&mut canvas, 3, 7, &red);
    assert_eq!(get_buffer(&canvas).get(7, 3), Some(red));
    assert_eq!(get_buffer(&canvas).get(3, 7), Some(Pixel { r: 1, g: 3, b: 253, a: 255 }));
    assert_eq!(get_buffer(&canvas).get(0, 0), Some(Pixel { r: 0, g: 0, b: 255, a: 255 }));
    for &(x, y) in &[(-1_i64, 7_i64), (500, 7), (3, -1), (3, 500), (i64::MIN, i64::MAX)] {
        let mut canvas = ready_canvas();
        plot_pixel(&mut canvas, x, y, &red);
        assert_eq!(get_buffer(&canvas).get(0, 0), Some(red));
        if 0 <= x && x < 500 {
            assert_ne!(get_buffer(&canvas).get(0, x as usize), Some(red));
        }
    }
}
