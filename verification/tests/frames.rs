use meenle_noonle::{draw_line, fill_buffer, generate_background, get_buffer, render, Canvas, Mesh, Pixel, Tri, Vec3, HEIGHT, WIDTH};

fn ready_canvas() -> Canvas {
    let mut canvas = Canvas::new();
    generate_background(&mut canvas);
    fill_buffer(&mut canvas);
    canvas
}

fn tri(a: (i32, i32, i32), b: (i32, i32, i32), c: (i32, i32, i32)) -> Tri<i32> {
    Tri {
        verts: [
            Vec3 { x: a.0, y: a.1, z: a.2 },
            Vec3 { x: b.0, y: b.1, z: b.2 },
            Vec3 { x: c.0, y: c.1, z: c.2 },
        ],
    }
}

fn white_count(canvas: &Canvas) -> usize {
    let fb = get_buffer(canvas);
    let mut n = 0;
    for row in 0..HEIGHT {
        for col in 0..WIDTH {
            if fb.get(row, col) == Some(Pixel::white()) {
                n += 1;
            }
        }
    }
    n
}

#[test]
fn triangle_draws_its_three_edges() {
    let t = tri((-20, -10, 5), (30, 0, -5), (0, 40, 9));
    let mut by_triangle = ready_canvas();
    t.render(&mut by_triangle);
    let mut by_lines = ready_canvas();
    draw_line(&mut by_lines, -20, -10, 30, 0);
    draw_line(&mut by_lines, 30, 0, 0, 40);
    draw_line(&mut by_lines, 0, 40, -20, -10);
    assert_eq!(get_buffer(&by_triangle).to_bytes(), get_buffer(&by_lines).to_bytes());
    assert!(white_count(&by_triangle) > 0);
}

#[test]
fn depth_is_ignored() {
    let mut near = ready_canvas();
    tri((-20, -10, 0), (30, 0, 0), (0, 40, 0)).render(&mut near);
    let mut far = ready_canvas();
    tri((-20, -10, 900), (30, 0, -77), (0, 40, 12345)).render(&mut far);
    assert_eq!(get_buffer(&near).to_bytes(), get_buffer(&far).to_bytes());
}

#[test]
fn small_triangle_cells() {
    let mut canvas = ready_canvas();
    tri((0, 0, 0), (2, 0, 0), (0, 2, 0)).render(&mut canvas);
    let fb = get_buffer(&canvas);
    let mut cells = Vec::new();
    for row in 0..HEIGHT {
        for col in 0..WIDTH {
            if fb.get(row, col) == Some(Pixel::white()) {
                cells.push((col, row));
            }
        }
    }
    assert_eq!(
        cells,
        vec![(250, 250), (251, 250), (252, 250), (250, 251), (251, 251), (250, 252)]
    );
}

#[test]
fn mesh_draws_every_triangle() {
    let a = tri((-100, -100, 0), (-50, -100, 0), (-75, -50, 0));
    let b = tri((10, 10, 0), (90, 20, 0), (40, 80, 0));
    let mesh = Mesh { tris: vec![a, b] };
    let mut by_mesh = ready_canvas();
    mesh.render(&mut by_mesh);
    let mut by_tris = ready_canvas();
    a.render(&mut by_tris);
    b.render(&mut by_tris);
    assert_eq!(get_buffer(&by_mesh).to_bytes(), get_buffer(&by_tris).to_bytes());
}

#[test]
fn render_clears_before_it_draws() {
    let mesh = Mesh { tris: vec![tri((0, 0, 0), (50, 0, 0), (0, 50, 0))] };
    let mut clean = ready_canvas();
    render(&mut clean, &mesh);
    let mut dirty = ready_canvas();
    draw_line(&mut dirty, -200, -200, 200, 200);
    render(&mut dirty, &mesh);
    assert_eq!(get_buffer(&clean).to_bytes(), get_buffer(&dirty).to_bytes());
    assert_eq!(get_buffer(&dirty).get(50, 50), Some(Pixel { r: 25, g: 25, b: 229, a: 255 }));
}

#[test]
fn rendering_twice_gives_identical_buffers() {
    let cube = Mesh::cube(Vec3::from([-50_i32, -50, -50]), Vec3::from([50_i32, 50, 50]));
    let mut canvas = Canvas::new();
    generate_background(&mut canvas);
    render(&mut canvas, &cube);
    let first = get_buffer(&canvas).to_bytes();
    render(&mut canvas, &cube);
    let second = get_buffer(&canvas).to_bytes();
    assert_eq!(first, second);
}

#[test]
fn rendered_cube_is_a_square_with_both_diagonals() {
    let cube = Mesh::cube(Vec3::from([-50_i32, -50, -50]), Vec3::from([50_i32, 50, 50]));
    let mut canvas = ready_canvas();
    render(&mut canvas, &cube);
    let fb = get_buffer(&canvas);
    for t in 0..=100 {
        assert_eq!(fb.get(200, 200 + t), Some(Pixel::white()));
        assert_eq!(fb.get(300, 200 + t), Some(Pixel::white()));
        assert_eq!(fb.get(200 + t, 200), Some(Pixel::white()));
        assert_eq!(fb.get(200 + t, 300), Some(Pixel::white()));
        assert_eq!(fb.get(200 + t, 200 + t), Some(Pixel::white()));
        assert_eq!(fb.get(200 + t, 300 - t), Some(Pixel::white()));
    }
    // Four sides of 101 cells sharing four corners; the diagonal of the south
    // face and that of the north face, each sharing two corners, crossing in
    // one cell.
    assert_eq!(white_count(&canvas), 4 * 101 - 4 + 2 * (101 - 2) - 1);
    assert_eq!(fb.get(250, 251), Some(Pixel { r: 127, g: 128, b: 127, a: 255 }));
}

#[test]
fn rendering_an_empty_mesh_shows_the_background() {
    let empty: Mesh<i32> = Mesh { tris: Vec::new() };
    let mut canvas = ready_canvas();
    let background = get_buffer(&canvas).to_bytes();
    draw_line(&mut canvas, -5, -5, 5, 5);
    render(&mut canvas, &empty);
    assert_eq!(get_buffer(&canvas).to_bytes(), background);
}

#[test]
fn render_before_the_background_exists_draws_on_blank() {
    let mesh = Mesh { tris: vec![tri((0, 0, 0), (1, 0, 0), (0, 1, 0))] };
    let mut canvas = Canvas::new();
    render(&mut canvas, &mesh);
    let fb = get_buffer(&canvas);
    assert_eq!(fb.get(250, 250), Some(Pixel::white()));
    assert_eq!(fb.get(0, 0), Some(Pixel { r: 0, g: 0, b: 0, a: 0 }));
}
