use diorama::{face_frame, pick_face, Axis, BoxFace};
use diorama::{
    calc_block_size_offset, facing_from_forward, filter_maze_row, find_first_free_cell, is_wall, lcg_next,
    resolve_obj_index, stair_layout, triangulate_fan, Color, Facing, Framebuffer, Orientation, StairLayout, Stars,
};

#[test]
fn stair_layouts() {
    assert_eq!(stair_layout(Facing::Forward, Orientation::Upright), StairLayout { up: 1, dx: 0, dz: 1 });
    assert_eq!(stair_layout(Facing::Backward, Orientation::Upright), StairLayout { up: 1, dx: 0, dz: -1 });
    assert_eq!(stair_layout(Facing::Right, Orientation::UpsideDown), StairLayout { up: -1, dx: 1, dz: 0 });
    assert_eq!(stair_layout(Facing::Left, Orientation::UpsideDown), StairLayout { up: -1, dx: -1, dz: 0 });
    assert_eq!(facing_from_forward(true), Facing::Forward);
    assert_eq!(facing_from_forward(false), Facing::Backward);
}

#[test]
fn wall_symbols() {
    for c in ['+', '-', '|', 'g'] {
        assert!(is_wall(c));
    }
    for c in [' ', 'h', 'x'] {
        assert!(!is_wall(c));
    }
}

#[test]
fn maze_rows_keep_only_maze_symbols() {
    let line: Vec<char> = "+-x |g\r".chars().collect();
    assert_eq!(filter_maze_row(&line), vec!['+', '-', ' ', '|', 'g']);
    assert_eq!(filter_maze_row(&vec![]), Vec::<char>::new());
}

#[test]
fn first_free_cell_in_reading_order() {
    let maze = vec![vec!['+', '-', '+'], vec!['|', 'g', ' '], vec![' ', ' ', '|']];
    assert_eq!(find_first_free_cell(&maze), Some((2, 1)));
    let walled = vec![vec!['+', '+'], vec!['|']];
    assert_eq!(find_first_free_cell(&walled), None);
    assert_eq!(find_first_free_cell(&vec![]), None);
}

#[test]
fn block_size_and_centering() {
    let maze = vec![vec!['+'; 10]; 5];
    assert_eq!(calc_block_size_offset(&maze, 800, 600), (80, 0, 100));
    assert_eq!(calc_block_size_offset(&maze, 105, 600), (10, 2, 275));
    // too small a window: one pixel per cell and no offset
    assert_eq!(calc_block_size_offset(&maze, 4, 3), (1, 0, 0));
}

#[test]
fn fan_triangulation() {
    let face = triangulate_fan(&vec![7, 8, 9, 10, 11]);
    assert_eq!(face.vertex_indices, vec![[7, 8, 9], [7, 9, 10], [7, 10, 11]]);
    assert_eq!(triangulate_fan(&vec![1, 2, 3]).vertex_indices, vec![[1, 2, 3]]);
}

#[test]
fn obj_vertex_references() {
    assert_eq!(resolve_obj_index(1, 0), Some(0));
    assert_eq!(resolve_obj_index(5, 3), Some(4));
    assert_eq!(resolve_obj_index(-1, 3), Some(2));
    assert_eq!(resolve_obj_index(-3, 3), Some(0));
    assert_eq!(resolve_obj_index(-4, 3), None);
    assert_eq!(resolve_obj_index(0, 3), None);
    assert_eq!(resolve_obj_index(i64::MIN, 3), None);
}

#[test]
fn lcg_wraps() {
    assert_eq!(lcg_next(12345), 12345u32.wrapping_mul(1664525).wrapping_add(1013904223));
    assert_eq!(lcg_next(u32::MAX), u32::MAX.wrapping_mul(1664525).wrapping_add(1013904223));
    assert_eq!(lcg_next(0), 1013904223);
}

#[test]
fn stars_draw_in_gray_and_skip_outside() {
    let stars = Stars::from_pixels(vec![(0, 0, 150), (1, 1, 200), (5, 0, 255), (1, 1, 255)]);
    assert_eq!(stars.len(), 4);
    let mut fb = Framebuffer::new(2, 2);
    stars.draw_to_framebuffer(&mut fb);
    assert_eq!(fb.get_pixel(0, 0), Some(Color::new(150, 150, 150).to_hex()));
    assert_eq!(fb.get_pixel(1, 1), Some(0xffffff));
    assert_eq!(fb.get_pixel(1, 0), Some(0));
}

#[test]
fn free_cells() {
    let maze = vec![vec!['+', ' '], vec!['g']];
    assert!(diorama::cell_is_free(&maze, 1, 0));
    assert!(!diorama::cell_is_free(&maze, 0, 0));
    assert!(!diorama::cell_is_free(&maze, 1, 1));
    assert!(!diorama::cell_is_free(&maze, -1, 0));
    assert!(!diorama::cell_is_free(&maze, 0, 2));
}

#[test]
fn box_faces_pick_the_first_plane() {
    assert_eq!(pick_face((false, false, false, false, false, true)), Some(BoxFace::MaxZ));
    assert_eq!(pick_face((false, true, false, false, false, true)), Some(BoxFace::MaxX));
    assert_eq!(pick_face((true, true, true, true, true, true)), Some(BoxFace::MinX));
    assert_eq!(pick_face((false, false, false, false, false, false)), None);
}

#[test]
fn box_face_frames() {
    let plus_z = face_frame(BoxFace::MaxZ);
    assert_eq!(plus_z.normal, Axis { x: 0, y: 0, z: 1 });
    assert_eq!((plus_z.u_axis, plus_z.v_axis), (0, 1));
    let minus_x = face_frame(BoxFace::MinX);
    assert_eq!(minus_x.normal, Axis { x: -1, y: 0, z: 0 });
    assert_eq!(minus_x.tangent, Axis { x: 0, y: 0, z: 1 });
    let minus_y = face_frame(BoxFace::MinY);
    assert_eq!(minus_y.bitangent, Axis { x: 0, y: 0, z: -1 });
    assert!(minus_y.v_flip && !minus_y.u_flip);
    let faces = [BoxFace::MinX, BoxFace::MaxX, BoxFace::MinY, BoxFace::MaxY, BoxFace::MinZ, BoxFace::MaxZ];
    for f in faces {
        let fr = face_frame(f);
        let dot = |a: Axis, b: Axis| a.x as i32 * b.x as i32 + a.y as i32 * b.y as i32 + a.z as i32 * b.z as i32;
        assert_eq!(dot(fr.normal, fr.normal), 1);
        assert_eq!(dot(fr.normal, fr.tangent), 0);
        assert_eq!(dot(fr.normal, fr.bitangent), 0);
        assert_eq!(dot(fr.tangent, fr.bitangent), 0);
        assert_ne!(fr.u_axis, fr.v_axis);
    }
}
