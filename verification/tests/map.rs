use raycaster::map::GridMap;
use raycaster::map::TextureInfo;
use raycaster::fixed::Vec2;
use raycaster::fixed::SCALE;

#[test]
fn from_string_round_trips_every_cell() {
    let grid = "1203";
    let m = GridMap::from_string(grid, 2, 2, 1024);
    assert_eq!(m.get(0, 0), 1);
    assert_eq!(m.get(1, 0), 2);
    assert_eq!(m.get(0, 1), 0);
    assert_eq!(m.get(1, 1), 3);
}

#[test]
fn from_string_round_trips_a_larger_grid() {
    let grid = "0123456789012345";
    let m = GridMap::from_string(grid, 4, 4, 1024);
    let bytes = grid.as_bytes();
    for y in 0..4u32 {
        for x in 0..4u32 {
            assert_eq!(m.get(x, y), bytes[(y * 4 + x) as usize] - b'0');
        }
    }
}

#[test]
fn set_then_get_returns_the_written_value() {
    let mut m = GridMap::new(8, 8, 1024);
    assert_eq!(m.get(3, 5), 0);
    m.set(3, 5, 7);
    assert_eq!(m.get(3, 5), 7);
    assert_eq!(m.get(5, 3), 0);
}

#[test]
fn one_occupied_cell_derives_its_four_square_segments() {
    let m = GridMap::from_string("0100", 2, 2, 1024);
    // Cell (1, 0) is occupied: its square spans the cell before its index,
    // from (0, -1024) to (1024, 0).
    assert_eq!(m.segments.len(), 4);
    let s0 = m.segments[0];
    let s1 = m.segments[1];
    let s2 = m.segments[2];
    let s3 = m.segments[3];
    assert_eq!((s0.a, s0.b), (Vec2 { x: 0, y: -1024 }, Vec2 { x: 0, y: 0 }));
    assert_eq!((s1.a, s1.b), (Vec2 { x: 0, y: 0 }, Vec2 { x: 1024, y: 0 }));
    assert_eq!((s2.a, s2.b), (Vec2 { x: 1024, y: 0 }, Vec2 { x: 1024, y: -1024 }));
    assert_eq!((s3.a, s3.b), (Vec2 { x: 1024, y: -1024 }, Vec2 { x: 0, y: -1024 }));
}

#[test]
fn empty_grid_derives_no_segments() {
    let m = GridMap::from_string("0000", 2, 2, 1024);
    assert_eq!(m.segments.len(), 0);
}

#[test]
fn cast_ray_hits_the_adjacent_wall_face() {
    // Cell (2, 1) is occupied; the ray starts half a cell in at (0.5, 0.5)
    // aiming along +x, and must hit the cell's near face at world x = 1
    // with u half a cell up the face.
    let mut m = GridMap::new(4, 4, 1024);
    m.set(2, 1, 1);
    m.regenerate_segments();
    let hit = m.cast_ray(512, 512, 1024, 0).unwrap();
    assert_eq!(hit.cell, (2, 1));
    assert_eq!(hit.index, 6);
    assert_eq!(hit.pos, Vec2 { x: 1024, y: 512 });
    assert_eq!(hit.u, 512);
}

#[test]
fn cast_ray_diagonally_into_a_corner_still_reports_the_cell() {
    // Only cell (2, 2) is occupied; a ray from (0.5, 0.5) along the exact
    // diagonal approaches its corner and must report that single cell.
    let mut m = GridMap::new(4, 4, 1024);
    m.set(2, 2, 1);
    m.regenerate_segments();
    let hit = m.cast_ray(512, 512, 724, 724).unwrap();
    assert_eq!(hit.cell, (2, 2));
    assert_eq!(hit.index, 10);
    assert_eq!(hit.pos, Vec2 { x: 1023, y: 1023 });
    assert_eq!(hit.u, 1023);
}

#[test]
fn cast_ray_leaving_the_grid_reports_nothing() {
    let m = GridMap::new(4, 4, 1024);
    assert!(m.cast_ray(512, 512, -1024, 0).is_none());
    assert!(m.cast_ray(512, 512, 1024, 1024).is_none());
}

#[test]
fn cast_ray_with_zero_direction_tests_the_starting_tile() {
    let mut m = GridMap::new(4, 4, 1024);
    m.set(1, 1, 3);
    let hit = m.cast_ray(512, 512, 0, 0).unwrap();
    assert_eq!(hit.cell, (1, 1));
    assert_eq!(hit.index, 5);
    assert_eq!(hit.u, SCALE / 2);
    m.set(1, 1, 0);
    assert!(m.cast_ray(512, 512, 0, 0).is_none());
}

#[test]
fn add_texture_returns_successive_indices() {
    let mut m = GridMap::new(2, 2, 1024);
    let a = m.add_texture(TextureInfo { width: 64, height: 64 });
    let b = m.add_texture(TextureInfo { width: 128, height: 32 });
    assert_eq!(a, 0);
    assert_eq!(b, 1);
    assert_eq!(m.textures.len(), 2);
    assert_eq!(m.textures[1].width, 128);
}

#[test]
fn shade_falls_off_with_distance_and_saturates_up_close() {
    let m = GridMap::new(2, 2, 1024);
    assert_eq!(m.shade(0), SCALE);
    assert_eq!(m.shade(2048), SCALE);
    assert_eq!(m.shade(4096), 512);
    assert_eq!(m.shade(8192), 256);
}

#[test]
fn shade_from_height_scales_with_band_height() {
    let m = GridMap::new(2, 2, 1024);
    assert_eq!(m.shade_from_height(100, 400), 512);
    assert_eq!(m.shade_from_height(300, 400), SCALE);
    assert_eq!(m.shade_from_height(0, 400), 0);
}
