use particle_field::fixed::isqrt;
use particle_field::particles::{
    apply_velocity, change_color, nearest_particle, reset_velocities, resistance, set_shape,
    Particle, ShapeKind,
};

fn at(x: i64, y: i64) -> Particle {
    Particle { pos_x: x, pos_y: y, vel_x: 0, vel_y: 0, col_r: 0, col_g: 0, col_b: 0 }
}

#[test]
fn isqrt_values() {
    assert_eq!(isqrt(0), 0);
    assert_eq!(isqrt(3), 1);
    assert_eq!(isqrt(4), 2);
    assert_eq!(isqrt(1000000), 1000);
    assert_eq!(isqrt(8589934592), 92681);
}

#[test]
fn grid_of_four_hits_the_corners() {
    let mut v: Vec<Particle> = Vec::new();
    set_shape(&mut v, 4, 65536, ShapeKind::Grid);
    assert_eq!(v.len(), 4);
    // Row-major, the row index outer: (-1,-1), (1,-1), (-1,1), (1,1).
    assert_eq!((v[0].pos_x, v[0].pos_y), (-65536, -65536));
    assert_eq!((v[1].pos_x, v[1].pos_y), (65536, -65536));
    assert_eq!((v[2].pos_x, v[2].pos_y), (-65536, 65536));
    assert_eq!((v[3].pos_x, v[3].pos_y), (65536, 65536));
    for p in &v {
        assert_eq!((p.vel_x, p.vel_y), (0, 0));
        assert_eq!((p.col_r, p.col_g, p.col_b), (0, 0, 0));
    }
}

#[test]
fn grid_census_is_square_of_root() {
    let mut v: Vec<Particle> = Vec::new();
    set_shape(&mut v, 10, 655360, ShapeKind::Grid);
    assert_eq!(v.len(), 9);
    set_shape(&mut v, 0, 655360, ShapeKind::Grid);
    assert_eq!(v.len(), 0);
    set_shape(&mut v, 1000000, 655360, ShapeKind::Grid);
    assert_eq!(v.len(), 1000000);
}

#[test]
fn grid_span_is_exact() {
    let mut v: Vec<Particle> = Vec::new();
    set_shape(&mut v, 9, 655360, ShapeKind::Grid);
    let min_x = v.iter().map(|p| p.pos_x).min().unwrap();
    let max_x = v.iter().map(|p| p.pos_x).max().unwrap();
    let min_y = v.iter().map(|p| p.pos_y).min().unwrap();
    let max_y = v.iter().map(|p| p.pos_y).max().unwrap();
    assert_eq!((min_x, max_x), (-655360, 655360));
    assert_eq!((min_y, max_y), (-655360, 655360));
}

#[test]
fn single_particle_grid_sits_at_centre() {
    let mut v: Vec<Particle> = Vec::new();
    set_shape(&mut v, 1, 655360, ShapeKind::Grid);
    assert_eq!(v.len(), 1);
    assert_eq!((v[0].pos_x, v[0].pos_y), (0, 0));
}

#[test]
fn unimplemented_shape_leaves_store_empty() {
    let mut v: Vec<Particle> = Vec::new();
    set_shape(&mut v, 16, 65536, ShapeKind::Grid);
    assert_eq!(v.len(), 16);
    set_shape(&mut v, 16, 65536, ShapeKind::Unimplemented);
    assert_eq!(v.len(), 0);
}

#[test]
fn reset_velocities_is_idempotent() {
    let mut v = vec![
        Particle { pos_x: 5, pos_y: -7, vel_x: 100, vel_y: -200, col_r: 1, col_g: 2, col_b: 3 },
        Particle { pos_x: 0, pos_y: 0, vel_x: -1, vel_y: 1, col_r: 0, col_g: 0, col_b: 0 },
    ];
    reset_velocities(&mut v);
    let once = v.clone();
    for p in &once {
        assert_eq!((p.vel_x, p.vel_y), (0, 0));
    }
    assert_eq!((once[0].pos_x, once[0].pos_y), (5, -7));
    assert_eq!((once[0].col_r, once[0].col_g, once[0].col_b), (1, 2, 3));
    reset_velocities(&mut v);
    assert_eq!(v, once);
}

#[test]
fn apply_velocity_moves_by_velocity() {
    let mut v = vec![
        Particle { pos_x: 100, pos_y: -50, vel_x: 7, vel_y: -3, col_r: 0, col_g: 0, col_b: 0 },
    ];
    apply_velocity(&mut v);
    assert_eq!((v[0].pos_x, v[0].pos_y), (107, -53));
    assert_eq!((v[0].vel_x, v[0].vel_y), (7, -3));
}

#[test]
fn change_color_encodes_squared_speed() {
    let mut v = vec![
        Particle { pos_x: 0, pos_y: 0, vel_x: 65536, vel_y: 65536, col_r: 0, col_g: 0, col_b: 0 },
    ];
    change_color(&mut v);
    // 1.0^2 + 1.0^2 * 40 scene units, in fixed point.
    assert_eq!(v[0].col_b, 2686976);
    assert_eq!((v[0].col_r, v[0].col_g), (0, 0));
}

#[test]
fn resistance_scales_velocities() {
    let mut v = vec![
        Particle { pos_x: 0, pos_y: 0, vel_x: 65536, vel_y: -65536, col_r: 0, col_g: 0, col_b: 0 },
    ];
    // 0.95 in fixed point.
    resistance(&mut v, 62259);
    assert_eq!(v[0].vel_x, 62259);
    assert_eq!(v[0].vel_y, -62259);
}

#[test]
fn nearest_finds_strict_minimum() {
    let v = vec![at(1000, 1000), at(10, 0), at(5000, -2), at(11, 0)];
    assert_eq!(nearest_particle(&v, 0, 0), Some(1));
}

#[test]
fn nearest_breaks_ties_toward_lowest_index() {
    let v = vec![at(500, 0), at(100, 0), at(-100, 0), at(100, 0)];
    // Indices 1, 2 and 3 are all at distance 100 from the origin.
    assert_eq!(nearest_particle(&v, 0, 0), Some(1));
}

#[test]
fn nearest_of_empty_store_is_none() {
    let v: Vec<Particle> = Vec::new();
    assert_eq!(nearest_particle(&v, 0, 0), None);
}
