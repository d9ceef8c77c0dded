use particle_field::field::{apply_force_field, cos_val, evaluate, FieldKind};
use particle_field::particles::{set_shape, Particle, ShapeKind};

fn at(x: i64, y: i64) -> Particle {
    Particle { pos_x: x, pos_y: y, vel_x: 0, vel_y: 0, col_r: 0, col_g: 0, col_b: 0 }
}

#[test]
fn cosine_fixed_points() {
    assert_eq!(cos_val(0), 65536);
    // cos(pi) = -1, cos(2 pi) = 1; the quarter-wave fold hits both ends
    // exactly.
    assert_eq!(cos_val(205887), -65536);
    assert_eq!(cos_val(411775), 65536);
    // cos(pi/2) is within a few fixed-point quanta of zero.
    assert!(cos_val(102944).abs() <= 64);
    // A mid-range angle: sqrt(2) radians.
    assert_eq!(cos_val(92681), 10196);
}

#[test]
fn cosine_is_periodic() {
    assert_eq!(cos_val(92681 + 411775), cos_val(92681));
    assert_eq!(cos_val(205887 + 411775), cos_val(205887));
}

#[test]
fn inverse_square_pull_on_unit_grid() {
    // Four particles on (+-1, +-1), field at the origin, strength 5.0,
    // active for one frame: each distance is sqrt(2), the force
    // 5 / 2 = 2.5, and every delta points at the origin.
    let mut v: Vec<Particle> = Vec::new();
    set_shape(&mut v, 4, 65536, ShapeKind::Grid);
    apply_force_field(&mut v, 0, 0, true, FieldKind::InverseSquare, 327680);
    assert_eq!((v[0].vel_x, v[0].vel_y), (115855, 115855));
    assert_eq!((v[1].vel_x, v[1].vel_y), (-115855, 115855));
    assert_eq!((v[2].vel_x, v[2].vel_y), (115855, -115855));
    assert_eq!((v[3].vel_x, v[3].vel_y), (-115855, -115855));
    // The delta's magnitude is 2.5 scene units per frame: each
    // component is 2.5 / sqrt(2) = 1.7678.
    let mag2 = (v[3].vel_x as i128).pow(2) + (v[3].vel_y as i128).pow(2);
    let want = (163840i128).pow(2);
    assert!((mag2 - want).abs() * 1000 < want);
    // Integrating carries each particle toward the origin along its
    // diagonal.
    particle_field::particles::apply_velocity(&mut v);
    assert_eq!((v[0].pos_x, v[0].pos_y), (50319, 50319));
    assert_eq!((v[3].pos_x, v[3].pos_y), (-50319, -50319));
}

#[test]
fn field_deltas_of_opposite_particles_cancel() {
    let v = vec![at(90000, -120000), at(-90000, 120000)];
    for kind in [FieldKind::InverseSquare, FieldKind::InverseLinear, FieldKind::Wave] {
        let mut w = v.clone();
        apply_force_field(&mut w, 0, 0, true, kind, 327680);
        assert_eq!(w[0].vel_x, -w[1].vel_x);
        assert_eq!(w[0].vel_y, -w[1].vel_y);
        assert!(w[0].vel_x != 0 || w[0].vel_y != 0);
    }
}

#[test]
fn inverse_linear_pull_on_unit_diagonal() {
    let mut v = vec![at(65536, 65536)];
    apply_force_field(&mut v, 0, 0, true, FieldKind::InverseLinear, 327680);
    // force = 5 / (sqrt(2) + 20).
    assert_eq!((v[0].vel_x, v[0].vel_y), (-10819, -10819));
}

#[test]
fn wave_field_on_unit_diagonal() {
    let mut v = vec![at(65536, 65536)];
    apply_force_field(&mut v, 0, 0, true, FieldKind::Wave, 327680);
    // force = 5 * (cos(sqrt 2) / (2 + 100) * 300 + 0.2) * 0.1.
    assert_eq!((v[0].vel_x, v[0].vel_y), (-15236, -15236));
}

#[test]
fn evaluate_is_pure_and_matches_the_pass() {
    // The standalone evaluator returns the same delta the frame pass
    // writes into a resting particle.
    let dv = evaluate(65536, 65536, 0, 0, FieldKind::InverseSquare, 327680);
    assert_eq!(dv, (-115855, -115855));
    let mut v = vec![at(65536, 65536)];
    apply_force_field(&mut v, 0, 0, true, FieldKind::InverseSquare, 327680);
    assert_eq!((v[0].vel_x, v[0].vel_y), dv);
    // Opposite offsets, opposite deltas.
    let back = evaluate(-65536, -65536, 0, 0, FieldKind::InverseSquare, 327680);
    assert_eq!(back, (115855, 115855));
}

#[test]
fn inactive_field_changes_nothing() {
    let mut v = vec![at(65536, 65536)];
    let before = v.clone();
    apply_force_field(&mut v, 0, 0, false, FieldKind::InverseSquare, 327680);
    assert_eq!(v, before);
}

#[test]
fn particle_on_the_source_gets_no_delta() {
    let mut v = vec![at(777, -777)];
    apply_force_field(&mut v, 777, -777, true, FieldKind::InverseSquare, 327680);
    assert_eq!((v[0].vel_x, v[0].vel_y), (0, 0));
}
