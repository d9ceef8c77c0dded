use particle_field::control::{
    advance_frame, handle_event, project_particles, sleep_budget_micros, Follow, InputEvent,
    KeyCode, MouseBtn, World,
};
use particle_field::field::FieldKind;

fn small_world() -> World {
    // Four particles on (+-10, +-10) scene units.
    World::new(800, 600, 4)
}

#[test]
fn new_world_defaults() {
    let w = small_world();
    assert_eq!(w.particles.len(), 4);
    assert_eq!(w.camera.zoom_tenths, -44);
    assert_eq!((w.pointer.pos_x, w.pointer.pos_y, w.pointer.locked), (0, 0, false));
    assert_eq!((w.follow.active, w.follow.target_index), (false, 0));
    assert_eq!(w.count, 4);
    assert_eq!((w.particles[0].pos_x, w.particles[0].pos_y), (-655360, -655360));
    assert_eq!((w.particles[3].pos_x, w.particles[3].pos_y), (655360, 655360));
}

#[test]
fn quit_and_escape_end_the_loop() {
    let mut w = small_world();
    assert!(!handle_event(&mut w, InputEvent::Quit, 0, 0));
    assert!(!handle_event(&mut w, InputEvent::KeyDown(KeyCode::Escape), 0, 0));
    assert!(handle_event(&mut w, InputEvent::KeyDown(KeyCode::Other), 0, 0));
    assert!(handle_event(&mut w, InputEvent::ButtonDown(MouseBtn::AuxOne), 0, 0));
    assert!(handle_event(&mut w, InputEvent::ButtonDown(MouseBtn::AuxTwo), 0, 0));
}

#[test]
fn lock_key_flips_the_pointer_lock() {
    let mut w = small_world();
    handle_event(&mut w, InputEvent::KeyDown(KeyCode::LockPointer), 0, 0);
    assert!(w.pointer.locked);
    handle_event(&mut w, InputEvent::KeyDown(KeyCode::LockPointer), 0, 0);
    assert!(!w.pointer.locked);
}

#[test]
fn zero_velocity_key_stills_every_particle() {
    let mut w = small_world();
    w.particles[2].vel_x = 4444;
    w.particles[2].vel_y = -4444;
    handle_event(&mut w, InputEvent::KeyDown(KeyCode::ZeroVelocity), 0, 0);
    for p in &w.particles {
        assert_eq!((p.vel_x, p.vel_y), (0, 0));
    }
    assert_eq!((w.particles[2].pos_x, w.particles[2].pos_y), (-655360, 655360));
}

#[test]
fn reset_key_rebuilds_the_grid() {
    let mut w = small_world();
    advance_frame(&mut w, 400, 300, true, FieldKind::InverseSquare, 327680);
    assert!(w.particles[0].vel_x != 0);
    let fresh = small_world();
    handle_event(&mut w, InputEvent::KeyDown(KeyCode::Reset), 0, 0);
    assert_eq!(w.particles, fresh.particles);
}

#[test]
fn wheel_zooms_about_the_cursor() {
    let mut w = small_world();
    let before = w.camera.canvas_to_scene(500, 200);
    handle_event(&mut w, InputEvent::Wheel(3), 500, 200);
    assert_eq!(w.camera.zoom_tenths, -42);
    assert_eq!(w.camera.canvas_to_scene(500, 200), before);
    handle_event(&mut w, InputEvent::Wheel(-1), 500, 200);
    assert_eq!(w.camera.zoom_tenths, -44);
    // A zero-delta wheel event follows the original binding: not up, so
    // it zooms out.
    handle_event(&mut w, InputEvent::Wheel(0), 500, 200);
    assert_eq!(w.camera.zoom_tenths, -46);
}

#[test]
fn middle_click_locks_onto_the_nearest_particle() {
    let mut w = small_world();
    // The cursor sits on the canvas point of particle 3's quadrant.
    let c = w.camera.scene_to_canvas(600000, 600000);
    handle_event(&mut w, InputEvent::ButtonDown(MouseBtn::Middle), c.0, c.1);
    assert!(w.follow.active);
    assert_eq!(w.follow.target_index, 3);
    // A second click releases the lock and keeps the target index.
    handle_event(&mut w, InputEvent::ButtonDown(MouseBtn::Middle), c.0, c.1);
    assert_eq!(w.follow, Follow { active: false, target_index: 3 });
}

#[test]
fn middle_click_on_empty_store_stays_unlocked() {
    let mut w = World::new(800, 600, 0);
    assert_eq!(w.particles.len(), 0);
    handle_event(&mut w, InputEvent::ButtonDown(MouseBtn::Middle), 400, 300);
    assert!(!w.follow.active);
}

#[test]
fn advance_frame_tracks_the_cursor_when_unlocked() {
    let mut w = small_world();
    let q = w.camera.canvas_to_scene(500, 200);
    advance_frame(&mut w, 500, 200, false, FieldKind::InverseSquare, 327680);
    assert_eq!((w.pointer.pos_x, w.pointer.pos_y), q);
}

#[test]
fn advance_frame_freezes_a_locked_pointer() {
    let mut w = small_world();
    w.pointer.locked = true;
    w.pointer.pos_x = 111;
    w.pointer.pos_y = -222;
    advance_frame(&mut w, 500, 200, false, FieldKind::InverseSquare, 327680);
    assert_eq!((w.pointer.pos_x, w.pointer.pos_y), (111, -222));
    // A locked pointer also activates the field with no button held.
    assert!(w.particles[0].vel_x != 0);
}

#[test]
fn advance_frame_without_activation_only_integrates() {
    let mut w = small_world();
    w.particles[1].vel_x = 1000;
    advance_frame(&mut w, 400, 300, false, FieldKind::InverseSquare, 327680);
    assert_eq!(w.particles[1].pos_x, 655360 + 1000);
    assert_eq!(w.particles[1].vel_x, 1000);
}

#[test]
fn advance_frame_recenters_on_followed_particle() {
    let mut w = small_world();
    w.follow = Follow { active: true, target_index: 2 };
    advance_frame(&mut w, 400, 300, false, FieldKind::InverseSquare, 327680);
    assert_eq!(w.camera.pan_x, w.particles[2].pos_x);
    assert_eq!(w.camera.pan_y, w.particles[2].pos_y);
}

#[test]
fn projection_lists_one_canvas_point_per_particle() {
    let mut w = World::new(800, 600, 1);
    w.camera.set_zoom_level(0);
    w.particles[0].pos_x = 65536;
    w.particles[0].pos_y = 65536;
    let pts = project_particles(&w.camera, &w.particles);
    assert_eq!(pts, vec![(1000, -300)]);
}

#[test]
fn frame_pacing_sleeps_the_remainder() {
    assert_eq!(sleep_budget_micros(0), 16666);
    assert_eq!(sleep_budget_micros(10000), 6666);
    assert_eq!(sleep_budget_micros(16666), 0);
    assert_eq!(sleep_budget_micros(50000), 0);
}
