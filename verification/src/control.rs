//! The interaction controller: the world state the simulation mutates
//! in place, the dispatch of discrete input events onto it, and the
//! per-frame step that chains pointer update, field, integration and
//! follow-lock recentering.  The windowing shell only polls events,
//! sleeps, and draws what `project_particles` hands it.

use vstd::prelude::*;
use crate::camera::{zoomed, Camera, HOME_ZOOM_TENTHS, MAX_SIDE};
use crate::field::{apply_force_field, forced, FieldKind};
use crate::fixed::{clip, sqrt_floor, FX_LIMIT, SCALE};
use crate::particles::{all_wf, apply_velocity, dist2, grid_particle, moved, nearest_particle,
    reset_velocities, set_shape, with_zero_velocity, Particle, ShapeKind};

verus! {

/// The pointer in scene space.  While `locked`, the position is frozen
/// at its last value regardless of device movement.
#[derive(Clone, Copy, PartialEq, Eq, Structural, Debug)]
pub struct Pointer {
    pub pos_x: i64,
    pub pos_y: i64,
    pub locked: bool,
}

/// The follow lock: while active, the camera recenters on the particle
/// at `target_index` every frame.
#[derive(Clone, Copy, PartialEq, Eq, Structural, Debug)]
pub struct Follow {
    pub active: bool,
    pub target_index: usize,
}

/// The keys the controller binds.
#[derive(Clone, Copy, PartialEq, Eq, Structural, Debug)]
pub enum KeyCode {
    Escape,
    Reset,
    LockPointer,
    ZeroVelocity,
    Other,
}

/// The mouse buttons the controller tells apart.  The auxiliary
/// buttons are recognized but inert: placeholders for future bindings.
#[derive(Clone, Copy, PartialEq, Eq, Structural, Debug)]
pub enum MouseBtn {
    Left,
    Middle,
    Right,
    AuxOne,
    AuxTwo,
    Other,
}

/// The discrete input events one frame can deliver.
#[derive(Clone, Copy, PartialEq, Eq, Structural, Debug)]
pub enum InputEvent {
    Quit,
    KeyDown(KeyCode),
    Wheel(i32),
    ButtonDown(MouseBtn),
}

/// The grid extent a reset rebuilds the store with: ten scene units.
pub const RESET_EXTENT_FX: i64 = 10 * SCALE;

/// The fixed frame period of the scheduler: a sixtieth of a second, in
/// microseconds.
pub const FRAME_PERIOD_MICROS: u64 = 16666;

/// The whole mutable simulation state, threaded explicitly through
/// every per-frame stage.
pub struct World {
    pub camera: Camera,
    pub particles: Vec<Particle>,
    pub pointer: Pointer,
    pub follow: Follow,
    pub count: usize,
}

impl World {
    /// Well-formed: camera and particles in range, the pointer in
    /// range, the store at its grid census, and the follow target in
    /// bounds while the lock is active.
    pub open spec fn wf(self) -> bool {
        &&& self.camera.wf()
        &&& all_wf(self.particles@)
        &&& self.particles@.len() == sqrt_floor(self.count as nat) * sqrt_floor(self.count as nat)
        &&& -FX_LIMIT <= self.pointer.pos_x <= FX_LIMIT
        &&& -FX_LIMIT <= self.pointer.pos_y <= FX_LIMIT
        &&& (self.follow.active ==> self.follow.target_index < self.particles@.len())
    }

    /// A fresh world: fullscreen camera at the home zoom, the store
    /// filled as the default grid, pointer free at the origin, follow
    /// lock off.
    pub fn new(width: u32, height: u32, count: usize) -> (w: World)
        requires
            0 < width <= MAX_SIDE,
            0 < height <= MAX_SIDE,
        ensures
            w.wf(),
            w.camera.width == width,
            w.camera.height == height,
            w.camera.pan_x == 0,
            w.camera.pan_y == 0,
            w.camera.zoom_tenths == HOME_ZOOM_TENTHS,
            w.count == count,
            forall|k: int|
                0 <= k < w.particles@.len() ==> w.particles@[k] == grid_particle(
                    RESET_EXTENT_FX as int,
                    sqrt_floor(count as nat) as int,
                    k,
                ),
            w.pointer == (Pointer { pos_x: 0, pos_y: 0, locked: false }),
            w.follow == (Follow { active: false, target_index: 0 }),
    {
        let camera = Camera::new(width, height);
        let mut particles: Vec<Particle> = Vec::new();
        set_shape(&mut particles, count, RESET_EXTENT_FX, ShapeKind::Grid);
        World {
            camera,
            particles,
            pointer: Pointer { pos_x: 0, pos_y: 0, locked: false },
            follow: Follow { active: false, target_index: 0 },
            count,
        }
    }
}

/// Dispatches one discrete input event onto the world; the result says
/// whether the run loop goes on.  Quit and escape end it; reset
/// rebuilds the grid at the reset extent; dedicated keys flip the
/// pointer lock and zero the velocities; the wheel zooms about the
/// cursor; a middle click toggles the follow lock, searching the
/// nearest particle to the cursor on the transition to active.
pub fn handle_event(world: &mut World, event: InputEvent, cursor_x: i32, cursor_y: i32) -> (keep_running: bool)
    requires
        old(world).wf(),
    ensures
        final(world).wf(),
        keep_running == !(event == InputEvent::Quit || event == InputEvent::KeyDown(
            KeyCode::Escape,
        )),
        final(world).count == old(world).count,
        match event {
            InputEvent::Quit => *final(world) == *old(world),
            InputEvent::KeyDown(key) => match key {
                KeyCode::Escape => *final(world) == *old(world),
                KeyCode::Reset => {
                    &&& final(world).particles@.len() == old(world).particles@.len()
                    &&& forall|k: int|
                        0 <= k < final(world).particles@.len() ==> final(world).particles@[k]
                            == grid_particle(
                            RESET_EXTENT_FX as int,
                            sqrt_floor(old(world).count as nat) as int,
                            k,
                        )
                    &&& final(world).camera == old(world).camera
                    &&& final(world).pointer == old(world).pointer
                    &&& final(world).follow == old(world).follow
                },
                KeyCode::LockPointer => *final(world) == (World {
                    pointer: (Pointer {
                        locked: !old(world).pointer.locked,
                        ..old(world).pointer
                    }),
                    ..*old(world)
                }),
                KeyCode::ZeroVelocity => {
                    &&& final(world).particles@.len() == old(world).particles@.len()
                    &&& forall|k: int|
                        0 <= k < final(world).particles@.len() ==> final(world).particles@[k]
                            == with_zero_velocity(old(world).particles@[k])
                    &&& final(world).camera == old(world).camera
                    &&& final(world).pointer == old(world).pointer
                    &&& final(world).follow == old(world).follow
                },
                KeyCode::Other => *final(world) == *old(world),
            },
            InputEvent::Wheel(y) => *final(world) == (World {
                camera: zoomed(old(world).camera, y > 0, cursor_x as int, cursor_y as int),
                ..*old(world)
            }),
            InputEvent::ButtonDown(btn) => match btn {
                MouseBtn::Middle => {
                    &&& final(world).particles == old(world).particles
                    &&& final(world).camera == old(world).camera
                    &&& final(world).pointer == old(world).pointer
                    &&& (old(world).follow.active ==> *final(world) == (World {
                        follow: (Follow { active: false, ..old(world).follow }),
                        ..*old(world)
                    }))
                    &&& (!old(world).follow.active && old(world).particles@.len() == 0
                        ==> *final(world) == *old(world))
                    &&& (!old(world).follow.active && old(world).particles@.len() > 0 ==> ({
                        let qx = old(world).camera.scene_x_of(cursor_x as int);
                        let qy = old(world).camera.scene_y_of(cursor_y as int);
                        let t = final(world).follow.target_index;
                        &&& final(world).follow.active
                        &&& t < old(world).particles@.len()
                        &&& forall|j: int|
                            0 <= j < old(world).particles@.len() ==> dist2(
                                old(world).particles@[t as int],
                                qx,
                                qy,
                            ) <= dist2(#[trigger] old(world).particles@[j], qx, qy)
                        &&& forall|j: int|
                            0 <= j < t ==> dist2(old(world).particles@[t as int], qx, qy) < dist2(
                                #[trigger] old(world).particles@[j],
                                qx,
                                qy,
                            )
                    }))
                },
                _ => *final(world) == *old(world),
            },
        },
{
    match event {
        InputEvent::Quit => false,
        InputEvent::KeyDown(KeyCode::Escape) => false,
        InputEvent::KeyDown(KeyCode::Reset) => {
            let count = world.count;
            set_shape(&mut world.particles, count, RESET_EXTENT_FX, ShapeKind::Grid);
            true
        },
        InputEvent::KeyDown(KeyCode::LockPointer) => {
            world.pointer.locked = !world.pointer.locked;
            true
        },
        InputEvent::KeyDown(KeyCode::ZeroVelocity) => {
            reset_velocities(&mut world.particles);
            true
        },
        InputEvent::KeyDown(KeyCode::Other) => true,
        InputEvent::Wheel(y) => {
            world.camera.zoom_about_pointer(y > 0, cursor_x, cursor_y);
            true
        },
        InputEvent::ButtonDown(MouseBtn::Middle) => {
            if world.follow.active {
                world.follow.active = false;
            } else {
                let q = world.camera.canvas_to_scene(cursor_x, cursor_y);
                match nearest_particle(&world.particles, q.0, q.1) {
                    Some(i) => {
                        world.follow.active = true;
                        world.follow.target_index = i;
                    },
                    None => {},
                }
            }
            true
        },
        InputEvent::ButtonDown(_) => true,
    }
}

/// One frame of simulation between input poll and rasterization:
/// refresh the pointer from the cursor unless locked, apply the force
/// field if it is active (primary button held or pointer locked),
/// integrate, and recenter the camera on the followed particle.
pub fn advance_frame(
    world: &mut World,
    cursor_x: i32,
    cursor_y: i32,
    left_down: bool,
    kind: FieldKind,
    strength: i64,
)
    requires
        old(world).wf(),
        -FX_LIMIT <= strength <= FX_LIMIT,
    ensures
        final(world).wf(),
        final(world).pointer.locked == old(world).pointer.locked,
        final(world).pointer.pos_x == if old(world).pointer.locked {
            old(world).pointer.pos_x as int
        } else {
            old(world).camera.scene_x_of(cursor_x as int)
        },
        final(world).pointer.pos_y == if old(world).pointer.locked {
            old(world).pointer.pos_y as int
        } else {
            old(world).camera.scene_y_of(cursor_y as int)
        },
        final(world).particles@.len() == old(world).particles@.len(),
        forall|k: int|
            0 <= k < old(world).particles@.len() ==> final(world).particles@[k] == ({
                let p = old(world).particles@[k];
                if left_down || old(world).pointer.locked {
                    moved(
                        forced(
                            p,
                            final(world).pointer.pos_x as int,
                            final(world).pointer.pos_y as int,
                            kind,
                            strength as int,
                        ),
                    )
                } else {
                    moved(p)
                }
            }),
        final(world).follow == old(world).follow,
        final(world).count == old(world).count,
        final(world).camera == if old(world).follow.active {
            (Camera {
                pan_x: final(world).particles@[old(world).follow.target_index as int].pos_x,
                pan_y: final(world).particles@[old(world).follow.target_index as int].pos_y,
                ..old(world).camera
            })
        } else {
            old(world).camera
        },
{
    let q = world.camera.canvas_to_scene(cursor_x, cursor_y);
    if !world.pointer.locked {
        world.pointer.pos_x = q.0;
        world.pointer.pos_y = q.1;
    }
    let active = left_down || world.pointer.locked;
    let px = world.pointer.pos_x;
    let py = world.pointer.pos_y;
    apply_force_field(&mut world.particles, px, py, active, kind, strength);
    apply_velocity(&mut world.particles);
    if world.follow.active {
        let i = world.follow.target_index;
        let p = world.particles[i];
        world.camera.pan_x = p.pos_x;
        world.camera.pan_y = p.pos_y;
    }
}

/// The canvas points of all particles, in store order: the computation
/// behind the rasterizer, which draws one point per entry.
pub fn project_particles(cam: &Camera, particles: &Vec<Particle>) -> (pts: Vec<(i32, i32)>)
    requires
        cam.wf(),
        all_wf(particles@),
    ensures
        pts@.len() == particles@.len(),
        forall|k: int|
            0 <= k < particles@.len() ==> #[trigger] pts@[k].0 == clip(
                cam.canvas_x_raw(particles@[k].pos_x as int),
                i32::MIN as int,
                i32::MAX as int,
            ) && pts@[k].1 == clip(
                cam.canvas_y_raw(particles@[k].pos_y as int),
                i32::MIN as int,
                i32::MAX as int,
            ),
{
    let n = particles.len();
    let mut pts: Vec<(i32, i32)> = Vec::new();
    let mut k: usize = 0;
    while k < n
        invariant
            cam.wf(),
            all_wf(particles@),
            particles@.len() == n,
            pts@.len() == k,
            forall|j: int|
                0 <= j < k ==> #[trigger] pts@[j].0 == clip(
                    cam.canvas_x_raw(particles@[j].pos_x as int),
                    i32::MIN as int,
                    i32::MAX as int,
                ) && pts@[j].1 == clip(
                    cam.canvas_y_raw(particles@[j].pos_y as int),
                    i32::MIN as int,
                    i32::MAX as int,
                ),
            k <= n,
        decreases n - k,
    {
        let p = particles[k];
        proof {
            assert(crate::particles::particle_wf(particles@[k as int]));
        }
        let c = cam.scene_to_canvas(p.pos_x, p.pos_y);
        pts.push(c);
        k = k + 1;
    }
    pts
}

/// The pause the fixed-step scheduler owes after a frame that took
/// `elapsed` microseconds: the remainder of the period, or nothing if
/// the frame overran — an overrun is not caught up.
pub fn sleep_budget_micros(elapsed: u64) -> (r: u64)
    ensures
        r == if elapsed < FRAME_PERIOD_MICROS {
            FRAME_PERIOD_MICROS - elapsed
        } else {
            0
        },
{
    if elapsed < FRAME_PERIOD_MICROS {
        FRAME_PERIOD_MICROS - elapsed
    } else {
        0
    }
}

} // verus!
