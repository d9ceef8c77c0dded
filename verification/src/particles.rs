//! The particle store: a flat, pre-sized vector of particle state, the
//! grid initializer that populates it, the integrator that applies
//! velocities, and the linear nearest-particle search behind the
//! camera's follow lock.

use vstd::prelude::*;
use vstd::arithmetic::div_mod::{
    lemma_div_is_ordered, lemma_div_multiples_vanish, lemma_fundamental_div_mod_converse_div,
    lemma_fundamental_div_mod_converse_mod,
};
use crate::fixed::{clip, div_trunc, isqrt, lemma_sqrt_floor, lemma_tdiv_mag, sat_fx, sqrt_floor,
    tdiv, FX_LIMIT, SCALE};

verus! {

/// One point mass: position and velocity in fixed-point scene units,
/// and a colour kept as per-particle state for future visual encoding.
#[derive(Clone, Copy, PartialEq, Eq, Structural, Debug)]
pub struct Particle {
    pub pos_x: i64,
    pub pos_y: i64,
    pub vel_x: i64,
    pub vel_y: i64,
    pub col_r: i64,
    pub col_g: i64,
    pub col_b: i64,
}

/// Every field within the fixed-point range.
pub open spec fn particle_wf(p: Particle) -> bool {
    &&& -FX_LIMIT <= p.pos_x <= FX_LIMIT
    &&& -FX_LIMIT <= p.pos_y <= FX_LIMIT
    &&& -FX_LIMIT <= p.vel_x <= FX_LIMIT
    &&& -FX_LIMIT <= p.vel_y <= FX_LIMIT
    &&& -FX_LIMIT <= p.col_r <= FX_LIMIT
    &&& -FX_LIMIT <= p.col_g <= FX_LIMIT
    &&& -FX_LIMIT <= p.col_b <= FX_LIMIT
}

/// Every particle of the store within the fixed-point range.
pub open spec fn all_wf(s: Seq<Particle>) -> bool {
    forall|k: int| 0 <= k < s.len() ==> particle_wf(#[trigger] s[k])
}

/// The shapes the initializer knows.  Reserved selectors are an
/// explicit variant rather than silent aliases of the grid; choosing
/// one leaves the store empty.
#[derive(Clone, Copy, PartialEq, Eq, Structural, Debug)]
pub enum ShapeKind {
    Grid,
    Unimplemented,
}

/// The `i`-th of `side` grid ordinates, spanning `[-extent, extent]`
/// exactly: the first sits on `-extent`, the last on `+extent`.  A
/// single-column grid sits at the span's centre.
pub open spec fn grid_coord(extent: int, side: int, i: int) -> int {
    if side <= 1 {
        0
    } else {
        -extent + tdiv(2 * extent * i, side - 1)
    }
}

/// The `k`-th particle of the freshly filled grid: row-major, the row
/// index outer, at rest, uncoloured.
pub open spec fn grid_particle(extent: int, side: int, k: int) -> Particle {
    Particle {
        pos_x: grid_coord(extent, side, k % side) as i64,
        pos_y: grid_coord(extent, side, k / side) as i64,
        vel_x: 0,
        vel_y: 0,
        col_r: 0,
        col_g: 0,
        col_b: 0,
    }
}

/// Grid ordinates stay within the span, and its two ends are hit
/// exactly.
pub proof fn lemma_grid_coord_range(extent: int, side: int, i: int)
    requires
        0 <= extent,
        0 <= i < side,
    ensures
        -extent <= grid_coord(extent, side, i) <= extent,
        i == 0 ==> grid_coord(extent, side, i) == if side <= 1 { 0int } else { -extent },
        side >= 2 && i == side - 1 ==> grid_coord(extent, side, i) == extent,
{
    if side >= 2 {
        let d = side - 1;
        assert(0 <= 2 * extent * i <= 2 * extent * d) by (nonlinear_arith)
            requires
                0 <= extent,
                0 <= i <= d;
        assert(2 * extent * d == d * (2 * extent)) by (nonlinear_arith);
        lemma_div_is_ordered(2 * extent * i, 2 * extent * d, d);
        lemma_div_multiples_vanish(2 * extent, d);
        lemma_tdiv_mag(2 * extent * i, d);
        if i == side - 1 {
            assert(tdiv(2 * extent * i, d) == 2 * extent);
        }
        if i == 0 {
            assert(2 * extent * 0 == 0) by (nonlinear_arith);
        }
    }
}

/// The `i`-th of `side` grid ordinates, executable form.
fn grid_coord_val(extent: i64, side: usize, i: usize) -> (c: i64)
    requires
        0 <= extent <= FX_LIMIT,
        i < side,
        side <= 4294967296,
    ensures
        c == grid_coord(extent as int, side as int, i as int),
        -extent <= c <= extent,
{
    proof {
        lemma_grid_coord_range(extent as int, side as int, i as int);
    }
    if side <= 1 {
        0
    } else {
        proof {
            assert(0 <= 2 * (extent as int) * (i as int) <= 0x20000000000000000000000)
                by (nonlinear_arith)
                requires
                    0 <= extent <= FX_LIMIT,
                    0 <= i <= 4294967296,
                    FX_LIMIT == 1099511627776;
        }
        let num: i128 = 2 * (extent as i128) * (i as i128);
        let q: i128 = div_trunc(num, (side - 1) as i128);
        (q - (extent as i128)) as i64
    }
}

/// Clears the store and rebuilds it in the requested shape.  The grid
/// fills `floor(sqrt(count))` rows of as many columns, centred on the
/// origin and spanning `[-extent, extent]` on each axis; reserved
/// shapes leave the store empty.
pub fn set_shape(particles: &mut Vec<Particle>, count: usize, extent: i64, shape: ShapeKind)
    requires
        0 <= extent <= FX_LIMIT,
    ensures
        shape is Grid ==> ({
            let side = sqrt_floor(count as nat) as int;
            &&& final(particles)@.len() == side * side
            &&& forall|k: int|
                0 <= k < side * side ==> final(particles)@[k] == grid_particle(
                    extent as int,
                    side,
                    k,
                )
        }),
        shape is Unimplemented ==> final(particles)@.len() == 0,
        all_wf(final(particles)@),
{
    particles.clear();
    match shape {
        ShapeKind::Unimplemented => {},
        ShapeKind::Grid => {
            let side64: u64 = isqrt(count as u128);
            proof {
                assert(side64 <= count && side64 <= 4294967296 && side64 * side64 <= usize::MAX)
                    by (nonlinear_arith)
                    requires
                        side64 * side64 <= count,
                        count <= usize::MAX,
                        usize::MAX <= 0xFFFFFFFFFFFFFFFF;
            }
            let side: usize = side64 as usize;
            let total: usize = side * side;
            let mut k: usize = 0;
            while k < total
                invariant
                    particles@.len() == k,
                    forall|j: int|
                        0 <= j < k ==> particles@[j] == grid_particle(
                            extent as int,
                            side as int,
                            j,
                        ),
                    all_wf(particles@),
                    total == side * side,
                    side == sqrt_floor(count as nat),
                    side <= 4294967296,
                    0 <= extent <= FX_LIMIT,
                    k <= total,
                decreases total - k,
            {
                proof {
                    assert(side >= 1) by (nonlinear_arith)
                        requires
                            k < side * side,
                            0 <= k,
                            0 <= side;
                }
                let x: usize = k % side;
                let y: usize = k / side;
                proof {
                    assert(y < side) by (nonlinear_arith)
                        requires
                            k < side * side,
                            side >= 1,
                            y == k as int / side as int,
                            k >= 0;
                }
                let gx: i64 = grid_coord_val(extent, side, x);
                let gy: i64 = grid_coord_val(extent, side, y);
                particles.push(
                    Particle {
                        pos_x: gx,
                        pos_y: gy,
                        vel_x: 0,
                        vel_y: 0,
                        col_r: 0,
                        col_g: 0,
                        col_b: 0,
                    },
                );
                k = k + 1;
            }
        },
    }
}

/// Shape invariant: the grid fill holds exactly
/// `min(count, floor(sqrt(count))^2)` particles, every ordinate lies in
/// `[-extent, extent]`, the first particle sits on the
/// `(-extent, -extent)` corner and the last on `(extent, extent)`.
pub proof fn lemma_grid_shape(s: Seq<Particle>, count: nat, extent: int)
    requires
        count >= 4,
        0 <= extent <= FX_LIMIT,
        s.len() == sqrt_floor(count) * sqrt_floor(count),
        forall|k: int|
            0 <= k < s.len() ==> s[k] == grid_particle(extent, sqrt_floor(count) as int, k),
    ensures
        s.len() == if count <= sqrt_floor(count) * sqrt_floor(count) {
            count as int
        } else {
            (sqrt_floor(count) * sqrt_floor(count)) as int
        },
        forall|k: int|
            0 <= k < s.len() ==> -extent <= #[trigger] s[k].pos_x <= extent && -extent
                <= s[k].pos_y <= extent,
        s[0].pos_x == -extent && s[0].pos_y == -extent,
        s[s.len() - 1].pos_x == extent && s[s.len() - 1].pos_y == extent,
{
    let side = sqrt_floor(count) as int;
    lemma_sqrt_floor(count);
    assert(side >= 2) by (nonlinear_arith)
        requires
            count >= 4,
            side >= 0,
            count < (side + 1) * (side + 1);
    assert(side * side >= 4) by (nonlinear_arith)
        requires
            side >= 2;
    assert forall|k: int| 0 <= k < s.len() implies -extent <= #[trigger] s[k].pos_x <= extent
        && -extent <= s[k].pos_y <= extent by {
        vstd::arithmetic::div_mod::lemma_mod_division_less_than_divisor(k, side);
        vstd::arithmetic::div_mod::lemma_fundamental_div_mod(k, side);
        assert(0 <= k / side < side) by (nonlinear_arith)
            requires
                0 <= k < side * side,
                side >= 1,
                side * (k / side) + k % side == k,
                0 <= k % side < side,
        ;
        lemma_grid_coord_range(extent, side, k % side);
        lemma_grid_coord_range(extent, side, k / side);
    }
    assert(0int == 0 * side + 0) by (nonlinear_arith);
    lemma_fundamental_div_mod_converse_div(0, side, 0, 0);
    lemma_fundamental_div_mod_converse_mod(0, side, 0, 0);
    lemma_grid_coord_range(extent, side, 0);
    assert(s[0] == grid_particle(extent, side, 0));
    assert(s[0].pos_x == grid_coord(extent, side, 0) as i64);
    let last = side * side - 1;
    assert(last == (side - 1) * side + (side - 1)) by (nonlinear_arith)
        requires
            last == side * side - 1;
    lemma_fundamental_div_mod_converse_div(last, side, side - 1, side - 1);
    lemma_fundamental_div_mod_converse_mod(last, side, side - 1, side - 1);
    lemma_grid_coord_range(extent, side, side - 1);
    assert(s[last] == grid_particle(extent, side, last));
    assert(s[last].pos_x == grid_coord(extent, side, side - 1) as i64);
    assert(s[last].pos_y == grid_coord(extent, side, side - 1) as i64);
}

/// `p` with its velocity cleared.
pub open spec fn with_zero_velocity(p: Particle) -> Particle {
    Particle { vel_x: 0, vel_y: 0, ..p }
}

/// Sets every particle's velocity to zero in place; positions and
/// colours are untouched.
pub fn reset_velocities(particles: &mut Vec<Particle>)
    ensures
        final(particles)@.len() == old(particles)@.len(),
        forall|k: int|
            0 <= k < old(particles)@.len() ==> final(particles)@[k] == with_zero_velocity(
                old(particles)@[k],
            ),
{
    let n = particles.len();
    let mut k: usize = 0;
    while k < n
        invariant
            particles@.len() == n == old(particles)@.len(),
            forall|j: int|
                0 <= j < k ==> particles@[j] == with_zero_velocity(old(particles)@[j]),
            forall|j: int| k <= j < n ==> particles@[j] == old(particles)@[j],
            k <= n,
        decreases n - k,
    {
        let mut p = particles[k];
        p.vel_x = 0;
        p.vel_y = 0;
        particles[k] = p;
        k = k + 1;
    }
}

/// Idempotence: a second velocity reset changes nothing — the store
/// after two resets equals the store after one.
pub proof fn lemma_reset_velocities_idempotent(
    s0: Seq<Particle>,
    s1: Seq<Particle>,
    s2: Seq<Particle>,
)
    requires
        s1.len() == s0.len(),
        forall|k: int| 0 <= k < s0.len() ==> s1[k] == with_zero_velocity(#[trigger] s0[k]),
        s2.len() == s1.len(),
        forall|k: int| 0 <= k < s1.len() ==> s2[k] == with_zero_velocity(#[trigger] s1[k]),
    ensures
        s2 == s1,
{
    assert forall|k: int| 0 <= k < s1.len() implies s2[k] == s1[k] by {
        assert(s1[k] == with_zero_velocity(s0[k]));
        assert(s2[k] == with_zero_velocity(s1[k]));
    }
    assert(s2 =~= s1);
}

/// `p` moved by its own velocity, saturated to the fixed-point range.
pub open spec fn moved(p: Particle) -> Particle {
    Particle {
        pos_x: clip(p.pos_x + p.vel_x, -FX_LIMIT as int, FX_LIMIT as int) as i64,
        pos_y: clip(p.pos_y + p.vel_y, -FX_LIMIT as int, FX_LIMIT as int) as i64,
        ..p
    }
}

/// Semi-implicit Euler step: adds each particle's velocity to its
/// position, a velocity being the distance covered in one frame.
pub fn apply_velocity(particles: &mut Vec<Particle>)
    requires
        all_wf(old(particles)@),
    ensures
        final(particles)@.len() == old(particles)@.len(),
        forall|k: int|
            0 <= k < old(particles)@.len() ==> final(particles)@[k] == moved(
                old(particles)@[k],
            ),
        all_wf(final(particles)@),
{
    let n = particles.len();
    let mut k: usize = 0;
    while k < n
        invariant
            particles@.len() == n == old(particles)@.len(),
            all_wf(old(particles)@),
            forall|j: int| 0 <= j < k ==> particles@[j] == moved(old(particles)@[j]),
            forall|j: int| k <= j < n ==> particles@[j] == old(particles)@[j],
            k <= n,
        decreases n - k,
    {
        let mut p = particles[k];
        p.pos_x = sat_fx((p.pos_x as i128) + (p.vel_x as i128));
        p.pos_y = sat_fx((p.pos_y as i128) + (p.vel_y as i128));
        particles[k] = p;
        k = k + 1;
    }
}

/// `p` recoloured: the blue channel holds the squared speed, the `y`
/// component weighted forty-fold.
pub open spec fn recolored(p: Particle) -> Particle {
    Particle {
        col_b: clip(
            tdiv(p.vel_x * p.vel_x, SCALE as int) + tdiv(p.vel_y * p.vel_y * 40, SCALE as int),
            -FX_LIMIT as int,
            FX_LIMIT as int,
        ) as i64,
        ..p
    }
}

/// Writes each particle's squared speed into its blue channel, a
/// velocity-magnitude visual encoding.
pub fn change_color(particles: &mut Vec<Particle>)
    requires
        all_wf(old(particles)@),
    ensures
        final(particles)@.len() == old(particles)@.len(),
        forall|k: int|
            0 <= k < old(particles)@.len() ==> final(particles)@[k] == recolored(
                old(particles)@[k],
            ),
{
    let n = particles.len();
    let mut k: usize = 0;
    while k < n
        invariant
            particles@.len() == n == old(particles)@.len(),
            all_wf(old(particles)@),
            forall|j: int| 0 <= j < k ==> particles@[j] == recolored(old(particles)@[j]),
            forall|j: int| k <= j < n ==> particles@[j] == old(particles)@[j],
            k <= n,
        decreases n - k,
    {
        let mut p = particles[k];
        proof {
            assert(particle_wf(old(particles)@[k as int]));
            assert(0 <= (p.vel_x as int) * (p.vel_x as int) <= 0x100000000000000000000
                && 0 <= (p.vel_y as int) * (p.vel_y as int) <= 0x100000000000000000000)
                by (nonlinear_arith)
                requires
                    -FX_LIMIT <= p.vel_x <= FX_LIMIT,
                    -FX_LIMIT <= p.vel_y <= FX_LIMIT,
                    FX_LIMIT == 1099511627776;
        }
        let sx: i128 = (p.vel_x as i128) * (p.vel_x as i128);
        let sy: i128 = (p.vel_y as i128) * (p.vel_y as i128) * 40;
        let qx: i128 = div_trunc(sx, SCALE as i128);
        let qy: i128 = div_trunc(sy, SCALE as i128);
        proof {
            lemma_tdiv_mag(sx as int, SCALE as int);
            lemma_tdiv_mag(sy as int, SCALE as int);
        }
        p.col_b = sat_fx(qx + qy);
        particles[k] = p;
        k = k + 1;
    }
}

/// `p` slowed: both velocity components scaled by the fixed-point
/// factor `f`.
pub open spec fn slowed(p: Particle, f: int) -> Particle {
    Particle {
        vel_x: clip(tdiv(p.vel_x * f, SCALE as int), -FX_LIMIT as int, FX_LIMIT as int) as i64,
        vel_y: clip(tdiv(p.vel_y * f, SCALE as int), -FX_LIMIT as int, FX_LIMIT as int) as i64,
        ..p
    }
}

/// Scales every velocity by a fixed-point factor — drag, when the
/// factor is below one.
pub fn resistance(particles: &mut Vec<Particle>, factor: i64)
    requires
        all_wf(old(particles)@),
        -FX_LIMIT <= factor <= FX_LIMIT,
    ensures
        final(particles)@.len() == old(particles)@.len(),
        forall|k: int|
            0 <= k < old(particles)@.len() ==> final(particles)@[k] == slowed(
                old(particles)@[k],
                factor as int,
            ),
{
    let n = particles.len();
    let mut k: usize = 0;
    while k < n
        invariant
            particles@.len() == n == old(particles)@.len(),
            all_wf(old(particles)@),
            -FX_LIMIT <= factor <= FX_LIMIT,
            forall|j: int|
                0 <= j < k ==> particles@[j] == slowed(old(particles)@[j], factor as int),
            forall|j: int| k <= j < n ==> particles@[j] == old(particles)@[j],
            k <= n,
        decreases n - k,
    {
        let mut p = particles[k];
        proof {
            assert(particle_wf(old(particles)@[k as int]));
            assert(-0x100000000000000000000 <= (p.vel_x as int) * (factor as int)
                <= 0x100000000000000000000 && -0x100000000000000000000 <= (p.vel_y as int) * (
            factor as int) <= 0x100000000000000000000) by (nonlinear_arith)
                requires
                    -FX_LIMIT <= p.vel_x <= FX_LIMIT,
                    -FX_LIMIT <= p.vel_y <= FX_LIMIT,
                    -FX_LIMIT <= factor <= FX_LIMIT,
                    FX_LIMIT == 1099511627776;
        }
        let vx: i128 = (p.vel_x as i128) * (factor as i128);
        let vy: i128 = (p.vel_y as i128) * (factor as i128);
        p.vel_x = sat_fx(div_trunc(vx, SCALE as i128));
        p.vel_y = sat_fx(div_trunc(vy, SCALE as i128));
        particles[k] = p;
        k = k + 1;
    }
}

/// The squared Euclidean distance from `p`'s position to `(qx, qy)`.
pub open spec fn dist2(p: Particle, qx: int, qy: int) -> int {
    (p.pos_x - qx) * (p.pos_x - qx) + (p.pos_y - qy) * (p.pos_y - qy)
}

/// Follow-lock search: the index of the particle nearest to
/// `(qx, qy)`, the lowest index on a tie; `None` only when the store is
/// empty.  Squared distances order the same as distances, so no root is
/// taken.
pub fn nearest_particle(particles: &Vec<Particle>, qx: i64, qy: i64) -> (r: Option<usize>)
    requires
        all_wf(particles@),
        -FX_LIMIT <= qx <= FX_LIMIT,
        -FX_LIMIT <= qy <= FX_LIMIT,
    ensures
        r is None <==> particles@.len() == 0,
        r matches Some(i) ==> i < particles@.len() && (forall|j: int|
            0 <= j < particles@.len() ==> dist2(particles@[i as int], qx as int, qy as int)
                <= dist2(#[trigger] particles@[j], qx as int, qy as int)) && (forall|j: int|
            0 <= j < i ==> dist2(particles@[i as int], qx as int, qy as int) < dist2(
                #[trigger] particles@[j],
                qx as int,
                qy as int,
            )),
{
    let n = particles.len();
    if n == 0 {
        return None;
    }
    let mut best: usize = 0;
    let mut best_d: i128 = dist2_val(particles, 0, qx, qy);
    let mut j: usize = 1;
    while j < n
        invariant
            all_wf(particles@),
            -FX_LIMIT <= qx <= FX_LIMIT,
            -FX_LIMIT <= qy <= FX_LIMIT,
            particles@.len() == n,
            best < j <= n,
            1 <= j,
            best_d == dist2(particles@[best as int], qx as int, qy as int),
            forall|t: int|
                0 <= t < j ==> best_d <= dist2(#[trigger] particles@[t], qx as int, qy as int),
            forall|t: int|
                0 <= t < best ==> best_d < dist2(#[trigger] particles@[t], qx as int, qy as int),
        decreases n - j,
    {
        let d = dist2_val(particles, j, qx, qy);
        if d < best_d {
            best = j;
            best_d = d;
        }
        j = j + 1;
    }
    Some(best)
}

/// The squared distance from one stored particle to a query point,
/// executable form.
fn dist2_val(particles: &Vec<Particle>, k: usize, qx: i64, qy: i64) -> (d: i128)
    requires
        all_wf(particles@),
        k < particles@.len(),
        -FX_LIMIT <= qx <= FX_LIMIT,
        -FX_LIMIT <= qy <= FX_LIMIT,
    ensures
        d == dist2(particles@[k as int], qx as int, qy as int),
{
    let p = particles[k];
    proof {
        assert(particle_wf(particles@[k as int]));
    }
    let dx: i128 = (p.pos_x as i128) - (qx as i128);
    let dy: i128 = (p.pos_y as i128) - (qy as i128);
    proof {
        assert(0 <= dx * dx <= 0x400000000000000000000000 && 0 <= dy * dy
            <= 0x400000000000000000000000) by (nonlinear_arith)
            requires
                -2199023255552 <= dx <= 2199023255552,
                -2199023255552 <= dy <= 2199023255552;
    }
    dx * dx + dy * dy
}

} // verus!
